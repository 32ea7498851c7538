//! The stores of the home: the devices themselves, and the links that say
//! which room or device holds which.
use crate::devices::Device;
use crate::text::text_eq;
use std::slice::Iter;
use vstd::prelude::*;
use vstd::std_specs::iter::IteratorSpec;
use vstd::string::*;

verus! {

/// The name of the root of the links, the home itself.
pub const HOME_NAME: &'static str = "HOME";

/// The place where `needle` stands, with no `needle` before it, is its first place.
pub proof fn lemma_first_index_is<T>(items: Seq<T>, needle: T, i: int)
    requires
        0 <= i < items.len(),
        items[i] == needle,
        forall|j: int| 0 <= j < i ==> items[j] != needle,
    ensures
        items.index_of_first(needle) == Some(i),
        items.contains(needle),
{
    items.index_of_first_ensures(needle);
}

/// What stands nowhere has no first place.
pub proof fn lemma_first_index_none<T>(items: Seq<T>, needle: T)
    requires
        forall|j: int| 0 <= j < items.len() ==> items[j] != needle,
    ensures
        items.index_of_first(needle) is None,
        !items.contains(needle),
{
    items.index_of_first_ensures(needle);
}

/// What a first place is: `needle` stands there and nowhere before; and
/// there is one exactly when `needle` occurs.
pub proof fn lemma_first_index<T>(items: Seq<T>, needle: T)
    ensures
        items.index_of_first(needle) is Some <==> items.contains(needle),
        items.index_of_first(needle) is Some ==> {
            let i = items.index_of_first(needle)->0;
            &&& 0 <= i < items.len()
            &&& items[i] == needle
            &&& forall|j: int| 0 <= j < i ==> items[j] != needle
        },
{
    items.index_of_first_ensures(needle);
}

/// A device of the store as the home sees it: the name and the description
/// that the device gave when it was added, and the device itself.
pub struct DeviceView<D> {
    pub name: Seq<char>,
    pub info: Seq<char>,
    pub device: D,
}

/// The names of a sequence of devices, in order.
pub open spec fn device_names<D>(devices: Seq<DeviceView<D>>) -> Seq<Seq<char>> {
    devices.map_values(|d: DeviceView<D>| d.name)
}

/// Whether one of `devices` has this name and this description.
pub open spec fn holds_like<D>(
    devices: Seq<DeviceView<D>>,
    name: Seq<char>,
    info: Seq<char>,
) -> bool {
    exists|i: int|
        0 <= i < devices.len() && (#[trigger] devices[i]).name == name && devices[i].info == info
}

/// The message of a removal that found no device of that name.
pub open spec fn device_not_found(name: Seq<char>) -> Seq<char> {
    "Not found device with name ["@ + name + "] in Devices Store"@
}

/// A device in the store. The store asks a device for its name and its
/// description once, when the device is added, and keeps the answers.
pub struct StoredDevice<D> {
    name: String,
    info: String,
    device: D,
}

impl<D> View for StoredDevice<D> {
    type V = DeviceView<D>;

    closed spec fn view(&self) -> DeviceView<D> {
        DeviceView { name: self.name@, info: self.info@, device: self.device }
    }
}

impl<D> StoredDevice<D> {
    /// The name that the device gave.
    pub fn name(&self) -> (r: &str)
        ensures
            r@ == self@.name,
    {
        self.name.as_str()
    }

    /// The description that the device gave.
    pub fn info(&self) -> (r: &str)
        ensures
            r@ == self@.info,
    {
        self.info.as_str()
    }

    /// The device itself.
    pub fn device(&self) -> (r: &D)
        ensures
            *r == self@.device,
    {
        &self.device
    }
}

/// The devices of a sequence as the home sees them.
pub open spec fn device_views<D>(devices: Seq<StoredDevice<D>>) -> Seq<DeviceView<D>> {
    devices.map_values(|d: StoredDevice<D>| d@)
}

/// The devices of the home, in the order in which they were added.
pub struct StoreDevices<D: Device> {
    devices: Vec<StoredDevice<D>>,
}

impl<D: Device> View for StoreDevices<D> {
    type V = Seq<DeviceView<D>>;

    closed spec fn view(&self) -> Seq<DeviceView<D>> {
        device_views(self.devices@)
    }
}

impl<D: Device> StoreDevices<D> {
    /// An empty store.
    pub fn new() -> (r: StoreDevices<D>)
        ensures
            r@ == Seq::<DeviceView<D>>::empty(),
    {
        let r = StoreDevices { devices: Vec::new() };
        assert(r@ =~= Seq::<DeviceView<D>>::empty());
        r
    }

    /// Whether the store holds a device with this name and this description.
    pub fn contains_described(&self, name: &str, info: &str) -> (r: bool)
        ensures
            r == holds_like(self@, name@, info@),
    {
        let mut i: usize = 0;
        while i < self.devices.len()
            invariant
                i <= self.devices.len(),
                forall|j: int|
                    0 <= j < i ==> !((#[trigger] self@[j]).name == name@ && self@[j].info
                        == info@),
            decreases self.devices.len() - i,
        {
            let held = &self.devices[i];
            if text_eq(held.name(), name) && text_eq(held.info(), info) {
                assert(self@[i as int].name == name@ && self@[i as int].info == info@);
                return true;
            }
            assert(!(self@[i as int].name == name@ && self@[i as int].info == info@));
            i += 1;
        }
        false
    }

    /// Whether the store holds a device with the name and the description
    /// that `device` gives. The device is asked for both once.
    pub fn contains(&self, device: &D) -> (r: bool)
        ensures
            exists|name: &str, info: String|
                D::name.ensures((device,), name) && D::info.ensures((device,), info) && r
                    == holds_like(self@, name@, info@),
    {
        let name = device.name();
        let info = device.info();
        self.contains_described(name, info.as_str())
    }

    /// Adds a device with the name and the description it gave at the end
    /// of the store.
    pub fn add_described(&mut self, name: String, info: String, device: D)
        ensures
            final(self)@ == old(self)@.push(DeviceView { name: name@, info: info@, device }),
    {
        self.devices.push(StoredDevice { name, info, device });
        assert(self@ =~= old(self)@.push(DeviceView { name: name@, info: info@, device }));
    }

    /// Adds a device at the end of the store, under the name and with the
    /// description that it gives. The device is asked for both once.
    pub fn add_device(&mut self, device: D)
        ensures
            exists|name: &str, info: String|
                D::name.ensures((&device,), name) && D::info.ensures((&device,), info)
                    && final(self)@ == old(self)@.push(
                    DeviceView { name: name@, info: info@, device },
                ),
    {
        let name = String::from_str(device.name());
        let info = device.info();
        self.add_described(name, info, device)
    }

    /// The place of the first device called `name`.
    pub fn position(&self, name: &str) -> (r: Option<usize>)
        ensures
            match r {
                Some(i) => device_names(self@).index_of_first(name@) == Some(i as int) && i
                    < self@.len(),
                None => device_names(self@).index_of_first(name@) is None,
            },
    {
        let mut i: usize = 0;
        while i < self.devices.len()
            invariant
                i <= self.devices.len(),
                forall|j: int| 0 <= j < i ==> device_names(self@)[j] != name@,
            decreases self.devices.len() - i,
        {
            if text_eq(self.devices[i].name(), name) {
                proof {
                    lemma_first_index_is(device_names(self@), name@, i as int);
                }
                return Some(i);
            }
            i += 1;
        }
        proof {
            lemma_first_index_none(device_names(self@), name@);
        }
        None
    }

    /// Removes the first device called `name`; where there is none, the
    /// store stays as it is and the error says so.
    pub fn remove_device(&mut self, device_name: &str) -> (r: Result<(), String>)
        ensures
            match device_names(old(self)@).index_of_first(device_name@) {
                Some(i) => r is Ok && final(self)@ == old(self)@.remove(i),
                None => r is Err && r->Err_0@ == device_not_found(device_name@) && final(self)@
                    == old(self)@,
            },
    {
        match self.position(device_name) {
            Some(index) => {
                self.devices.remove(index);
                assert(self@ =~= old(self)@.remove(index as int));
                Ok(())
            },
            None => {
                let mut message = String::from_str("Not found device with name [");
                message.append(device_name);
                message.append("] in Devices Store");
                Err(message)
            },
        }
    }

    /// Walks over the devices, in order.
    pub fn iter(&self) -> (r: Iter<'_, StoredDevice<D>>)
        ensures
            device_views(r.remaining().unref()) == self@,
            r.decrease() is Some,
            r.initial_value_relation(&r),
    {
        let r = self.devices.iter();
        assert(r.remaining().unref() =~= self.devices@);
        r
    }

    /// The device at place `index`.
    pub fn get(&self, index: usize) -> (r: &StoredDevice<D>)
        requires
            index < self@.len(),
        ensures
            r@ == self@[index as int],
    {
        &self.devices[index]
    }

    /// The number of devices.
    pub fn len(&self) -> (r: usize)
        ensures
            r == self@.len(),
    {
        self.devices.len()
    }
}

/// One entry of the links: a room or a device, and what it holds.
#[verifier::ext_equal]
pub struct Link {
    pub name: Seq<char>,
    pub entities: Seq<Seq<char>>,
}

/// The texts of a sequence of strings.
pub open spec fn texts(strings: Seq<String>) -> Seq<Seq<char>> {
    strings.map_values(|s: String| s@)
}

/// The names of the entries, in order.
pub open spec fn link_names(links: Seq<Link>) -> Seq<Seq<char>> {
    links.map_values(|link: Link| link.name)
}

/// Whether the links have an entry for `name`.
pub open spec fn has_link(links: Seq<Link>, name: Seq<char>) -> bool {
    link_names(links).contains(name)
}

/// What the entry of `name` holds; nothing where there is no such entry.
pub open spec fn entities_of(links: Seq<Link>, name: Seq<char>) -> Seq<Seq<char>> {
    match link_names(links).index_of_first(name) {
        Some(i) => links[i].entities,
        None => Seq::empty(),
    }
}

/// The links with the entry of `name` set to `entities`: in its old place
/// where there was one, at the end where there was none.
pub open spec fn with_link(links: Seq<Link>, name: Seq<char>, entities: Seq<Seq<char>>) -> Seq<
    Link,
> {
    match link_names(links).index_of_first(name) {
        Some(i) => links.update(i, Link { name, entities }),
        None => links.push(Link { name, entities }),
    }
}

/// The links without the entry of `name`.
pub open spec fn without_link(links: Seq<Link>, name: Seq<char>) -> Seq<Link> {
    match link_names(links).index_of_first(name) {
        Some(i) => links.remove(i),
        None => links,
    }
}

/// The place of the first entry that holds `name`.
pub open spec fn first_holder(links: Seq<Link>, name: Seq<char>) -> Option<int> {
    links.map_values(|link: Link| link.entities.contains(name)).index_of_first(true)
}

/// The links after the first entry that holds `name` has let go of its
/// first `name`.
pub open spec fn unlisted(links: Seq<Link>, name: Seq<char>) -> Seq<Link> {
    match first_holder(links, name) {
        Some(i) => links.update(
            i,
            Link { name: links[i].name, entities: links[i].entities.remove_value(name) },
        ),
        None => links,
    }
}

/// Setting an entry makes it hold what was set, leaves every other entry
/// as it was, and keeps the names apart.
pub proof fn lemma_with_link(
    links: Seq<Link>,
    name: Seq<char>,
    entities: Seq<Seq<char>>,
    other: Seq<char>,
)
    ensures
        has_link(with_link(links, name, entities), name),
        entities_of(with_link(links, name, entities), name) == entities,
        other != name ==> has_link(with_link(links, name, entities), other) == has_link(
            links,
            other,
        ),
        other != name ==> entities_of(with_link(links, name, entities), other) == entities_of(
            links,
            other,
        ),
        link_names(links).no_duplicates() ==> link_names(
            with_link(links, name, entities),
        ).no_duplicates(),
{
    let after = with_link(links, name, entities);
    lemma_first_index(link_names(links), name);
    lemma_first_index(link_names(links), other);
    match link_names(links).index_of_first(name) {
        Some(i) => {
            assert(link_names(links)[i] == links[i].name);
            assert(link_names(after) =~= link_names(links));
            if other != name && link_names(links).index_of_first(other) is Some {
                let j = link_names(links).index_of_first(other)->0;
                assert(link_names(links)[j] == links[j].name);
            }
        },
        None => {
            let n = links.len() as int;
            assert(link_names(after) =~= link_names(links).push(name));
            lemma_first_index_is(link_names(after), name, n);
            if other != name {
                if link_names(links).index_of_first(other) is Some {
                    let j = link_names(links).index_of_first(other)->0;
                    lemma_first_index_is(link_names(after), other, j);
                } else {
                    lemma_first_index_none(link_names(after), other);
                }
            }
        },
    }
}

/// Removing an entry leaves no entry of that name, where the names were
/// apart, leaves every other entry as it was, and keeps the names apart.
pub proof fn lemma_without_link(links: Seq<Link>, name: Seq<char>, other: Seq<char>)
    requires
        link_names(links).no_duplicates(),
    ensures
        !has_link(without_link(links, name), name),
        other != name ==> has_link(without_link(links, name), other) == has_link(links, other),
        other != name ==> entities_of(without_link(links, name), other) == entities_of(
            links,
            other,
        ),
        link_names(without_link(links, name)).no_duplicates(),
{
    let after = without_link(links, name);
    lemma_first_index(link_names(links), name);
    lemma_first_index(link_names(links), other);
    match link_names(links).index_of_first(name) {
        Some(i) => {
            assert(link_names(after) =~= link_names(links).remove(i));
            assert forall|k: int| 0 <= k < link_names(after).len() implies link_names(after)[k]
                != name by {
                if k < i {
                    assert(link_names(after)[k] == link_names(links)[k]);
                } else {
                    assert(link_names(after)[k] == link_names(links)[k + 1]);
                }
            }
            lemma_first_index_none(link_names(after), name);
            if other != name {
                if link_names(links).index_of_first(other) is Some {
                    let j = link_names(links).index_of_first(other)->0;
                    let k = if j < i {
                        j
                    } else {
                        j - 1
                    };
                    assert(link_names(after)[k] == other);
                    assert forall|m: int| 0 <= m < k implies link_names(after)[m] != other by {
                        if m < i {
                            assert(link_names(after)[m] == link_names(links)[m]);
                        } else {
                            assert(link_names(after)[m] == link_names(links)[m + 1]);
                        }
                    }
                    lemma_first_index_is(link_names(after), other, k);
                    assert(after[k] == links[j]);
                } else {
                    assert forall|m: int| 0 <= m < link_names(after).len() implies link_names(
                        after,
                    )[m] != other by {
                        if m < i {
                            assert(link_names(after)[m] == link_names(links)[m]);
                        } else {
                            assert(link_names(after)[m] == link_names(links)[m + 1]);
                        }
                    }
                    lemma_first_index_none(link_names(after), other);
                }
            }
        },
        None => {},
    }
}

/// The message of a room removal that found no such room under the root.
pub open spec fn room_not_found(name: Seq<char>) -> Seq<char> {
    "Room with name ["@ + name + "] not found in Schemas store"@
}

/// The message of a device removal that found no entry of that name.
pub open spec fn link_not_found(name: Seq<char>) -> Seq<char> {
    "No found device name ["@ + name + "] at schema"@
}

struct LinkEntry {
    name: String,
    entities: Vec<String>,
}

impl View for LinkEntry {
    type V = Link;

    closed spec fn view(&self) -> Link {
        Link { name: self.name@, entities: texts(self.entities@) }
    }
}

/// The links of the home: for the root, each room and each device, the names
/// of what it holds. No name has two entries.
pub struct StoreDeviceLinks {
    links: Vec<LinkEntry>,
}

impl View for StoreDeviceLinks {
    type V = Seq<Link>;

    closed spec fn view(&self) -> Seq<Link> {
        self.links@.map_values(|entry: LinkEntry| entry@)
    }
}

/// The place of the first string of a list whose text is `name`.
fn position_in(list: &Vec<String>, name: &str) -> (r: Option<usize>)
    ensures
        match r {
            Some(i) => texts(list@).index_of_first(name@) == Some(i as int) && i < list@.len(),
            None => texts(list@).index_of_first(name@) is None,
        },
{
    let mut i: usize = 0;
    while i < list.len()
        invariant
            i <= list.len(),
            forall|j: int| 0 <= j < i ==> texts(list@)[j] != name@,
        decreases list.len() - i,
    {
        if text_eq(list[i].as_str(), name) {
            proof {
                lemma_first_index_is(texts(list@), name@, i as int);
            }
            return Some(i);
        }
        i += 1;
    }
    proof {
        lemma_first_index_none(texts(list@), name@);
    }
    None
}

impl StoreDeviceLinks {
    /// No name has two entries. The links start so, and every operation
    /// keeps them so.
    pub open spec fn wf(&self) -> bool {
        link_names(self@).no_duplicates()
    }

    /// The links of an empty home: the root, which holds nothing.
    pub fn new() -> (r: Self)
        ensures
            r@ == seq![Link { name: HOME_NAME@, entities: Seq::empty() }],
            r.wf(),
    {
        let mut links: Vec<LinkEntry> = Vec::new();
        links.push(LinkEntry { name: String::from_str(HOME_NAME), entities: Vec::new() });
        let r = StoreDeviceLinks { links };
        assert(r@ =~~= seq![Link { name: HOME_NAME@, entities: Seq::empty() }]);
        r
    }

    /// The place of the entry of `name`.
    fn find(&self, name: &str) -> (r: Option<usize>)
        ensures
            match r {
                Some(i) => link_names(self@).index_of_first(name@) == Some(i as int) && i
                    < self@.len(),
                None => link_names(self@).index_of_first(name@) is None,
            },
    {
        let mut i: usize = 0;
        while i < self.links.len()
            invariant
                i <= self.links.len(),
                link_names(self@).len() == self.links.len(),
                forall|j: int| 0 <= j < i ==> link_names(self@)[j] != name@,
            decreases self.links.len() - i,
        {
            if text_eq(self.links[i].name.as_str(), name) {
                proof {
                    lemma_first_index_is(link_names(self@), name@, i as int);
                }
                return Some(i);
            }
            i += 1;
        }
        proof {
            lemma_first_index_none(link_names(self@), name@);
        }
        None
    }

    /// Sets what the entry of `name` holds, making the entry where there is none.
    fn put(&mut self, name: &str, entities: Vec<String>)
        ensures
            final(self)@ == with_link(old(self)@, name@, texts(entities@)),
            old(self).wf() ==> final(self).wf(),
    {
        let ghost before = self@;
        let ghost link = Link { name: name@, entities: texts(entities@) };
        match self.find(name) {
            Some(i) => {
                proof {
                    lemma_first_index(link_names(before), name@);
                }
                assert(link_names(before)[i as int] == before[i as int].name);
                let ghost old_links = self.links@;
                self.links[i].entities = entities;
                assert forall|j: int| 0 <= j < before.len() implies self@[j] == before.update(
                    i as int,
                    link,
                )[j] by {
                    if j != i {
                        assert(self.links@[j] == old_links[j]);
                    } else {
                        assert(self.links@[j].name == old_links[j].name);
                    }
                }
                assert(self@ =~= before.update(i as int, link));
                assert(link_names(self@) =~= link_names(before));
            },
            None => {
                self.links.push(LinkEntry { name: String::from_str(name), entities });
                assert(self@ =~~= before.push(link));
                assert(link_names(self@) =~= link_names(before).push(name@));
                proof {
                    lemma_first_index(link_names(before), name@);
                }
            },
        }
    }

    /// Adds `entity` at the end of what the entry at `index` holds.
    fn push_entity(&mut self, index: usize, entity: &str)
        requires
            index < old(self)@.len(),
        ensures
            final(self)@ == old(self)@.update(
                index as int,
                Link {
                    name: old(self)@[index as int].name,
                    entities: old(self)@[index as int].entities.push(entity@),
                },
            ),
            old(self).wf() ==> final(self).wf(),
    {
        let ghost before = self@;
        self.links[index].entities.push(String::from_str(entity));
        assert(self@ =~~= before.update(
            index as int,
            Link {
                name: before[index as int].name,
                entities: before[index as int].entities.push(entity@),
            },
        ));
        assert(link_names(self@) =~= link_names(before));
    }

    /// Removes the entry of `name` and says whether there was one.
    fn take_link(&mut self, name: &str) -> (r: bool)
        ensures
            r == has_link(old(self)@, name@),
            final(self)@ == without_link(old(self)@, name@),
            old(self).wf() ==> final(self).wf(),
    {
        let ghost before = self@;
        proof {
            lemma_first_index(link_names(before), name@);
        }
        match self.find(name) {
            Some(i) => {
                self.links.remove(i);
                assert(self@ =~= before.remove(i as int));
                assert(link_names(self@) =~= link_names(before).remove(i as int));
                true
            },
            None => false,
        }
    }

    /// The number of entries, or one less where that number is the largest
    /// that the machine can count.
    pub fn depth(&self) -> (r: usize)
        ensures
            r == if self@.len() < usize::MAX {
                self@.len()
            } else {
                (usize::MAX - 1) as nat
            },
    {
        let n = self.links.len();
        if n < usize::MAX {
            n
        } else {
            usize::MAX - 1
        }
    }

    /// Whether there is an entry for the room.
    pub fn contains_room(&self, room_name: &str) -> (r: bool)
        ensures
            r == has_link(self@, room_name@),
    {
        proof {
            lemma_first_index(link_names(self@), room_name@);
        }
        self.find(room_name).is_some()
    }

    /// Whether there is an entry for the device.
    pub fn contains_device(&self, device_name: &str) -> (r: bool)
        ensures
            r == has_link(self@, device_name@),
    {
        proof {
            lemma_first_index(link_names(self@), device_name@);
        }
        self.find(device_name).is_some()
    }

    /// What the entry of `name` holds, where there is such an entry.
    pub fn list(&self, name: &str) -> (r: Option<&Vec<String>>)
        ensures
            r is Some <==> has_link(self@, name@),
            r is Some ==> texts(r->0@) == entities_of(self@, name@),
    {
        proof {
            lemma_first_index(link_names(self@), name@);
        }
        match self.find(name) {
            Some(i) => Some(&self.links[i].entities),
            None => None,
        }
    }

    /// Adds a room: the root holds it from now on, and the room holds nothing.
    ///
    /// The root must be there.
    pub fn add_room(&mut self, room_name: &str)
        requires
            has_link(old(self)@, HOME_NAME@),
        ensures
            final(self)@ == with_link(
                with_link(
                    old(self)@,
                    HOME_NAME@,
                    entities_of(old(self)@, HOME_NAME@).push(room_name@),
                ),
                room_name@,
                Seq::empty(),
            ),
            old(self).wf() ==> final(self).wf(),
    {
        self.add_device(HOME_NAME, room_name)
    }

    /// Removes a room: the root lets go of its first mention, and the room's
    /// entry goes. A room that the root does not hold is an error, and the
    /// links stay as they are.
    ///
    /// The root must be there.
    pub fn remove_room(&mut self, room_name: &str) -> (r: Result<(), String>)
        requires
            has_link(old(self)@, HOME_NAME@),
        ensures
            match entities_of(old(self)@, HOME_NAME@).index_of_first(room_name@) {
                Some(k) => r is Ok && final(self)@ == without_link(
                    with_link(
                        old(self)@,
                        HOME_NAME@,
                        entities_of(old(self)@, HOME_NAME@).remove(k),
                    ),
                    room_name@,
                ),
                None => r is Err && r->Err_0@ == room_not_found(room_name@) && final(self)@
                    == old(self)@,
            },
            old(self).wf() ==> final(self).wf(),
    {
        let ghost before = self@;
        proof {
            lemma_first_index(link_names(before), HOME_NAME@);
        }
        match self.find(HOME_NAME) {
            Some(home) => {
                assert(link_names(before)[home as int] == before[home as int].name);
                match position_in(&self.links[home].entities, room_name) {
                    Some(k) => {
                        self.links[home].entities.remove(k);
                        assert(self@ =~~= with_link(
                            before,
                            HOME_NAME@,
                            entities_of(before, HOME_NAME@).remove(k as int),
                        ));
                        assert(link_names(self@) =~= link_names(before));
                        self.take_link(room_name);
                        Ok(())
                    },
                    None => {
                        let mut message = String::from_str("Room with name [");
                        message.append(room_name);
                        message.append("] not found in Schemas store");
                        Err(message)
                    },
                }
            },
            None => Ok(()),
        }
    }

    /// Whether the room holds the device and the device has an entry.
    pub fn contains_device_in_room(&self, room_name: &str, device_name: &str) -> (r: bool)
        ensures
            r == (entities_of(self@, room_name@).contains(device_name@) && has_link(
                self@,
                device_name@,
            )),
    {
        proof {
            lemma_first_index(link_names(self@), room_name@);
        }
        let contains_in_room = match self.list(room_name) {
            None => false,
            Some(room_devices) => {
                proof {
                    lemma_first_index(texts(room_devices@), device_name@);
                }
                position_in(room_devices, device_name).is_some()
            },
        };
        let contains_in_list = self.contains_device(device_name);
        contains_in_list && contains_in_room
    }

    /// Adds a device to a room: the room holds it from now on, and the device
    /// holds nothing.
    ///
    /// The room must be there.
    pub fn add_device(&mut self, room_name: &str, device_name: &str)
        requires
            has_link(old(self)@, room_name@),
        ensures
            final(self)@ == with_link(
                with_link(
                    old(self)@,
                    room_name@,
                    entities_of(old(self)@, room_name@).push(device_name@),
                ),
                device_name@,
                Seq::empty(),
            ),
            old(self).wf() ==> final(self).wf(),
    {
        let ghost before = self@;
        proof {
            lemma_first_index(link_names(before), room_name@);
        }
        match self.find(room_name) {
            Some(room) => {
                assert(link_names(before)[room as int] == before[room as int].name);
                self.push_entity(room, device_name);
            },
            None => {},
        }
        let nothing: Vec<String> = Vec::new();
        assert(texts(nothing@) =~= Seq::<Seq<char>>::empty());
        self.put(device_name, nothing);
    }

    /// Whether the entry of `device_to` holds `device_from`.
    pub fn contains_connected_device(&self, device_to: &str, device_from: &str) -> (r: bool)
        ensures
            r == entities_of(self@, device_to@).contains(device_from@),
    {
        proof {
            lemma_first_index(link_names(self@), device_to@);
        }
        match self.list(device_to) {
            None => false,
            Some(connected_devices) => {
                proof {
                    lemma_first_index(texts(connected_devices@), device_from@);
                }
                position_in(connected_devices, device_from).is_some()
            },
        }
    }

    /// Connects a device to another: the entry of `device_name_to` holds
    /// `device_name_from` from now on.
    ///
    /// The entry must be there and must not hold that device yet.
    pub fn connect_device(&mut self, device_name_to: &str, device_name_from: &str)
        requires
            has_link(old(self)@, device_name_to@),
            !entities_of(old(self)@, device_name_to@).contains(device_name_from@),
        ensures
            final(self)@ == with_link(
                old(self)@,
                device_name_to@,
                entities_of(old(self)@, device_name_to@).push(device_name_from@),
            ),
            old(self).wf() ==> final(self).wf(),
    {
        let ghost before = self@;
        proof {
            lemma_first_index(link_names(before), device_name_to@);
        }
        match self.find(device_name_to) {
            Some(to) => {
                assert(link_names(before)[to as int] == before[to as int].name);
                self.push_entity(to, device_name_from);
            },
            None => {},
        }
    }

    /// Removes a device: its entry goes, and the first entry that holds the
    /// device lets go of its first mention. A device without an entry is an
    /// error, and the links stay as they are.
    pub fn remove_device(&mut self, device_name: &str) -> (r: Result<(), String>)
        ensures
            has_link(old(self)@, device_name@) ==> r is Ok && final(self)@ == unlisted(
                without_link(old(self)@, device_name@),
                device_name@,
            ),
            !has_link(old(self)@, device_name@) ==> r is Err && r->Err_0@ == link_not_found(
                device_name@,
            ) && final(self)@ == old(self)@,
            old(self).wf() ==> final(self).wf(),
    {
        proof {
            lemma_first_index(link_names(self@), device_name@);
        }
        if !self.take_link(device_name) {
            let mut message = String::from_str("No found device name [");
            message.append(device_name);
            message.append("] at schema");
            return Err(message);
        }
        let ghost rest = self@;
        let ghost holds = rest.map_values(|link: Link| link.entities.contains(device_name@));
        let mut i: usize = 0;
        while i < self.links.len()
            invariant
                i <= self.links.len(),
                self@ == rest,
                rest == without_link(old(self)@, device_name@),
                has_link(old(self)@, device_name@),
                old(self).wf() ==> link_names(rest).no_duplicates(),
                holds == rest.map_values(|link: Link| link.entities.contains(device_name@)),
                forall|j: int| 0 <= j < i ==> holds[j] != true,
            decreases self.links.len() - i,
        {
            match position_in(&self.links[i].entities, device_name) {
                Some(k) => {
                    proof {
                        lemma_first_index(rest[i as int].entities, device_name@);
                        lemma_first_index_is(holds, true, i as int);
                    }
                    self.links[i].entities.remove(k);
                    assert(self@ =~~= unlisted(rest, device_name@));
                    assert(link_names(self@) =~= link_names(rest));
                    return Ok(());
                },
                None => {
                    proof {
                        lemma_first_index(rest[i as int].entities, device_name@);
                    }
                },
            }
            i += 1;
        }
        proof {
            lemma_first_index_none(holds, true);
        }
        Ok(())
    }

    /// Walks over what the entry of `name` holds, in order; over nothing
    /// where there is no such entry.
    pub fn entities(&self, name: &str) -> (r: Iter<'_, String>)
        ensures
            texts(r.remaining().unref()) == entities_of(self@, name@),
            r.decrease() is Some,
            r.initial_value_relation(&r),
    {
        match self.find(name) {
            Some(i) => {
                let r = self.links[i].entities.iter();
                assert(r.remaining().unref() =~= self.links[i as int].entities@);
                r
            },
            None => {
                let nothing: &[String] = &[];
                let r = nothing.iter();
                assert(texts(r.remaining().unref()) =~= Seq::<Seq<char>>::empty());
                r
            },
        }
    }
}

} // verus!
