//! The services of the home: they guard the stores against duplicates and
//! turn their contents into reports.
use crate::devices::Device;
use crate::stores::{
    device_names, entities_of, has_link, holds_like, texts, unlisted, with_link, without_link,
    DeviceView, Link, StoreDeviceLinks, StoreDevices, HOME_NAME,
};
use std::slice::Iter;
use vstd::prelude::*;
use vstd::std_specs::iter::IteratorSpec;
use vstd::string::*;

verus! {

/// The message of an addition that found the device in the store already.
pub open spec fn device_already_stored(name: Seq<char>) -> Seq<char> {
    "Devices store already contains device ["@ + name + "]"@
}

/// The report on a sequence of devices: what each says of itself, each
/// followed by an empty line.
pub open spec fn report_of<D>(devices: Seq<DeviceView<D>>) -> Seq<char>
    decreases devices.len(),
{
    if devices.len() == 0 {
        Seq::empty()
    } else {
        report_of(devices.drop_last()) + devices.last().info + "\n\n"@
    }
}

/// What adding a device that gave `name` and `info` does to the devices
/// `before`: a device with that name and that description in them is an
/// error and leaves them as they are; else the device stands at their end.
pub open spec fn device_added<D>(
    before: Seq<DeviceView<D>>,
    after: Seq<DeviceView<D>>,
    r: Result<(), String>,
    name: Seq<char>,
    info: Seq<char>,
    device: D,
) -> bool {
    if holds_like(before, name, info) {
        r is Err && r->Err_0@ == device_already_stored(name) && after == before
    } else {
        r is Ok && after == before.push(DeviceView { name, info, device })
    }
}

/// Keeps the devices of the home.
pub struct ServiceDevices<D: Device> {
    store_devices: StoreDevices<D>,
}

impl<D: Device> View for ServiceDevices<D> {
    type V = Seq<DeviceView<D>>;

    closed spec fn view(&self) -> Seq<DeviceView<D>> {
        self.store_devices@
    }
}

impl<D: Device> ServiceDevices<D> {
    /// A service over the given store.
    pub fn new(store_devices: StoreDevices<D>) -> (r: ServiceDevices<D>)
        ensures
            r@ == store_devices@,
    {
        ServiceDevices { store_devices }
    }

    /// Adds a device that gave `name` and `info`, unless the store holds one
    /// with that name and that description already.
    pub fn add_described(&mut self, name: String, info: String, device: D) -> (r: Result<
        (),
        String,
    >)
        ensures
            device_added(old(self)@, final(self)@, r, name@, info@, device),
    {
        if self.store_devices.contains_described(name.as_str(), info.as_str()) {
            let mut message = String::from_str("Devices store already contains device [");
            message.append(name.as_str());
            message.append("]");
            Err(message)
        } else {
            self.store_devices.add_described(name, info, device);
            Ok(())
        }
    }

    /// Adds a device under the name and with the description that it gives,
    /// unless the store holds one with both already. The device is asked
    /// for both once.
    pub fn add_device(&mut self, device: D) -> (r: Result<(), String>)
        ensures
            exists|name: &str, info: String|
                D::name.ensures((&device,), name) && D::info.ensures((&device,), info)
                    && device_added(old(self)@, final(self)@, r, name@, info@, device),
    {
        let name = String::from_str(device.name());
        let info = device.info();
        self.add_described(name, info, device)
    }

    /// Removes the first device of that name.
    pub fn remove_device(&mut self, device_name: &str) -> (r: Result<(), String>)
        ensures
            match device_names(old(self)@).index_of_first(device_name@) {
                Some(i) => r is Ok && final(self)@ == old(self)@.remove(i),
                None => r is Err && r->Err_0@ == crate::stores::device_not_found(device_name@)
                    && final(self)@ == old(self)@,
            },
    {
        self.store_devices.remove_device(device_name)
    }

    /// The first device of that name.
    pub fn get_device(&self, device_name: &str) -> (r: Option<&D>)
        ensures
            match device_names(self@).index_of_first(device_name@) {
                Some(i) => r is Some && *r->0 == self@[i].device,
                None => r is None,
            },
    {
        match self.store_devices.position(device_name) {
            Some(i) => Some(self.store_devices.get(i).device()),
            None => None,
        }
    }

    /// The names of the devices, in order.
    pub fn get_devices(&self) -> (r: Vec<String>)
        ensures
            texts(r@) == device_names(self@),
    {
        let mut names: Vec<String> = Vec::new();
        let mut i: usize = 0;
        while i < self.store_devices.len()
            invariant
                i <= self.store_devices@.len(),
                names@.len() == i,
                forall|j: int| 0 <= j < i ==> names@[j]@ == self.store_devices@[j].name,
            decreases self.store_devices@.len() - i,
        {
            names.push(String::from_str(self.store_devices.get(i).name()));
            i += 1;
        }
        assert(texts(names@) =~= device_names(self@));
        names
    }

    /// The report on all devices.
    pub fn collect_data_for_report(&self) -> (r: String)
        ensures
            r@ == report_of(self@),
    {
        let mut info = String::new();
        let mut i: usize = 0;
        while i < self.store_devices.len()
            invariant
                i <= self.store_devices@.len(),
                info@ == report_of(self.store_devices@.take(i as int)),
            decreases self.store_devices@.len() - i,
        {
            info.append(self.store_devices.get(i).info());
            info.append("\n\n");
            proof {
                let next = self.store_devices@.take(i + 1);
                assert(next.drop_last() =~= self.store_devices@.take(i as int));
                assert(next.last() == self.store_devices@[i as int]);
            }
            i += 1;
        }
        assert(self.store_devices@.take(i as int) =~= self.store_devices@);
        info
    }
}

/// The message of adding a room whose name has an entry already.
pub open spec fn room_already_there(room: Seq<char>) -> Seq<char> {
    "Room ["@ + room + "] already contains in home"@
}

/// The message of removing a room whose name has no entry.
pub open spec fn room_not_there(room: Seq<char>) -> Seq<char> {
    "Room ["@ + room + "] not contains in home"@
}

/// The message of adding a device to a room that has no entry.
pub open spec fn home_without_room(room: Seq<char>) -> Seq<char> {
    "Home not contains room["@ + room + "]"@
}

/// The message of adding a device to a room that holds it already.
pub open spec fn room_with_device(room: Seq<char>, device: Seq<char>) -> Seq<char> {
    "Room["@ + room + "] already contains device["@ + device + "]"@
}

/// The message of connecting a device that the room does not hold.
pub open spec fn room_without_device(room: Seq<char>, device: Seq<char>) -> Seq<char> {
    "Room["@ + room + "] not contains device["@ + device + "]"@
}

/// Whether the room holds the device and the device has an entry.
pub open spec fn device_in_room(links: Seq<Link>, room: Seq<char>, device: Seq<char>) -> bool {
    entities_of(links, room).contains(device) && has_link(links, device)
}

/// As many tab characters as `n` says.
pub open spec fn tabs_of(n: nat) -> Seq<char> {
    Seq::new(n, |i: int| '\t')
}

/// The line of an entity that stands `tabs` levels below its room.
pub open spec fn entity_line(name: Seq<char>, tabs: nat) -> Seq<char> {
    tabs_of(tabs) + "- "@ + name + "\n"@
}

/// The lines of `names` and of what hangs below them, `depth` levels down
/// at most: each name on a line of its own, followed by the lines of what
/// its entry holds, one tab further in.
pub open spec fn subtree_text(
    links: Seq<Link>,
    names: Seq<Seq<char>>,
    tabs: nat,
    depth: nat,
) -> Seq<char>
    decreases depth, names.len(),
{
    if names.len() == 0 {
        Seq::empty()
    } else {
        subtree_text(links, names.drop_last(), tabs, depth) + entity_line(names.last(), tabs) + (
        if depth == 0 {
            Seq::empty()
        } else {
            subtree_text(links, entities_of(links, names.last()), tabs + 1, (depth - 1) as nat)
        })
    }
}

/// The lines of the rooms `rooms`: each room's heading, followed by the
/// lines of what hangs below it.
pub open spec fn rooms_text(links: Seq<Link>, rooms: Seq<Seq<char>>, depth: nat) -> Seq<char>
    decreases rooms.len(),
{
    if rooms.len() == 0 {
        Seq::empty()
    } else {
        rooms_text(links, rooms.drop_last(), depth) + "[ROOM] "@ + rooms.last() + "\n"@
            + subtree_text(links, entities_of(links, rooms.last()), 1, depth)
    }
}

/// How far below a room the schema follows the links: as many levels as
/// there are entries. Links without a cycle go no deeper.
pub open spec fn schema_depth(links: Seq<Link>) -> nat {
    if links.len() < usize::MAX {
        links.len()
    } else {
        (usize::MAX - 1) as nat
    }
}

/// The schema of the home as text.
pub open spec fn schema_text(links: Seq<Link>) -> Seq<char> {
    "Schema of home:\n"@ + rooms_text(links, entities_of(links, HOME_NAME@), schema_depth(links))
        + "In development"@
}

/// Keeps the schema of the home: which room holds which device, and which
/// device is connected to which.
pub struct ServiceSchemaDevices {
    store_schema: StoreDeviceLinks,
}

impl View for ServiceSchemaDevices {
    type V = Seq<Link>;

    closed spec fn view(&self) -> Seq<Link> {
        self.store_schema@
    }
}

impl ServiceSchemaDevices {
    /// No name has two entries.
    pub closed spec fn wf(&self) -> bool {
        self.store_schema.wf()
    }

    /// What `wf` says of the links.
    pub proof fn lemma_wf(&self)
        requires
            self.wf(),
        ensures
            crate::stores::link_names(self@).no_duplicates(),
    {
    }

    /// A service over the given links.
    pub fn new(store_schema: StoreDeviceLinks) -> (r: Self)
        ensures
            r@ == store_schema@,
            r.wf() == store_schema.wf(),
    {
        ServiceSchemaDevices { store_schema }
    }

    /// Whether the name has an entry: as the root, a room or a device.
    pub fn contains(&self, name: &str) -> (r: bool)
        ensures
            r == has_link(self@, name@),
    {
        self.store_schema.contains_room(name)
    }

    /// Whether the room holds the device and the device has an entry.
    pub fn holds(&self, room_name: &str, device_name: &str) -> (r: bool)
        ensures
            r == device_in_room(self@, room_name@, device_name@),
    {
        self.store_schema.contains_device_in_room(room_name, device_name)
    }

    /// Whether `device_from` is connected to `device_to`.
    pub fn connected(&self, device_to: &str, device_from: &str) -> (r: bool)
        ensures
            r == entities_of(self@, device_to@).contains(device_from@),
    {
        self.store_schema.contains_connected_device(device_to, device_from)
    }

    /// Adds a room, unless its name has an entry already.
    ///
    /// Where the name is free, the root must be there.
    pub fn add_room(&mut self, room_name: &str) -> (r: Result<(), String>)
        requires
            has_link(old(self)@, room_name@) || has_link(old(self)@, HOME_NAME@),
        ensures
            has_link(old(self)@, room_name@) ==> r is Err && r->Err_0@ == room_already_there(
                room_name@,
            ) && final(self)@ == old(self)@,
            !has_link(old(self)@, room_name@) ==> r is Ok && final(self)@ == with_link(
                with_link(
                    old(self)@,
                    HOME_NAME@,
                    entities_of(old(self)@, HOME_NAME@).push(room_name@),
                ),
                room_name@,
                Seq::empty(),
            ),
            old(self).wf() ==> final(self).wf(),
    {
        if self.store_schema.contains_room(room_name) {
            let mut message = String::from_str("Room [");
            message.append(room_name);
            message.append("] already contains in home");
            Err(message)
        } else {
            self.store_schema.add_room(room_name);
            Ok(())
        }
    }

    /// Removes a room. A name without an entry is an error, and so is a name
    /// that the root does not hold; the schema then stays as it is.
    ///
    /// Where the name has an entry, the root must be there.
    pub fn remove_room(&mut self, room_name: &str) -> (r: Result<(), String>)
        requires
            has_link(old(self)@, room_name@) ==> has_link(old(self)@, HOME_NAME@),
        ensures
            !has_link(old(self)@, room_name@) ==> r is Err && r->Err_0@ == room_not_there(
                room_name@,
            ) && final(self)@ == old(self)@,
            has_link(old(self)@, room_name@) ==> match entities_of(
                old(self)@,
                HOME_NAME@,
            ).index_of_first(room_name@) {
                Some(k) => r is Ok && final(self)@ == without_link(
                    with_link(
                        old(self)@,
                        HOME_NAME@,
                        entities_of(old(self)@, HOME_NAME@).remove(k),
                    ),
                    room_name@,
                ),
                None => r is Err && r->Err_0@ == crate::stores::room_not_found(room_name@)
                    && final(self)@ == old(self)@,
            },
            old(self).wf() ==> final(self).wf(),
    {
        if !self.store_schema.contains_room(room_name) {
            let mut message = String::from_str("Room [");
            message.append(room_name);
            message.append("] not contains in home");
            Err(message)
        } else {
            self.store_schema.remove_room(room_name)
        }
    }

    /// The names of the rooms: what the root holds, in order.
    pub fn rooms(&self) -> (r: Vec<String>)
        ensures
            texts(r@) == entities_of(self@, HOME_NAME@),
    {
        self.names_under(HOME_NAME)
    }

    /// What the entry of `name` holds, in order.
    pub fn names_under(&self, name: &str) -> (r: Vec<String>)
        ensures
            texts(r@) == entities_of(self@, name@),
    {
        let mut names: Vec<String> = Vec::new();
        match self.store_schema.list(name) {
            Some(list) => {
                let mut i: usize = 0;
                while i < list.len()
                    invariant
                        i <= list@.len(),
                        names@.len() == i,
                        forall|j: int| 0 <= j < i ==> names@[j]@ == list@[j]@,
                    decreases list@.len() - i,
                {
                    names.push(list[i].clone());
                    i += 1;
                }
                assert(texts(names@) =~= texts(list@));
            },
            None => {
                proof {
                    crate::stores::lemma_first_index(
                        crate::stores::link_names(self@),
                        name@,
                    );
                }
                assert(texts(names@) =~= Seq::<Seq<char>>::empty());
            },
        }
        names
    }

    /// Adds a device to a room. The room must have an entry, and must not
    /// hold a device of that name that has an entry; else the schema stays as
    /// it is and the error says which of the two failed.
    pub fn add_device(&mut self, room_name: &str, device_name: &str) -> (r: Result<(), String>)
        ensures
            !has_link(old(self)@, room_name@) ==> r is Err && r->Err_0@ == home_without_room(
                room_name@,
            ) && final(self)@ == old(self)@,
            has_link(old(self)@, room_name@) && device_in_room(
                old(self)@,
                room_name@,
                device_name@,
            ) ==> r is Err && r->Err_0@ == room_with_device(room_name@, device_name@)
                && final(self)@ == old(self)@,
            has_link(old(self)@, room_name@) && !device_in_room(
                old(self)@,
                room_name@,
                device_name@,
            ) ==> r is Ok && final(self)@ == with_link(
                with_link(
                    old(self)@,
                    room_name@,
                    entities_of(old(self)@, room_name@).push(device_name@),
                ),
                device_name@,
                Seq::empty(),
            ),
            old(self).wf() ==> final(self).wf(),
    {
        if !self.store_schema.contains_room(room_name) {
            let mut message = String::from_str("Home not contains room[");
            message.append(room_name);
            message.append("]");
            return Err(message);
        }
        if self.store_schema.contains_device_in_room(room_name, device_name) {
            let mut message = String::from_str("Room[");
            message.append(room_name);
            message.append("] already contains device[");
            message.append(device_name);
            message.append("]");
            return Err(message);
        }
        self.store_schema.add_device(room_name, device_name);
        Ok(())
    }

    /// Removes a device: its entry goes, and the first entry that holds it
    /// lets go of it. A name without an entry is an error.
    pub fn remove_device(&mut self, device_name: &str) -> (r: Result<(), String>)
        ensures
            has_link(old(self)@, device_name@) ==> r is Ok && final(self)@ == unlisted(
                without_link(old(self)@, device_name@),
                device_name@,
            ),
            !has_link(old(self)@, device_name@) ==> r is Err && r->Err_0@
                == crate::stores::link_not_found(device_name@) && final(self)@ == old(self)@,
            old(self).wf() ==> final(self).wf(),
    {
        self.store_schema.remove_device(device_name)
    }

    /// Connects `device_connected` to `device_connects_to`, both of which the
    /// room must hold; else the schema stays as it is and the error names the
    /// device that the room lacks, the connected one first.
    ///
    /// The two must not be connected already.
    pub fn connect_device(
        &mut self,
        room_name: &str,
        device_connects_to: &str,
        device_connected: &str,
    ) -> (r: Result<(), String>)
        requires
            device_in_room(old(self)@, room_name@, device_connected@) && device_in_room(
                old(self)@,
                room_name@,
                device_connects_to@,
            ) ==> !entities_of(old(self)@, device_connects_to@).contains(device_connected@),
        ensures
            !device_in_room(old(self)@, room_name@, device_connected@) ==> r is Err
                && r->Err_0@ == room_without_device(room_name@, device_connected@)
                && final(self)@ == old(self)@,
            device_in_room(old(self)@, room_name@, device_connected@) && !device_in_room(
                old(self)@,
                room_name@,
                device_connects_to@,
            ) ==> r is Err && r->Err_0@ == room_without_device(room_name@, device_connects_to@)
                && final(self)@ == old(self)@,
            device_in_room(old(self)@, room_name@, device_connected@) && device_in_room(
                old(self)@,
                room_name@,
                device_connects_to@,
            ) ==> r is Ok && final(self)@ == with_link(
                old(self)@,
                device_connects_to@,
                entities_of(old(self)@, device_connects_to@).push(device_connected@),
            ),
            old(self).wf() ==> final(self).wf(),
    {
        if !self.store_schema.contains_device_in_room(room_name, device_connected) {
            let mut message = String::from_str("Room[");
            message.append(room_name);
            message.append("] not contains device[");
            message.append(device_connected);
            message.append("]");
            return Err(message);
        }
        if !self.store_schema.contains_device_in_room(room_name, device_connects_to) {
            let mut message = String::from_str("Room[");
            message.append(room_name);
            message.append("] not contains device[");
            message.append(device_connects_to);
            message.append("]");
            return Err(message);
        }
        self.store_schema.connect_device(device_connects_to, device_connected);
        Ok(())
    }

    /// Walks over the devices of a room, in order.
    pub fn room_devices(&self, room_name: &str) -> (r: Iter<'_, String>)
        ensures
            texts(r.remaining().unref()) == entities_of(self@, room_name@),
            r.decrease() is Some,
            r.initial_value_relation(&r),
    {
        self.store_schema.entities(room_name)
    }

    /// The schema of the home: each room with what hangs below it. Links
    /// are followed as many levels down as there are entries, so that a
    /// cycle among them ends the text instead of the walk never ending.
    pub fn collect_schema(&self) -> (r: String)
        ensures
            r@ == schema_text(self@),
    {
        let depth = self.store_schema.depth();
        let mut result = String::from_str("Schema of home:\n");
        let ghost head = result@;
        match self.store_schema.list(HOME_NAME) {
            Some(rooms) => {
                let mut i: usize = 0;
                while i < rooms.len()
                    invariant
                        i <= rooms@.len(),
                        depth < usize::MAX,
                        result@ == head + rooms_text(
                            self@,
                            texts(rooms@).take(i as int),
                            depth as nat,
                        ),
                    decreases rooms@.len() - i,
                {
                    let room = rooms[i].as_str();
                    let room_devices = self.collect_devices_inner(room, 1, depth);
                    result.append("[ROOM] ");
                    result.append(room);
                    result.append("\n");
                    result.append(room_devices.as_str());
                    proof {
                        let next = texts(rooms@).take(i + 1);
                        assert(next.drop_last() =~= texts(rooms@).take(i as int));
                        assert(next.last() == rooms@[i as int]@);
                    }
                    i += 1;
                }
                assert(texts(rooms@).take(i as int) =~= texts(rooms@));
            },
            None => {
                proof {
                    crate::stores::lemma_first_index(
                        crate::stores::link_names(self@),
                        HOME_NAME@,
                    );
                }
            },
        }
        result.append("In development");
        result
    }

    /// The lines of what hangs below `from_name`, the first level `tabs`
    /// tabs in, `depth` further levels down at most.
    fn collect_devices_inner(&self, from_name: &str, tabs: usize, depth: usize) -> (r: String)
        requires
            tabs + depth <= usize::MAX,
        ensures
            r@ == subtree_text(self@, entities_of(self@, from_name@), tabs as nat, depth as nat),
        decreases depth,
    {
        let mut result = String::new();
        let tabs_str = tab_string(tabs);
        match self.store_schema.list(from_name) {
            Some(list) => {
                let mut i: usize = 0;
                while i < list.len()
                    invariant
                        i <= list@.len(),
                        tabs + depth <= usize::MAX,
                        tabs_str@ == tabs_of(tabs as nat),
                        result@ == subtree_text(
                            self@,
                            texts(list@).take(i as int),
                            tabs as nat,
                            depth as nat,
                        ),
                    decreases list@.len() - i,
                {
                    let device = list[i].as_str();
                    let devices_inner = if depth > 0 {
                        self.collect_devices_inner(device, tabs + 1, depth - 1)
                    } else {
                        String::new()
                    };
                    result.append(tabs_str.as_str());
                    result.append("- ");
                    result.append(device);
                    result.append("\n");
                    result.append(devices_inner.as_str());
                    proof {
                        let next = texts(list@).take(i + 1);
                        assert(next.drop_last() =~= texts(list@).take(i as int));
                        assert(next.last() == list@[i as int]@);
                    }
                    i += 1;
                }
                assert(texts(list@).take(i as int) =~= texts(list@));
            },
            None => {
                proof {
                    crate::stores::lemma_first_index(
                        crate::stores::link_names(self@),
                        from_name@,
                    );
                }
            },
        }
        result
    }
}

/// A string of `n` tab characters.
fn tab_string(n: usize) -> (r: String)
    ensures
        r@ == tabs_of(n as nat),
{
    let mut r = String::new();
    let mut i: usize = 0;
    proof {
        reveal_strlit("\t");
    }
    while i < n
        invariant
            i <= n,
            r@ == tabs_of(i as nat),
            "\t"@ == seq!['\t'],
        decreases n - i,
    {
        r.append("\t");
        i += 1;
        assert(r@ =~= tabs_of(i as nat));
    }
    r
}

} // verus!
