//! The home: the coordinator of the network, with its rooms and devices.
use crate::devices::Device;
use crate::network::relay::{
    dispatch_views, dispatches_of, drain_outgoing, CommandQueue, Outgoing,
};
use crate::network::tcp_command::{verb_of, CommandView, TcpCommand, Verb};
use crate::network::tcp_entity::{registered, TcpNodeConnection};
use crate::network::NetworkError;
use crate::services::{
    device_in_room, home_without_room, report_of, room_already_there, room_not_there,
    room_with_device, schema_text, ServiceDevices, ServiceSchemaDevices,
};
use crate::stores::{
    device_names, device_not_found, entities_of, has_link, holds_like, link_not_found,
    room_not_found, texts, unlisted, with_link, without_link, DeviceView, Link, StoreDeviceLinks,
    StoreDevices, HOME_NAME,
};
use vstd::prelude::*;
use vstd::string::*;

verus! {

/// The heading of the report on all devices.
pub open spec fn report_heading() -> Seq<char> {
    "Generated report about all devices:\n"@
}

/// What adding a device that gave `name` and `info` to a room does to the
/// stored devices and to the links. The store refuses a device like one it
/// holds, and nothing changes. Else the device is stored, and then the links
/// decide: a room without an entry is an error, and so is a room that holds
/// a device of that name; else the room holds the device from now on and
/// the device has an entry that holds nothing.
pub open spec fn device_placed<D>(
    stored_before: Seq<DeviceView<D>>,
    links_before: Seq<Link>,
    stored_after: Seq<DeviceView<D>>,
    links_after: Seq<Link>,
    r: Result<(), String>,
    room: Seq<char>,
    name: Seq<char>,
    info: Seq<char>,
    device: D,
) -> bool {
    if holds_like(stored_before, name, info) {
        &&& r is Err
        &&& r->Err_0@ == crate::services::device_already_stored(name)
        &&& stored_after == stored_before
        &&& links_after == links_before
    } else if !has_link(links_before, room) {
        &&& r is Err
        &&& r->Err_0@ == home_without_room(room)
        &&& stored_after == stored_before.push(DeviceView { name, info, device })
        &&& links_after == links_before
    } else if device_in_room(links_before, room, name) {
        &&& r is Err
        &&& r->Err_0@ == room_with_device(room, name)
        &&& stored_after == stored_before.push(DeviceView { name, info, device })
        &&& links_after == links_before
    } else {
        &&& r is Ok
        &&& stored_after == stored_before.push(DeviceView { name, info, device })
        &&& links_after == with_link(
            with_link(links_before, room, entities_of(links_before, room).push(name)),
            name,
            Seq::empty(),
        )
    }
}

/// The home: a tree with the rooms on the first level, the devices of each
/// room below it, and below a device the devices connected to it.
pub struct Home<D: Device> {
    name: String,
    service_devices: ServiceDevices<D>,
    service_schema: ServiceSchemaDevices,
}

impl<D: Device> Home<D> {
    /// The name of the home.
    pub closed spec fn spec_name(&self) -> Seq<char> {
        self.name@
    }

    /// The devices of the home, in the order in which they were added.
    pub closed spec fn stored(&self) -> Seq<DeviceView<D>> {
        self.service_devices@
    }

    /// The links of the home: what the root, each room and each device holds.
    pub closed spec fn links(&self) -> Seq<Link> {
        self.service_schema@
    }

    /// No name has two entries in the links.
    pub closed spec fn wf(&self) -> bool {
        self.service_schema.wf()
    }

    /// What `wf` says of the links.
    pub proof fn lemma_wf(&self)
        requires
            self.wf(),
        ensures
            crate::stores::link_names(self.links()).no_duplicates(),
    {
        self.service_schema.lemma_wf();
    }

    /// A home with this name, without rooms and devices.
    pub fn new(name: &str) -> (r: Self)
        ensures
            r.spec_name() == name@,
            r.stored() == Seq::<DeviceView<D>>::empty(),
            r.links() == seq![Link { name: HOME_NAME@, entities: Seq::empty() }],
            r.wf(),
    {
        let store_devices = StoreDevices::new();
        let store_schema = StoreDeviceLinks::new();
        let service_devices = ServiceDevices::new(store_devices);
        let service_schema = ServiceSchemaDevices::new(store_schema);
        Self { name: String::from_str(name), service_devices, service_schema }
    }

    /// A home with this name over the given services.
    pub fn from(
        name: &str,
        service_devices: ServiceDevices<D>,
        service_schema: ServiceSchemaDevices,
    ) -> (r: Self)
        ensures
            r.spec_name() == name@,
            r.stored() == service_devices@,
            r.links() == service_schema@,
            r.wf() == service_schema.wf(),
    {
        Self { name: String::from_str(name), service_devices, service_schema }
    }

    /// The name of the home.
    pub fn name(&self) -> (r: &str)
        ensures
            r@ == self.spec_name(),
    {
        self.name.as_str()
    }

    /// Whether the name has an entry in the links: as the root, a room or a
    /// device.
    pub fn has_entry(&self, name: &str) -> (r: bool)
        ensures
            r == has_link(self.links(), name@),
    {
        self.service_schema.contains(name)
    }

    /// Whether the room holds the device and the device has an entry.
    pub fn holds(&self, room_name: &str, device_name: &str) -> (r: bool)
        ensures
            r == device_in_room(self.links(), room_name@, device_name@),
    {
        self.service_schema.holds(room_name, device_name)
    }

    /// Whether `device_from` is connected to `device_to`.
    pub fn connected(&self, device_to: &str, device_from: &str) -> (r: bool)
        ensures
            r == entities_of(self.links(), device_to@).contains(device_from@),
    {
        self.service_schema.connected(device_to, device_from)
    }

    /// Adds a room, unless its name has an entry already.
    ///
    /// Where the name is free, the root must be there.
    pub fn add_room(&mut self, room: &str) -> (r: Result<(), String>)
        requires
            has_link(old(self).links(), room@) || has_link(old(self).links(), HOME_NAME@),
        ensures
            final(self).spec_name() == old(self).spec_name(),
            final(self).stored() == old(self).stored(),
            has_link(old(self).links(), room@) ==> r is Err && r->Err_0@ == room_already_there(
                room@,
            ) && final(self).links() == old(self).links(),
            !has_link(old(self).links(), room@) ==> r is Ok && final(self).links() == with_link(
                with_link(
                    old(self).links(),
                    HOME_NAME@,
                    entities_of(old(self).links(), HOME_NAME@).push(room@),
                ),
                room@,
                Seq::empty(),
            ),
            old(self).wf() ==> final(self).wf(),
    {
        self.service_schema.add_room(room)
    }

    /// Removes a room. A name without an entry is an error, and so is a name
    /// that the root does not hold; the home then stays as it is.
    ///
    /// Where the name has an entry, the root must be there.
    pub fn remove_room(&mut self, room_name: &str) -> (r: Result<(), String>)
        requires
            has_link(old(self).links(), room_name@) ==> has_link(old(self).links(), HOME_NAME@),
        ensures
            final(self).spec_name() == old(self).spec_name(),
            final(self).stored() == old(self).stored(),
            !has_link(old(self).links(), room_name@) ==> r is Err && r->Err_0@ == room_not_there(
                room_name@,
            ) && final(self).links() == old(self).links(),
            has_link(old(self).links(), room_name@) ==> match entities_of(
                old(self).links(),
                HOME_NAME@,
            ).index_of_first(room_name@) {
                Some(k) => r is Ok && final(self).links() == without_link(
                    with_link(
                        old(self).links(),
                        HOME_NAME@,
                        entities_of(old(self).links(), HOME_NAME@).remove(k),
                    ),
                    room_name@,
                ),
                None => r is Err && r->Err_0@ == room_not_found(room_name@) && final(self).links()
                    == old(self).links(),
            },
            old(self).wf() ==> final(self).wf(),
    {
        self.service_schema.remove_room(room_name)
    }

    /// The room of that name, where the root holds one.
    pub fn room(&self, name: &str) -> (r: Option<String>)
        ensures
            r is Some <==> entities_of(self.links(), HOME_NAME@).contains(name@),
            r is Some ==> r->0@ == name@,
    {
        let rooms = self.service_schema.rooms();
        let mut i: usize = 0;
        while i < rooms.len()
            invariant
                i <= rooms@.len(),
                texts(rooms@) == entities_of(self.links(), HOME_NAME@),
                forall|j: int| 0 <= j < i ==> texts(rooms@)[j] != name@,
            decreases rooms@.len() - i,
        {
            if crate::text::text_eq(rooms[i].as_str(), name) {
                assert(texts(rooms@)[i as int] == name@);
                assert(texts(rooms@).contains(name@));
                return Some(rooms[i].clone());
            }
            i += 1;
        }
        None
    }

    /// The names of the rooms, in the order in which they were added.
    pub fn rooms(&self) -> (r: Vec<String>)
        ensures
            texts(r@) == entities_of(self.links(), HOME_NAME@),
    {
        self.service_schema.rooms()
    }

    /// Adds a device that gave `name` and `info` to a room. The device goes
    /// to the store first, unless the store holds one like it; then to the
    /// room, unless the room has no entry or holds a device of that name
    /// already. A device that the room refuses stays in the store.
    pub fn add_described(&mut self, room_name: &str, name: String, info: String, device: D) -> (r:
        Result<(), String>)
        ensures
            final(self).spec_name() == old(self).spec_name(),
            old(self).wf() ==> final(self).wf(),
            device_placed(
                old(self).stored(),
                old(self).links(),
                final(self).stored(),
                final(self).links(),
                r,
                room_name@,
                name@,
                info@,
                device,
            ),
    {
        let device_name = name.clone();
        match self.service_devices.add_described(name, info, device) {
            Ok(_) => {},
            Err(message) => {
                return Err(message);
            },
        }
        self.service_schema.add_device(room_name, device_name.as_str())
    }

    /// Adds a device to a room, under the name and with the description
    /// that the device gives. The device is asked for both once.
    pub fn add_device(&mut self, room_name: &str, device: D) -> (r: Result<(), String>)
        ensures
            final(self).spec_name() == old(self).spec_name(),
            old(self).wf() ==> final(self).wf(),
            exists|name: &str, info: String|
                D::name.ensures((&device,), name) && D::info.ensures((&device,), info)
                    && device_placed(
                    old(self).stored(),
                    old(self).links(),
                    final(self).stored(),
                    final(self).links(),
                    r,
                    room_name@,
                    name@,
                    info@,
                    device,
                ),
    {
        let name = String::from_str(device.name());
        let info = device.info();
        self.add_described(room_name, name, info, device)
    }

    /// Removes a device: from the links first, then from the store. A name
    /// without an entry in the links is an error and leaves the home as it
    /// is; a name that only the store lacks is an error after the links have
    /// changed.
    pub fn remove_device(&mut self, device_name: &str) -> (r: Result<(), String>)
        ensures
            final(self).spec_name() == old(self).spec_name(),
            !has_link(old(self).links(), device_name@) ==> r is Err && r->Err_0@ == link_not_found(
                device_name@,
            ) && final(self).links() == old(self).links() && final(self).stored()
                == old(self).stored(),
            has_link(old(self).links(), device_name@) ==> final(self).links() == unlisted(
                without_link(old(self).links(), device_name@),
                device_name@,
            ) && match device_names(old(self).stored()).index_of_first(device_name@) {
                Some(i) => r is Ok && final(self).stored() == old(self).stored().remove(i),
                None => r is Err && r->Err_0@ == device_not_found(device_name@)
                    && final(self).stored() == old(self).stored(),
            },
            old(self).wf() ==> final(self).wf(),
    {
        match self.service_schema.remove_device(device_name) {
            Ok(_) => {},
            Err(message) => {
                return Err(message);
            },
        }
        self.service_devices.remove_device(device_name)
    }

    /// Connects `device_connected` to `device_connects_to`.
    ///
    /// The room must hold both, and the two must not be connected already.
    pub fn connect_device(
        &mut self,
        room_name: &str,
        device_connects_to: &str,
        device_connected: &str,
    ) -> (r: Result<(), String>)
        requires
            device_in_room(old(self).links(), room_name@, device_connected@),
            device_in_room(old(self).links(), room_name@, device_connects_to@),
            !entities_of(old(self).links(), device_connects_to@).contains(device_connected@),
        ensures
            r is Ok,
            final(self).spec_name() == old(self).spec_name(),
            final(self).stored() == old(self).stored(),
            final(self).links() == with_link(
                old(self).links(),
                device_connects_to@,
                entities_of(old(self).links(), device_connects_to@).push(device_connected@),
            ),
            old(self).wf() ==> final(self).wf(),
    {
        self.service_schema.connect_device(room_name, device_connects_to, device_connected)
    }

    /// The first device of that name.
    pub fn device(&self, device_name: &str) -> (r: Option<&D>)
        ensures
            match device_names(self.stored()).index_of_first(device_name@) {
                Some(i) => r is Some && *r->0 == self.stored()[i].device,
                None => r is None,
            },
    {
        self.service_devices.get_device(device_name)
    }

    /// The names of the devices of a room, in the order in which they were
    /// added; none where the room has no entry.
    pub fn devices_in_room(&self, room_name: &str) -> (r: Vec<String>)
        ensures
            texts(r@) == entities_of(self.links(), room_name@),
    {
        self.service_schema.names_under(room_name)
    }

    /// The names of all devices, in the order in which they were added.
    pub fn devices(&self) -> (r: Vec<String>)
        ensures
            texts(r@) == device_names(self.stored()),
    {
        self.service_devices.get_devices()
    }

    /// The report on all devices, under its heading.
    pub fn report(&self) -> (r: String)
        ensures
            r@ == report_heading() + report_of(self.stored()),
    {
        let mut text = String::from_str("Generated report about all devices:\n");
        let report = self.service_devices.collect_data_for_report();
        text.append(report.as_str());
        text
    }

    /// The schema of the home: the rooms and what hangs below them.
    pub fn schema(&self) -> (r: String)
        ensures
            r@ == schema_text(self.links()),
    {
        self.service_schema.collect_schema()
    }
}

/// What the coordinator answers to a command: to `register`, an
/// acknowledgement and then a request for the device's description, both
/// addressed to the sender; to anything else, nothing.
pub open spec fn home_answers(command: CommandView) -> Seq<CommandView> {
    if verb_of(command.command) == Verb::Register {
        seq![
            CommandView { command: "OK"@, args: ""@, sender: command.sender },
            CommandView { command: "info"@, args: ""@, sender: command.sender },
        ]
    } else {
        Seq::empty()
    }
}

/// The answers to a sequence of commands, in the order of the commands.
pub open spec fn home_answers_to(commands: Seq<CommandView>) -> Seq<CommandView>
    decreases commands.len(),
{
    if commands.len() == 0 {
        Seq::empty()
    } else {
        home_answers_to(commands.drop_last()) + home_answers(commands.last())
    }
}

/// Those of `commands` that the coordinator has no handler for, in order.
pub open spec fn unhandled_by_home(commands: Seq<CommandView>) -> Seq<CommandView>
    decreases commands.len(),
{
    if commands.len() == 0 {
        Seq::empty()
    } else if verb_of(commands.last().command) == Verb::Register {
        unhandled_by_home(commands.drop_last())
    } else {
        unhandled_by_home(commands.drop_last()).push(commands.last())
    }
}

/// The message of keeping a connection under a name that is taken.
pub open spec fn client_exists(name: Seq<char>) -> Seq<char> {
    "HOME. tcp client with name ["@ + name + "] already exists"@
}

/// The relay of the coordinator: the registry of its connections, the queue
/// of the commands that came in, and the queue of the answers that are due
/// to go out.
#[verifier::reject_recursive_types(C)]
pub struct HomeRequestHandler<C> {
    pub tcp_clients: TcpNodeConnection<C>,
    pub commands_in: CommandQueue,
    pub commands_out: CommandQueue,
}

impl<C> HomeRequestHandler<C> {
    /// A relay over the given inbound queue and registry, with nothing to send.
    pub fn new(commands: CommandQueue, tcp_clients: TcpNodeConnection<C>) -> (r: Self)
        ensures
            r.tcp_clients@ == tcp_clients@,
            r.commands_in@ == commands@,
            r.commands_out@ == Seq::<CommandView>::empty(),
    {
        Self { tcp_clients, commands_in: commands, commands_out: CommandQueue::new() }
    }

    /// Keeps a connection under `name`, unless the name is taken: then the
    /// registry stays as it is and the error says so.
    pub fn save_tcp_client(&mut self, connection: C, name: &str) -> (r: Result<(), String>)
        ensures
            final(self).tcp_clients@ == registered(old(self).tcp_clients@, name@, connection),
            r is Err <==> old(self).tcp_clients@.contains_key(name@),
            r is Err ==> r->Err_0@ == client_exists(name@),
            final(self).commands_in@ == old(self).commands_in@,
            final(self).commands_out@ == old(self).commands_out@,
    {
        match self.tcp_clients.add_connection(name, connection) {
            Ok(_) => Ok(()),
            Err(_) => {
                let mut message = String::from_str("HOME. tcp client with name [");
                message.append(name);
                message.append("] already exists");
                Err(message)
            },
        }
    }

    /// The connection kept under `name`.
    pub fn get_tcp_client(&self, name: &str) -> (r: Option<&C>)
        ensures
            match r {
                Some(connection) => self.tcp_clients@.contains_key(name@) && *connection
                    == self.tcp_clients@[name@],
                None => !self.tcp_clients@.contains_key(name@),
            },
    {
        self.tcp_clients.get(name)
    }

    /// Answers one command: the answers go to the end of `outbound`. The
    /// result says whether the coordinator has a handler for the verb.
    pub fn analyze(command: &TcpCommand, outbound: &mut CommandQueue) -> (handled: bool)
        ensures
            final(outbound)@ == old(outbound)@ + home_answers(command@),
            handled == (verb_of(command@.command) == Verb::Register),
    {
        match command.verb() {
            Verb::Register => {
                outbound.push(TcpCommand::new("OK", "", command.sender.as_str()));
                outbound.push(TcpCommand::new("info", "", command.sender.as_str()));
                assert(outbound@ =~= old(outbound)@ + home_answers(command@));
                true
            },
            _ => {
                assert(outbound@ =~= old(outbound)@ + home_answers(command@));
                false
            },
        }
    }

    /// Empties the inbound queue, oldest command first, and queues the
    /// answers in that order. The result holds the commands that had no
    /// handler.
    pub fn job_analyze_commands(&mut self) -> (unhandled: Vec<TcpCommand>)
        ensures
            final(self).commands_in@ == Seq::<CommandView>::empty(),
            final(self).commands_out@ == old(self).commands_out@ + home_answers_to(
                old(self).commands_in@,
            ),
            crate::network::relay::command_views(unhandled@) == unhandled_by_home(
                old(self).commands_in@,
            ),
            final(self).tcp_clients@ == old(self).tcp_clients@,
    {
        let mut unhandled: Vec<TcpCommand> = Vec::new();
        let ghost all = self.commands_in@;
        let ghost mut done: int = 0;
        loop
            invariant
                0 <= done <= all.len(),
                self.commands_in@ == all.skip(done),
                self.commands_out@ == old(self).commands_out@ + home_answers_to(all.take(done)),
                crate::network::relay::command_views(unhandled@) == unhandled_by_home(
                    all.take(done),
                ),
                self.tcp_clients@ == old(self).tcp_clients@,
            ensures
                done == all.len(),
                self.commands_in@ == Seq::<CommandView>::empty(),
                self.commands_out@ == old(self).commands_out@ + home_answers_to(all.take(done)),
                crate::network::relay::command_views(unhandled@) == unhandled_by_home(
                    all.take(done),
                ),
                self.tcp_clients@ == old(self).tcp_clients@,
            decreases all.len() - done,
        {
            match self.commands_in.pop() {
                Some(command_in) => {
                    let handled = Self::analyze(&command_in, &mut self.commands_out);
                    proof {
                        let next = all.take(done + 1);
                        assert(next.drop_last() =~= all.take(done));
                        assert(next.last() == command_in@);
                        assert(self.commands_in@ =~= all.skip(done + 1));
                        assert(self.commands_out@ =~= old(self).commands_out@ + home_answers_to(
                            next,
                        ));
                    }
                    if !handled {
                        let ghost before = unhandled@;
                        unhandled.push(command_in);
                        assert(crate::network::relay::command_views(unhandled@)
                            =~= crate::network::relay::command_views(before).push(command_in@));
                    }
                    proof {
                        done = done + 1;
                    }
                },
                None => {
                    assert(self.commands_in@ =~= Seq::<CommandView>::empty());
                    break;
                },
            }
        }
        assert(all.take(done) =~= all);
        unhandled
    }

    /// Empties the outbound queue, oldest command first: each command
    /// becomes a frame for the peer it names, or a registry miss where that
    /// peer has no connection. The outcomes stand in the order in which the
    /// commands were queued.
    pub fn job_send_commands_out(&mut self) -> (r: Vec<Result<Outgoing, NetworkError>>)
        ensures
            dispatch_views(r@) == dispatches_of(old(self).commands_out@, old(self).tcp_clients@.dom()),
            final(self).commands_out@ == Seq::<CommandView>::empty(),
            final(self).commands_in@ == old(self).commands_in@,
            final(self).tcp_clients@ == old(self).tcp_clients@,
    {
        drain_outgoing(&mut self.commands_out, &self.tcp_clients)
    }
}

} // verus!
