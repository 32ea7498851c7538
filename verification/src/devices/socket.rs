//! The network side of a peripheral device: it answers the coordinator's
//! requests for the device's description.
use crate::network::relay::{
    command_views, dispatch_views, dispatches_of, drain_outgoing, CommandQueue, Outgoing,
};
use crate::network::tcp_command::{verb_of, CommandView, TcpCommand, Verb};
use crate::network::tcp_entity::{registered, TcpNodeConnection};
use crate::network::NetworkError;
use vstd::prelude::*;
use vstd::string::*;

verus! {

/// What a peripheral answers to a command, given what its device says of
/// itself: to `info`, a `device_info` that carries that text, addressed to
/// the sender; to anything else, nothing.
pub open spec fn socket_answers(command: CommandView, info: Seq<char>) -> Seq<CommandView> {
    if verb_of(command.command) == Verb::Info {
        seq![CommandView { command: "device_info"@, args: info, sender: command.sender }]
    } else {
        Seq::empty()
    }
}

/// The answers to a sequence of commands, in the order of the commands.
pub open spec fn socket_answers_to(commands: Seq<CommandView>, info: Seq<char>) -> Seq<
    CommandView,
>
    decreases commands.len(),
{
    if commands.len() == 0 {
        Seq::empty()
    } else {
        socket_answers_to(commands.drop_last(), info) + socket_answers(commands.last(), info)
    }
}

/// Those of `commands` that a peripheral has no handler for, in order.
pub open spec fn unhandled_by_socket(commands: Seq<CommandView>) -> Seq<CommandView>
    decreases commands.len(),
{
    if commands.len() == 0 {
        Seq::empty()
    } else if verb_of(commands.last().command) == Verb::Info {
        unhandled_by_socket(commands.drop_last())
    } else {
        unhandled_by_socket(commands.drop_last()).push(commands.last())
    }
}

/// The message of keeping a connection under a name that is taken.
pub open spec fn client_exists(name: Seq<char>) -> Seq<char> {
    "SOCKET. tcp client with name ["@ + name + "] already exists"@
}

/// The relay of a peripheral: the registry of its connections, the queue of
/// the commands that came in, and the queue of the answers that are due to
/// go out.
#[verifier::reject_recursive_types(C)]
pub struct SocketRequestHandler<C> {
    pub tcp_clients: TcpNodeConnection<C>,
    pub commands_in: CommandQueue,
    pub commands_out: CommandQueue,
}

impl<C> SocketRequestHandler<C> {
    /// A relay over the given inbound queue and registry, with nothing to send.
    pub fn new(commands: CommandQueue, tcp_clients: TcpNodeConnection<C>) -> (r: Self)
        ensures
            r.tcp_clients@ == tcp_clients@,
            r.commands_in@ == commands@,
            r.commands_out@ == Seq::<CommandView>::empty(),
    {
        Self { tcp_clients, commands_in: commands, commands_out: CommandQueue::new() }
    }

    /// Keeps a connection under `name`, unless the name is taken: then the
    /// registry stays as it is and the error says so.
    pub fn save_tcp_client(&mut self, connection: C, name: &str) -> (r: Result<(), String>)
        ensures
            final(self).tcp_clients@ == registered(old(self).tcp_clients@, name@, connection),
            r is Err <==> old(self).tcp_clients@.contains_key(name@),
            r is Err ==> r->Err_0@ == client_exists(name@),
            final(self).commands_in@ == old(self).commands_in@,
            final(self).commands_out@ == old(self).commands_out@,
    {
        match self.tcp_clients.add_connection(name, connection) {
            Ok(_) => Ok(()),
            Err(_) => {
                let mut message = String::from_str("SOCKET. tcp client with name [");
                message.append(name);
                message.append("] already exists");
                Err(message)
            },
        }
    }

    /// The connection kept under `name`.
    pub fn get_tcp_client(&self, name: &str) -> (r: Option<&C>)
        ensures
            match r {
                Some(connection) => self.tcp_clients@.contains_key(name@) && *connection
                    == self.tcp_clients@[name@],
                None => !self.tcp_clients@.contains_key(name@),
            },
    {
        self.tcp_clients.get(name)
    }

    /// Answers one command for a device that says `info` of itself: the
    /// answers go to the end of `outbound`. The result says whether a
    /// peripheral has a handler for the verb.
    pub fn analyze(command: &TcpCommand, info: &str, outbound: &mut CommandQueue) -> (handled: bool)
        ensures
            final(outbound)@ == old(outbound)@ + socket_answers(command@, info@),
            handled == (verb_of(command@.command) == Verb::Info),
    {
        match command.verb() {
            Verb::Info => {
                outbound.push(TcpCommand::new("device_info", info, command.sender.as_str()));
                assert(outbound@ =~= old(outbound)@ + socket_answers(command@, info@));
                true
            },
            _ => {
                assert(outbound@ =~= old(outbound)@ + socket_answers(command@, info@));
                false
            },
        }
    }

    /// Empties the inbound queue, oldest command first, and queues the
    /// answers of a device that says `info` of itself, in that order. The
    /// result holds the commands that had no handler.
    pub fn job_analyze_commands(&mut self, info: &str) -> (unhandled: Vec<TcpCommand>)
        ensures
            final(self).commands_in@ == Seq::<CommandView>::empty(),
            final(self).commands_out@ == old(self).commands_out@ + socket_answers_to(
                old(self).commands_in@,
                info@,
            ),
            command_views(unhandled@) == unhandled_by_socket(old(self).commands_in@),
            final(self).tcp_clients@ == old(self).tcp_clients@,
    {
        let mut unhandled: Vec<TcpCommand> = Vec::new();
        let ghost all = self.commands_in@;
        let ghost mut done: int = 0;
        loop
            invariant
                0 <= done <= all.len(),
                self.commands_in@ == all.skip(done),
                self.commands_out@ == old(self).commands_out@ + socket_answers_to(
                    all.take(done),
                    info@,
                ),
                command_views(unhandled@) == unhandled_by_socket(all.take(done)),
                self.tcp_clients@ == old(self).tcp_clients@,
            ensures
                done == all.len(),
                self.commands_in@ == Seq::<CommandView>::empty(),
                self.commands_out@ == old(self).commands_out@ + socket_answers_to(
                    all.take(done),
                    info@,
                ),
                command_views(unhandled@) == unhandled_by_socket(all.take(done)),
                self.tcp_clients@ == old(self).tcp_clients@,
            decreases all.len() - done,
        {
            match self.commands_in.pop() {
                Some(command_in) => {
                    let handled = Self::analyze(&command_in, info, &mut self.commands_out);
                    proof {
                        let next = all.take(done + 1);
                        assert(next.drop_last() =~= all.take(done));
                        assert(next.last() == command_in@);
                        assert(self.commands_in@ =~= all.skip(done + 1));
                        assert(self.commands_out@ =~= old(self).commands_out@ + socket_answers_to(
                            next,
                            info@,
                        ));
                    }
                    if !handled {
                        let ghost before = unhandled@;
                        unhandled.push(command_in);
                        assert(command_views(unhandled@) =~= command_views(before).push(
                            command_in@,
                        ));
                    }
                    proof {
                        done = done + 1;
                    }
                },
                None => {
                    assert(self.commands_in@ =~= Seq::<CommandView>::empty());
                    break;
                },
            }
        }
        assert(all.take(done) =~= all);
        unhandled
    }

    /// Empties the outbound queue, oldest command first: each command
    /// becomes a frame for the peer it names, or a registry miss where that
    /// peer has no connection. The outcomes stand in the order in which the
    /// commands were queued.
    pub fn job_send_commands_out(&mut self) -> (r: Vec<Result<Outgoing, NetworkError>>)
        ensures
            dispatch_views(r@) == dispatches_of(
                old(self).commands_out@,
                old(self).tcp_clients@.dom(),
            ),
            final(self).commands_out@ == Seq::<CommandView>::empty(),
            final(self).commands_in@ == old(self).commands_in@,
            final(self).tcp_clients@ == old(self).tcp_clients@,
    {
        drain_outgoing(&mut self.commands_out, &self.tcp_clients)
    }
}

} // verus!
