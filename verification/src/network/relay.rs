//! The relay of a node: commands come in from the readers of its
//! connections, wait in a queue for the analyzer, and the answers wait in a
//! second queue for the sender. Both queues are first in, first out.
use crate::network::tcp_command::{
    envelope, parse_request, parsed_request, CommandView, TcpCommand,
};
use crate::network::tcp_entity::{registered, TcpNodeConnection};
use crate::network::{
    encode, frame, frame_len, frame_text, framed, recv_string, NetworkError,
};
use std::collections::VecDeque;
use vstd::prelude::*;
use vstd::string::*;

verus! {

/// The commands of a sequence as plain text.
pub open spec fn command_views(commands: Seq<TcpCommand>) -> Seq<CommandView> {
    commands.map_values(|command: TcpCommand| command@)
}

/// A queue of commands. What was pushed first is popped first.
pub struct CommandQueue {
    items: VecDeque<TcpCommand>,
}

impl View for CommandQueue {
    type V = Seq<CommandView>;

    /// The waiting commands, the oldest first.
    closed spec fn view(&self) -> Seq<CommandView> {
        command_views(self.items@)
    }
}

impl CommandQueue {
    /// An empty queue.
    pub fn new() -> (r: CommandQueue)
        ensures
            r@ == Seq::<CommandView>::empty(),
    {
        let r = CommandQueue { items: VecDeque::new() };
        assert(r@ =~= Seq::<CommandView>::empty());
        r
    }

    /// Puts a command at the end of the queue.
    pub fn push(&mut self, command: TcpCommand)
        ensures
            final(self)@ == old(self)@.push(command@),
    {
        self.items.push_back(command);
        assert(self@ =~= old(self)@.push(command@));
    }

    /// Takes the oldest command from the queue.
    pub fn pop(&mut self) -> (r: Option<TcpCommand>)
        ensures
            match r {
                Some(command) => old(self)@.len() > 0 && command@ == old(self)@[0] && final(self)@
                    == old(self)@.drop_first(),
                None => old(self)@.len() == 0 && final(self)@ == old(self)@,
            },
    {
        let r = self.items.pop_front();
        assert(r is Some ==> self@ =~= old(self)@.drop_first());
        r
    }

    /// The number of waiting commands.
    pub fn len(&self) -> (r: usize)
        ensures
            r == self@.len(),
    {
        self.items.len()
    }

    /// Whether no command waits.
    pub fn is_empty(&self) -> (r: bool)
        ensures
            r == (self@.len() == 0),
    {
        self.items.len() == 0
    }
}

/// One frame on its way out: the identity of the peer it goes to, and its bytes.
#[derive(Debug)]
pub struct Outgoing {
    pub destination: String,
    pub frame: Vec<u8>,
}

/// An outgoing frame as plain values.
pub struct OutgoingView {
    pub destination: Seq<char>,
    pub frame: Seq<u8>,
}

impl View for Outgoing {
    type V = OutgoingView;

    open spec fn view(&self) -> OutgoingView {
        OutgoingView { destination: self.destination@, frame: self.frame@ }
    }
}

/// What becomes of a command that is due to go out, given the identities
/// that have a connection: the frame of its envelope, addressed to the
/// identity it names; a registry miss where that identity has none; and
/// `FrameIo` where the envelope is too long for a frame.
pub open spec fn dispatch_of(command: CommandView, known: Set<Seq<char>>) -> Result<
    OutgoingView,
    NetworkError,
> {
    if known.contains(command.sender) {
        match framed(envelope(command.command, command.args)) {
            Ok(frame) => Ok(OutgoingView { destination: command.sender, frame }),
            Err(e) => Err(e),
        }
    } else {
        Err(NetworkError::RegistryMiss)
    }
}

/// The outcome of a dispatch as plain values.
pub open spec fn dispatch_view(r: Result<Outgoing, NetworkError>) -> Result<
    OutgoingView,
    NetworkError,
> {
    match r {
        Ok(outgoing) => Ok(outgoing@),
        Err(e) => Err(e),
    }
}

/// The outcomes of a sequence of dispatches as plain values.
pub open spec fn dispatch_views(outcomes: Seq<Result<Outgoing, NetworkError>>) -> Seq<
    Result<OutgoingView, NetworkError>,
> {
    outcomes.map_values(|r: Result<Outgoing, NetworkError>| dispatch_view(r))
}

/// What becomes of each of `commands`, in their order.
pub open spec fn dispatches_of(commands: Seq<CommandView>, known: Set<Seq<char>>) -> Seq<
    Result<OutgoingView, NetworkError>,
> {
    commands.map_values(|command: CommandView| dispatch_of(command, known))
}

/// Turns a command that is due to go out into a frame for the peer it
/// names. A peer without a connection in the registry is a registry miss;
/// an envelope that is too long for a frame is `FrameIo`.
pub fn dispatch<C>(command: &TcpCommand, registry: &TcpNodeConnection<C>) -> (r: Result<
    Outgoing,
    NetworkError,
>)
    ensures
        dispatch_view(r) == dispatch_of(command@, registry@.dom()),
{
    if registry.contains(command.sender.as_str()) {
        let text = command.to_string();
        match encode(text.as_str()) {
            Ok(frame) => Ok(Outgoing { destination: command.sender.clone(), frame }),
            Err(e) => Err(e),
        }
    } else {
        Err(NetworkError::RegistryMiss)
    }
}

/// The registry after a frame for `destination` was handed to its
/// connection: a connection that took the frame stays, one whose write
/// failed is forgotten.
pub open spec fn registry_after_write<C>(
    registry: Map<Seq<char>, C>,
    destination: Seq<char>,
    written: bool,
) -> Map<Seq<char>, C> {
    if written {
        registry
    } else {
        registry.remove(destination)
    }
}

/// Takes note of how the write of a frame for `destination` went: where
/// it failed, the registry forgets that destination, so that later frames
/// for it are registry misses.
pub fn record_write<C>(registry: &mut TcpNodeConnection<C>, destination: &str, written: bool)
    ensures
        final(registry)@ == registry_after_write(old(registry)@, destination@, written),
{
    if !written {
        registry.remove(destination);
    }
}

/// Empties the queue of outgoing commands: each command, oldest first,
/// becomes a frame for the peer it names, a registry miss, or `FrameIo`
/// where its envelope is too long. The outcomes stand in the order in which
/// the commands were queued.
pub fn drain_outgoing<C>(outbound: &mut CommandQueue, registry: &TcpNodeConnection<C>) -> (r: Vec<
    Result<Outgoing, NetworkError>,
>)
    ensures
        dispatch_views(r@) == dispatches_of(old(outbound)@, registry@.dom()),
        final(outbound)@ == Seq::<CommandView>::empty(),
{
    let mut outcomes: Vec<Result<Outgoing, NetworkError>> = Vec::new();
    let ghost all = outbound@;
    loop
        invariant
            outcomes@.len() + outbound@.len() == all.len(),
            outbound@ == all.skip(outcomes@.len() as int),
            forall|j: int|
                0 <= j < outcomes@.len() ==> dispatch_view(#[trigger] outcomes@[j]) == dispatch_of(
                    all[j],
                    registry@.dom(),
                ),
        ensures
            outcomes@.len() == all.len(),
            outbound@ == Seq::<CommandView>::empty(),
            forall|j: int|
                0 <= j < outcomes@.len() ==> dispatch_view(#[trigger] outcomes@[j]) == dispatch_of(
                    all[j],
                    registry@.dom(),
                ),
        decreases outbound@.len(),
    {
        match outbound.pop() {
            Some(command) => {
                let outcome = dispatch(&command, registry);
                outcomes.push(outcome);
                assert(outbound@ =~= all.skip(outcomes@.len() as int));
            },
            None => {
                assert(outbound@ =~= Seq::<CommandView>::empty());
                break;
            },
        }
    }
    assert(dispatch_views(outcomes@) =~= dispatches_of(all, registry@.dom()));
    outcomes
}

/// The registry after the reader of a connection has parsed a command:
/// a connection that was not registered yet is registered now, unless its
/// identity is taken.
pub open spec fn registry_after<C>(
    registry: Map<Seq<char>, C>,
    identity: Seq<char>,
    pending: Option<C>,
) -> Map<Seq<char>, C> {
    match pending {
        Some(connection) => registered(registry, identity, connection),
        None => registry,
    }
}

/// Whether the reader of a connection makes the registry's entry for its
/// identity when it parses a command: it does where the connection was not
/// registered yet and the identity is free.
pub open spec fn newly_registered<C>(
    registry: Map<Seq<char>, C>,
    identity: Seq<char>,
    pending: Option<C>,
) -> bool {
    pending is Some && !registry.contains_key(identity)
}

/// The commands that the frames of a byte stream from `sender` give, in
/// order, up to the first frame that cannot be read. A frame whose text does
/// not follow the envelope grammar gives no command and does not end the
/// reading.
pub open spec fn stream_commands(bytes: Seq<u8>, sender: Seq<char>) -> Seq<CommandView>
    decreases bytes.len(),
{
    match frame_text(bytes) {
        Ok(text) => {
            let rest = stream_commands(bytes.skip(frame_len(bytes) as int), sender);
            match parsed_request(text, sender) {
                Ok(command) => seq![command] + rest,
                Err(_) => rest,
            }
        },
        Err(_) => Seq::empty(),
    }
}

/// The error that ends the reading of a byte stream: that of the first
/// frame that cannot be read.
pub open spec fn stream_end(bytes: Seq<u8>) -> NetworkError
    decreases bytes.len(),
{
    match frame_text(bytes) {
        Ok(_) => stream_end(bytes.skip(frame_len(bytes) as int)),
        Err(e) => e,
    }
}

/// Reading a stream that begins with the frame of `text` is reading that
/// frame and then the rest: a text that follows the envelope grammar gives
/// its command first, a text that does not gives nothing, and in both cases
/// the reading goes on with what follows the frame and ends as that ends.
pub proof fn lemma_stream_step(text: Seq<char>, rest: Seq<u8>, sender: Seq<char>)
    requires
        vstd::utf8::encode_utf8(text).len() <= crate::network::MAX_PAYLOAD_LEN,
    ensures
        stream_commands(frame(text) + rest, sender) == match parsed_request(text, sender) {
            Ok(command) => seq![command] + stream_commands(rest, sender),
            Err(_) => stream_commands(rest, sender),
        },
        stream_end(frame(text) + rest) == stream_end(rest),
{
    crate::network::lemma_decode_encode(text, rest);
}

/// What is queued first goes out first: a command that joins the end of
/// the queue has its outcome at the end of the outcomes, and the outcomes
/// of the commands before it stay as they are.
pub proof fn lemma_outgoing_order(
    queued: Seq<CommandView>,
    command: CommandView,
    known: Set<Seq<char>>,
)
    ensures
        dispatches_of(queued.push(command), known) == dispatches_of(queued, known).push(
            dispatch_of(command, known),
        ),
{
    assert(dispatches_of(queued.push(command), known) =~= dispatches_of(queued, known).push(
        dispatch_of(command, known),
    ));
}

/// The reader of one connection. It knows the identity of the peer, and
/// holds the connection until the first command from the peer registers it.
/// When the connection fails for good, the reader takes its entry out of
/// the registry again.
pub struct Reader<C> {
    identity: String,
    connection: Option<C>,
    registered: bool,
}

impl<C> Reader<C> {
    /// The identity of the peer.
    pub closed spec fn identity(&self) -> Seq<char> {
        self.identity@
    }

    /// The connection, as long as it is not registered.
    pub closed spec fn pending(&self) -> Option<C> {
        self.connection
    }

    /// Whether the registry's entry for the identity is this reader's.
    pub closed spec fn owns_entry(&self) -> bool {
        self.registered
    }

    /// The reader of a connection that was just accepted.
    pub fn new(identity: &str, connection: C) -> (r: Reader<C>)
        ensures
            r.identity() == identity@,
            r.pending() == Some(connection),
            !r.owns_entry(),
    {
        Reader {
            identity: String::from_str(identity),
            connection: Some(connection),
            registered: false,
        }
    }

    /// Takes in what a request parsed to. A command goes to the end of the
    /// inbound queue, and the connection is registered if it was not yet; a
    /// request that did not parse is dropped and changes nothing.
    pub fn on_parsed(
        &mut self,
        parsed: Result<TcpCommand, NetworkError>,
        registry: &mut TcpNodeConnection<C>,
        inbound: &mut CommandQueue,
    ) -> (r: Result<(), NetworkError>)
        ensures
            final(self).identity() == old(self).identity(),
            match parsed {
                Ok(command) => {
                    &&& r is Ok
                    &&& final(inbound)@ == old(inbound)@.push(command@)
                    &&& final(self).pending() is None
                    &&& final(registry)@ == registry_after(
                        old(registry)@,
                        old(self).identity(),
                        old(self).pending(),
                    )
                    &&& final(self).owns_entry() == (old(self).owns_entry() || newly_registered(
                        old(registry)@,
                        old(self).identity(),
                        old(self).pending(),
                    ))
                },
                Err(e) => {
                    &&& r == Err::<(), NetworkError>(e)
                    &&& final(inbound)@ == old(inbound)@
                    &&& final(self).pending() == old(self).pending()
                    &&& final(registry)@ == old(registry)@
                    &&& final(self).owns_entry() == old(self).owns_entry()
                },
            },
    {
        match parsed {
            Ok(command) => {
                match self.connection.take() {
                    Some(connection) => {
                        if registry.add_connection(self.identity.as_str(), connection).is_ok() {
                            self.registered = true;
                        }
                    },
                    None => {},
                }
                inbound.push(command);
                Ok(())
            },
            Err(e) => Err(e),
        }
    }

    /// Takes in the text of one frame from the peer: parses it against the
    /// envelope grammar, attributes the command to the peer, and goes on as
    /// `on_parsed` says.
    pub fn on_request(
        &mut self,
        request: &str,
        registry: &mut TcpNodeConnection<C>,
        inbound: &mut CommandQueue,
    ) -> (r: Result<(), NetworkError>)
        ensures
            final(self).identity() == old(self).identity(),
            match parsed_request(request@, old(self).identity()) {
                Ok(command) => {
                    &&& r is Ok
                    &&& final(inbound)@ == old(inbound)@.push(command)
                    &&& final(self).pending() is None
                    &&& final(registry)@ == registry_after(
                        old(registry)@,
                        old(self).identity(),
                        old(self).pending(),
                    )
                    &&& final(self).owns_entry() == (old(self).owns_entry() || newly_registered(
                        old(registry)@,
                        old(self).identity(),
                        old(self).pending(),
                    ))
                },
                Err(e) => {
                    &&& r == Err::<(), NetworkError>(e)
                    &&& final(inbound)@ == old(inbound)@
                    &&& final(self).pending() == old(self).pending()
                    &&& final(registry)@ == old(registry)@
                    &&& final(self).owns_entry() == old(self).owns_entry()
                },
            },
    {
        let parsed = parse_request(request, self.identity.as_str());
        self.on_parsed(parsed, registry, inbound)
    }

    /// Ends the reading after the connection has failed for good: the
    /// registry forgets the identity, if its entry is this reader's. The
    /// entry of another connection under the same identity stays.
    pub fn close(&mut self, registry: &mut TcpNodeConnection<C>)
        ensures
            final(self).identity() == old(self).identity(),
            final(self).pending() is None,
            !final(self).owns_entry(),
            final(registry)@ == if old(self).owns_entry() {
                old(registry)@.remove(old(self).identity())
            } else {
                old(registry)@
            },
    {
        if self.registered {
            registry.remove(self.identity.as_str());
            self.registered = false;
        }
        self.connection = None;
    }
}

/// Reads a connection to its end. `stream` holds the bytes that the peer
/// at `addr` sent before the connection closed. Each frame that parses
/// gives a command at the end of `tcp_commands`; a frame that does not parse
/// is dropped and the reading goes on. While it is read, the connection is
/// registered under `addr` from its first command on, unless that identity
/// is taken. The reading ends at the first frame that cannot be read, and
/// the result is the reason: `FrameIo` where the stream stops short, at its
/// end or inside a frame, and `Decode` where a payload is not UTF-8. The
/// registry is then as it was before: the end of one connection touches no
/// other.
pub fn handle_function<C>(
    stream: &[u8],
    addr: &str,
    connection: C,
    tcp_commands: &mut CommandQueue,
    tcp_clients: &mut TcpNodeConnection<C>,
) -> (r: NetworkError)
    ensures
        r == stream_end(stream@),
        final(tcp_commands)@ == old(tcp_commands)@ + stream_commands(stream@, addr@),
        final(tcp_clients)@ == old(tcp_clients)@,
{
    let mut reader = Reader::new(addr, connection);
    let mut rest = stream;
    let mut end = NetworkError::FrameIo;
    let ghost mut done: Seq<CommandView> = Seq::empty();
    loop
        invariant
            reader.identity() == addr@,
            stream_end(rest@) == stream_end(stream@),
            done + stream_commands(rest@, addr@) == stream_commands(stream@, addr@),
            tcp_commands@ == old(tcp_commands)@ + done,
            done.len() == 0 ==> reader.pending() == Some(connection) && !reader.owns_entry()
                && tcp_clients@ == old(tcp_clients)@,
            done.len() > 0 ==> reader.pending() is None && reader.owns_entry()
                == !old(tcp_clients)@.contains_key(addr@) && tcp_clients@ == registered(
                old(tcp_clients)@,
                addr@,
                connection,
            ),
        ensures
            reader.identity() == addr@,
            end == stream_end(stream@),
            done == stream_commands(stream@, addr@),
            tcp_commands@ == old(tcp_commands)@ + done,
            done.len() == 0 ==> !reader.owns_entry() && tcp_clients@ == old(tcp_clients)@,
            done.len() > 0 ==> reader.owns_entry() == !old(tcp_clients)@.contains_key(addr@)
                && tcp_clients@ == registered(old(tcp_clients)@, addr@, connection),
        decreases rest@.len(),
    {
        match recv_string(rest) {
            Ok((request, remaining)) => {
                let _ = reader.on_request(request.as_str(), tcp_clients, tcp_commands);
                proof {
                    match parsed_request(request@, addr@) {
                        Ok(command) => {
                            assert(tcp_commands@ =~= old(tcp_commands)@ + done.push(command));
                            assert(done.push(command) + stream_commands(remaining@, addr@) =~= done
                                + stream_commands(rest@, addr@));
                            done = done.push(command);
                        },
                        Err(_) => {},
                    }
                }
                rest = remaining;
            },
            Err(e) => {
                assert(done + stream_commands(rest@, addr@) =~= done);
                end = e;
                break;
            },
        }
    }
    reader.close(tcp_clients);
    assert(tcp_clients@ =~= old(tcp_clients)@);
    end
}

} // verus!
