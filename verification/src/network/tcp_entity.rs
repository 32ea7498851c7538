//! The nodes of the network and the registry of their live connections.
use vstd::hash_map::StringHashMap;
use vstd::prelude::*;
use vstd::string::*;

verus! {

/// What a node does on the network.
#[derive(Debug, Clone, Copy, PartialEq, Eq, Structural)]
pub enum NodeType {
    /// Connects to the coordinator.
    Client,
    /// Listens for connections.
    Server,
    /// Does both.
    All,
}

impl NodeType {
    /// Whether a node of this type listens for inbound connections.
    pub fn listens(&self) -> (r: bool)
        ensures
            r == (*self == NodeType::Server || *self == NodeType::All),
    {
        match self {
            NodeType::Client => false,
            NodeType::Server => true,
            NodeType::All => true,
        }
    }

    /// Whether a node of this type opens a connection to the coordinator.
    pub fn connects(&self) -> (r: bool)
        ensures
            r == (*self == NodeType::Client || *self == NodeType::All),
    {
        match self {
            NodeType::Client => true,
            NodeType::Server => false,
            NodeType::All => true,
        }
    }
}

/// The decimal digit of a number below ten.
pub open spec fn digit_of(d: nat) -> char
    recommends
        d < 10,
{
    if d == 0 {
        '0'
    } else if d == 1 {
        '1'
    } else if d == 2 {
        '2'
    } else if d == 3 {
        '3'
    } else if d == 4 {
        '4'
    } else if d == 5 {
        '5'
    } else if d == 6 {
        '6'
    } else if d == 7 {
        '7'
    } else if d == 8 {
        '8'
    } else {
        '9'
    }
}

/// A number in decimal digits, without leading zeros.
pub open spec fn decimal(n: nat) -> Seq<char>
    decreases n,
{
    if n < 10 {
        seq![digit_of(n)]
    } else {
        decimal(n / 10).push(digit_of(n % 10))
    }
}

/// The address on which a node listens at `port`: the local host, a colon,
/// and the port in decimal digits.
pub open spec fn address_of(port: u32) -> Seq<char> {
    "127.0.0.1:"@ + decimal(port as nat)
}

/// The text of one decimal digit.
fn digit_text(d: u32) -> (r: &'static str)
    requires
        d < 10,
    ensures
        r@ == seq![digit_of(d as nat)],
{
    proof {
        reveal_strlit("0");
        reveal_strlit("1");
        reveal_strlit("2");
        reveal_strlit("3");
        reveal_strlit("4");
        reveal_strlit("5");
        reveal_strlit("6");
        reveal_strlit("7");
        reveal_strlit("8");
        reveal_strlit("9");
    }
    let r = if d == 0 {
        "0"
    } else if d == 1 {
        "1"
    } else if d == 2 {
        "2"
    } else if d == 3 {
        "3"
    } else if d == 4 {
        "4"
    } else if d == 5 {
        "5"
    } else if d == 6 {
        "6"
    } else if d == 7 {
        "7"
    } else if d == 8 {
        "8"
    } else {
        "9"
    };
    assert(r@ =~= seq![digit_of(d as nat)]);
    r
}

/// Writes `n` in decimal digits at the end of `text`.
fn append_decimal(text: &mut String, n: u32)
    ensures
        final(text)@ == old(text)@ + decimal(n as nat),
    decreases n,
{
    if n >= 10 {
        append_decimal(text, n / 10);
    }
    text.append(digit_text(n % 10));
    assert(text@ =~= old(text)@ + decimal(n as nat));
}

/// The address on which a node listens at `port`.
pub fn listen_address(port: u32) -> (r: String)
    ensures
        r@ == address_of(port),
{
    let mut r = String::from_str("127.0.0.1:");
    append_decimal(&mut r, port);
    r
}

/// The message of a registration under a name that is taken.
pub open spec fn already_registered(name: Seq<char>) -> Seq<char> {
    "TcpNodeConnection. Client already have ["@ + name + "]"@
}

/// The registry after `connection` asked for the name `name`: the first to
/// ask for a name keeps it.
pub open spec fn registered<C>(registry: Map<Seq<char>, C>, name: Seq<char>, connection: C) -> Map<
    Seq<char>,
    C,
> {
    if registry.contains_key(name) {
        registry
    } else {
        registry.insert(name, connection)
    }
}

/// The registry of a node: the live connections, each under the identity of
/// its peer, which is the peer's address or a logical name. An identity has
/// at most one connection.
#[verifier::reject_recursive_types(C)]
pub struct TcpNodeConnection<C> {
    clients: StringHashMap<C>,
}

impl<C> View for TcpNodeConnection<C> {
    type V = Map<Seq<char>, C>;

    closed spec fn view(&self) -> Map<Seq<char>, C> {
        self.clients@
    }
}

impl<C> TcpNodeConnection<C> {
    /// An empty registry.
    pub fn new() -> (r: TcpNodeConnection<C>)
        ensures
            r@ == Map::<Seq<char>, C>::empty(),
    {
        Self { clients: StringHashMap::new() }
    }

    /// Registers `connection` under `name`, unless the name is taken: then
    /// the registry stays as it is and the error says so.
    pub fn add_connection(&mut self, name: &str, connection: C) -> (r: Result<(), String>)
        ensures
            final(self)@ == registered(old(self)@, name@, connection),
            r is Err <==> old(self)@.contains_key(name@),
            r is Err ==> r->Err_0@ == already_registered(name@),
    {
        if self.clients.contains_key(name) {
            let mut message = String::from_str("TcpNodeConnection. Client already have [");
            message.append(name);
            message.append("]");
            Err(message)
        } else {
            self.clients.insert(String::from_str(name), connection);
            Ok(())
        }
    }

    /// Whether a connection is registered under `name`.
    pub fn contains(&self, name: &str) -> (r: bool)
        ensures
            r == self@.contains_key(name@),
    {
        self.clients.contains_key(name)
    }

    /// The connection registered under `name`.
    pub fn get(&self, name: &str) -> (r: Option<&C>)
        ensures
            match r {
                Some(connection) => self@.contains_key(name@) && *connection == self@[name@],
                None => !self@.contains_key(name@),
            },
    {
        self.clients.get(name)
    }

    /// Forgets the connection registered under `name`, as is due when that
    /// connection has failed for good.
    pub fn remove(&mut self, name: &str)
        ensures
            final(self)@ == old(self)@.remove(name@),
    {
        self.clients.remove(name)
    }

    /// The number of registered connections.
    pub fn len(&self) -> (r: usize)
        ensures
            r == self@.len(),
    {
        self.clients.len()
    }
}

/// Registering an identity twice is registering it once: the second
/// registration changes nothing, whatever connection it brings, and the
/// identity has one entry, the first connection.
pub proof fn lemma_registration_is_idempotent<C>(
    registry: Map<Seq<char>, C>,
    name: Seq<char>,
    first: C,
    second: C,
)
    requires
        registry.dom().finite(),
    ensures
        registered(registered(registry, name, first), name, second) == registered(
            registry,
            name,
            first,
        ),
        registered(registry, name, first).contains_key(name),
        registered(registry, name, first).dom().finite(),
        registered(registry, name, first).len() == if registry.contains_key(name) {
            registry.len()
        } else {
            registry.len() + 1
        },
        !registry.contains_key(name) ==> registered(registry, name, first)[name] == first,
{
}

} // verus!
