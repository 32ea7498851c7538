//! Commands and their envelope, the text `[verb: [args]]` that a frame carries.
use crate::network::NetworkError;
use crate::text::text_eq;
use vstd::prelude::*;
use vstd::string::*;

verus! {

/// The envelope grammar as a regular expression: a verb and its arguments,
/// each one or more word characters, the verb followed by a colon and the
/// arguments in brackets of their own.
pub const ENVELOPE_PATTERN: &'static str = r"\[(\w+):\s*\[(\w+)\]\]";

/// One command: what is asked, with what, and by whom.
///
/// On its way out the `sender` names the peer that the command goes to.
#[derive(Debug)]
pub struct TcpCommand {
    pub command: String,
    pub args: String,
    pub sender: String,
}

/// A command as plain text.
pub struct CommandView {
    pub command: Seq<char>,
    pub args: Seq<char>,
    pub sender: Seq<char>,
}

/// The verbs that the nodes know.
#[derive(Debug, Clone, Copy, PartialEq, Eq, Structural)]
pub enum Verb {
    /// `register`: a peripheral announces itself to the coordinator.
    Register,
    /// `OK`: the coordinator acknowledges a registration.
    Acknowledge,
    /// `info`: a request for a device's description.
    Info,
    /// `device_info`: the answer to `info`.
    DeviceInfo,
    /// Any other verb.
    Unknown,
}

/// The verb that a command word stands for.
pub open spec fn verb_of(command: Seq<char>) -> Verb {
    if command == "register"@ {
        Verb::Register
    } else if command == "OK"@ {
        Verb::Acknowledge
    } else if command == "info"@ {
        Verb::Info
    } else if command == "device_info"@ {
        Verb::DeviceInfo
    } else {
        Verb::Unknown
    }
}

/// The envelope text of a verb and its arguments.
pub open spec fn envelope(command: Seq<char>, args: Seq<char>) -> Seq<char> {
    "["@ + command + ": ["@ + args + "]]"@
}

impl View for TcpCommand {
    type V = CommandView;

    open spec fn view(&self) -> CommandView {
        CommandView { command: self.command@, args: self.args@, sender: self.sender@ }
    }
}

impl TcpCommand {
    pub fn new(command: &str, args: &str, sender: &str) -> (r: TcpCommand)
        ensures
            r@ == (CommandView { command: command@, args: args@, sender: sender@ }),
    {
        Self {
            command: String::from_str(command),
            args: String::from_str(args),
            sender: String::from_str(sender),
        }
    }

    /// The command's envelope. The sender is not part of it.
    pub fn to_string(&self) -> (r: String)
        ensures
            r@ == envelope(self@.command, self@.args),
    {
        let mut r = String::from_str("[");
        r.append(self.command.as_str());
        r.append(": [");
        r.append(self.args.as_str());
        r.append("]]");
        r
    }

    /// The verb of this command.
    pub fn verb(&self) -> (r: Verb)
        ensures
            r == verb_of(self@.command),
    {
        let word = self.command.as_str();
        if text_eq(word, "register") {
            Verb::Register
        } else if text_eq(word, "OK") {
            Verb::Acknowledge
        } else if text_eq(word, "info") {
            Verb::Info
        } else if text_eq(word, "device_info") {
            Verb::DeviceInfo
        } else {
            Verb::Unknown
        }
    }
}

/// The first and second capture group of the leftmost match of the regular
/// expression `pattern` in `text`, as the `regex` crate finds them. There is
/// none where `pattern` is no regular expression, where `text` holds no match,
/// or where one of the two groups took no part in the match.
pub uninterp spec fn first_match_groups(pattern: Seq<char>, text: Seq<char>) -> Option<
    (Seq<char>, Seq<char>),
>;

/// A pair of captured texts as plain text.
pub open spec fn groups_view(groups: Option<(String, String)>) -> Option<(Seq<char>, Seq<char>)> {
    match groups {
        Some((first, second)) => Some((first@, second@)),
        None => None,
    }
}

/// Compiles `pattern` with `regex::Regex::new`, searches `text` with
/// `Regex::captures`, and copies out the groups 1 and 2 of the match. The
/// result depends on `pattern` and `text` alone; what it is, is left to the
/// `regex` crate and goes by the name `first_match_groups`.
#[verifier::external_body]
fn regex_captures(pattern: &str, text: &str) -> (r: Option<(String, String)>)
    ensures
        groups_view(r) == first_match_groups(pattern@, text@),
{
    let compiled = regex::Regex::new(pattern).ok()?;
    let captures = compiled.captures(text)?;
    let first = captures.get(1)?.as_str().to_string();
    let second = captures.get(2)?.as_str().to_string();
    Some((first, second))
}

/// A parse result as plain text.
pub open spec fn parsed_view(r: Result<TcpCommand, NetworkError>) -> Result<
    CommandView,
    NetworkError,
> {
    match r {
        Ok(command) => Ok(command@),
        Err(e) => Err(e),
    }
}

/// The command that a verb and its arguments, found in a request from
/// `sender`, make; a request in which none were found is a parse error.
pub open spec fn command_of_groups(
    groups: Option<(Seq<char>, Seq<char>)>,
    sender: Seq<char>,
) -> Result<CommandView, NetworkError> {
    match groups {
        Some((command, args)) => Ok(CommandView { command, args, sender }),
        None => Err(NetworkError::Parse),
    }
}

/// What a request from `sender` parses to.
pub open spec fn parsed_request(request: Seq<char>, sender: Seq<char>) -> Result<
    CommandView,
    NetworkError,
> {
    command_of_groups(first_match_groups(ENVELOPE_PATTERN@, request), sender)
}

/// Builds the command from what the envelope grammar found in a request.
pub fn command_from_groups(groups: Option<(String, String)>, sender: &str) -> (r: Result<
    TcpCommand,
    NetworkError,
>)
    ensures
        parsed_view(r) == command_of_groups(groups_view(groups), sender@),
{
    match groups {
        Some((command, args)) => Ok(TcpCommand { command, args, sender: String::from_str(sender) }),
        None => Err(NetworkError::Parse),
    }
}

/// Parses a request against the envelope grammar. The command is attributed
/// to `sender`; a request that does not match gives `Parse`.
pub fn parse_request(request: &str, sender: &str) -> (r: Result<TcpCommand, NetworkError>)
    ensures
        parsed_view(r) == parsed_request(request@, sender@),
{
    command_from_groups(regex_captures(ENVELOPE_PATTERN, request), sender)
}

} // verus!
