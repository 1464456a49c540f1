//! The command line: `serve`, or `ping` followed by a peer address.

use crate::error::Failure;
use crate::identity::{identity_of_text, PeerIdentity};
use crate::transport::Outcome;
use vstd::prelude::*;

verus! {

/// What the program was asked to do.
#[derive(Clone, Copy, Debug, PartialEq, Eq)]
pub enum Command {
    /// Listen, and serve every connection that requests a registered tag.
    Serve,
    /// Ping `peer` once.
    Ping { peer: PeerIdentity },
}

/// A [`Command`] as a mathematical value.
pub enum CommandView {
    Serve,
    Ping { peer: Seq<u8> },
}

impl View for Command {
    type V = CommandView;

    open spec fn view(&self) -> CommandView {
        match self {
            Command::Serve => CommandView::Serve,
            Command::Ping { peer } => CommandView::Ping { peer: peer@ },
        }
    }
}

/// Why the arguments are not a command.
#[derive(Clone, Copy, Debug, PartialEq, Eq, Structural)]
pub enum UsageError {
    /// There are no arguments.
    NoCommand,
    /// The first argument is neither `serve` nor `ping`.
    UnknownCommand,
    /// `ping` is not followed by a peer address.
    MissingPeer,
    /// What follows `ping` is not a peer address.
    InvalidPeer,
    /// There are more arguments than the command takes.
    UnexpectedArgument,
}

/// The command that `args` spell, the program's own name left out.
///
/// `serve` takes no argument; `ping` takes exactly one, the address of
/// the peer.
pub open spec fn command_of(args: Seq<Seq<char>>) -> Result<CommandView, UsageError> {
    if args.len() == 0 {
        Err(UsageError::NoCommand)
    } else if args[0] == "serve"@ {
        if args.len() == 1 {
            Ok(CommandView::Serve)
        } else {
            Err(UsageError::UnexpectedArgument)
        }
    } else if args[0] == "ping"@ {
        if args.len() == 1 {
            Err(UsageError::MissingPeer)
        } else if args.len() > 2 {
            Err(UsageError::UnexpectedArgument)
        } else {
            ping_of(identity_of_text(args[1]))
        }
    } else {
        Err(UsageError::UnknownCommand)
    }
}

/// The ping command for the peer that an address was parsed to, if it
/// was parsed to one.
pub open spec fn ping_of(peer: Option<Seq<u8>>) -> Result<CommandView, UsageError> {
    match peer {
        Some(peer) => Ok(CommandView::Ping { peer }),
        None => Err(UsageError::InvalidPeer),
    }
}

/// The arguments as sequences of characters.
pub open spec fn words(args: Seq<String>) -> Seq<Seq<char>> {
    Seq::new(args.len(), |i: int| args[i]@)
}

/// The view of a parsed command, or the error.
pub open spec fn parsed_view(parsed: Result<Command, UsageError>) -> Result<
    CommandView,
    UsageError,
> {
    match parsed {
        Ok(command) => Ok(command@),
        Err(error) => Err(error),
    }
}

/// The process exit code for an outcome: zero exactly when nothing
/// failed, two when the peer answered with the wrong bytes, one for any
/// other failure.
pub open spec fn exit_code_of(outcome: Outcome) -> u8 {
    match outcome {
        Outcome::Served { .. } => 0,
        Outcome::Verified => 0,
        Outcome::Failed { failure: Failure::VerificationFailure } => 2,
        Outcome::Failed { .. } => 1,
    }
}

fn is_word(arg: &String, word: &str) -> (same: bool)
    ensures
        same == (arg@ == word@),
{
    let word = word.to_owned();
    *arg == word
}

/// The ping command for a parsed peer address.
pub fn ping_command(peer: Option<PeerIdentity>) -> (parsed: Result<Command, UsageError>)
    ensures
        parsed_view(parsed) == ping_of(
            match peer {
                Some(id) => Some(id@),
                None => None,
            },
        ),
{
    match peer {
        Some(peer) => Ok(Command::Ping { peer }),
        None => Err(UsageError::InvalidPeer),
    }
}

/// Reads the command from the program's arguments, its own name left out.
pub fn parse_command(args: &Vec<String>) -> (parsed: Result<Command, UsageError>)
    ensures
        parsed_view(parsed) == command_of(words(args@)),
{
    if args.len() == 0 {
        return Err(UsageError::NoCommand);
    }
    if is_word(&args[0], "serve") {
        if args.len() == 1 {
            Ok(Command::Serve)
        } else {
            Err(UsageError::UnexpectedArgument)
        }
    } else if is_word(&args[0], "ping") {
        if args.len() == 1 {
            Err(UsageError::MissingPeer)
        } else if args.len() > 2 {
            Err(UsageError::UnexpectedArgument)
        } else {
            ping_command(PeerIdentity::parse(args[1].as_str()))
        }
    } else {
        Err(UsageError::UnknownCommand)
    }
}

/// The process exit code for `outcome`.
pub fn exit_code(outcome: Outcome) -> (code: u8)
    ensures
        code == exit_code_of(outcome),
        code == 0 <==> !(outcome is Failed),
{
    match outcome {
        Outcome::Served { .. } => 0,
        Outcome::Verified => 0,
        Outcome::Failed { failure } => match failure {
            Failure::VerificationFailure => 2,
            _ => 1,
        },
    }
}

impl UsageError {
    /// A line that tells the user what was wrong.
    pub open spec fn spec_describe(self) -> Seq<char> {
        match self {
            UsageError::NoCommand => "expected a command: serve, or ping <peer-address>"@,
            UsageError::UnknownCommand => "unknown command: expected serve or ping"@,
            UsageError::MissingPeer => "ping needs the address of the peer"@,
            UsageError::InvalidPeer => "the argument of ping is not a peer address"@,
            UsageError::UnexpectedArgument => "too many arguments"@,
        }
    }

    /// A line that tells the user what was wrong.
    pub fn describe(self) -> (text: &'static str)
        ensures
            text@ == self.spec_describe(),
    {
        match self {
            UsageError::NoCommand => "expected a command: serve, or ping <peer-address>",
            UsageError::UnknownCommand => "unknown command: expected serve or ping",
            UsageError::MissingPeer => "ping needs the address of the peer",
            UsageError::InvalidPeer => "the argument of ping is not a peer address",
            UsageError::UnexpectedArgument => "too many arguments",
        }
    }
}

} // verus!
