//! The command line of the server: the configuration file to read, and the
//! operation to carry out.

use vstd::prelude::*;
use crate::ict_codec::same_text;

verus! {

/// An operation of the administrative command surface.
#[derive(Debug, Clone, PartialEq, Eq)]
pub enum Operation {
    /// `register <uuid> <public-key>`
    Register { uuid: String, public_key: String },
    /// `authorize <uuid>`
    Authorize { uuid: String },
    /// `unauthorize <uuid>`
    Unauthorize { uuid: String },
    /// `delete <uuid>`
    Delete { uuid: String },
    /// `operate <uuid> <message> <signature>`
    Operate { uuid: String, message: String, signature: String },
    /// `list-clients`
    ListClients,
    /// `describe-client <uuid>`
    DescribeClient { uuid: String },
    /// `associate-relay <uuid> <relay>`, the relay from 0 to 255
    AssociateRelay { uuid: String, relay: u8 },
    /// `clear-relays <uuid>`
    ClearRelays { uuid: String },
    /// `serve <port>`
    Serve { port: u32 },
}

/// The mathematical value of an [`Operation`].
pub enum Command {
    Register { uuid: Seq<char>, public_key: Seq<char> },
    Authorize { uuid: Seq<char> },
    Unauthorize { uuid: Seq<char> },
    Delete { uuid: Seq<char> },
    Operate { uuid: Seq<char>, message: Seq<char>, signature: Seq<char> },
    ListClients,
    DescribeClient { uuid: Seq<char> },
    AssociateRelay { uuid: Seq<char>, relay: u8 },
    ClearRelays { uuid: Seq<char> },
    Serve { port: u32 },
}

impl View for Operation {
    type V = Command;

    open spec fn view(&self) -> Command {
        match *self {
            Operation::Register { uuid, public_key } => Command::Register {
                uuid: uuid@,
                public_key: public_key@,
            },
            Operation::Authorize { uuid } => Command::Authorize { uuid: uuid@ },
            Operation::Unauthorize { uuid } => Command::Unauthorize { uuid: uuid@ },
            Operation::Delete { uuid } => Command::Delete { uuid: uuid@ },
            Operation::Operate { uuid, message, signature } => Command::Operate {
                uuid: uuid@,
                message: message@,
                signature: signature@,
            },
            Operation::ListClients => Command::ListClients,
            Operation::DescribeClient { uuid } => Command::DescribeClient { uuid: uuid@ },
            Operation::AssociateRelay { uuid, relay } => Command::AssociateRelay {
                uuid: uuid@,
                relay,
            },
            Operation::ClearRelays { uuid } => Command::ClearRelays { uuid: uuid@ },
            Operation::Serve { port } => Command::Serve { port },
        }
    }
}

/// What the command line holds.
#[derive(Debug, Clone, PartialEq, Eq)]
pub struct Args {
    /// Path to the configuration file.
    pub config: String,
    /// The operation to carry out, if the command line names one.
    pub operation: Option<Operation>,
}

/// Why a command line gave no [`Args`]: the text to show, and the status to
/// leave with (0 where the text is the help that was asked for).
#[derive(Debug, Clone, PartialEq, Eq)]
pub struct Usage {
    pub code: i32,
    pub text: String,
}

/// What the command line `argv`, whose first item is the program's name,
/// holds: the path given with `-c` / `--config`, or `default_path` where
/// that option is absent, and the words from the first that is no option
/// on. `None` where `argv` is no valid command line, or asks for help.
pub uninterp spec fn command_line(argv: Seq<Seq<char>>, default_path: Seq<char>) -> Option<
    (Seq<char>, Seq<Seq<char>>),
>;

/// Whether `c` is a decimal digit.
pub open spec fn is_digit(c: char) -> bool {
    '0' <= c <= '9'
}

/// The number that the decimal digits `text` write.
pub open spec fn decimal_value(text: Seq<char>) -> nat
    decreases text.len(),
{
    if text.len() == 0 {
        0
    } else {
        decimal_value(text.drop_last()) * 10 + (text.last() as nat - '0' as nat) as nat
    }
}

/// The number that `text` writes in decimal digits, where it is not above
/// `max`; `None` where `text` is empty, holds anything but digits, or writes
/// a greater number.
pub open spec fn decimal(text: Seq<char>, max: nat) -> Option<nat> {
    if text.len() > 0 && (forall|i: int| 0 <= i < text.len() ==> is_digit(#[trigger] text[i]))
        && decimal_value(text) <= max {
        Some(decimal_value(text))
    } else {
        None
    }
}

/// The operation that the words of a command line name; `None` where the
/// first word is no operation, or the others are not what it takes.
pub open spec fn operation_of(words: Seq<Seq<char>>) -> Option<Command> {
    if words.len() == 0 {
        None
    } else if words[0] == "register"@ && words.len() == 3 {
        Some(Command::Register { uuid: words[1], public_key: words[2] })
    } else if words[0] == "authorize"@ && words.len() == 2 {
        Some(Command::Authorize { uuid: words[1] })
    } else if words[0] == "unauthorize"@ && words.len() == 2 {
        Some(Command::Unauthorize { uuid: words[1] })
    } else if words[0] == "delete"@ && words.len() == 2 {
        Some(Command::Delete { uuid: words[1] })
    } else if words[0] == "operate"@ && words.len() == 4 {
        Some(Command::Operate { uuid: words[1], message: words[2], signature: words[3] })
    } else if words[0] == "list-clients"@ && words.len() == 1 {
        Some(Command::ListClients)
    } else if words[0] == "describe-client"@ && words.len() == 2 {
        Some(Command::DescribeClient { uuid: words[1] })
    } else if words[0] == "associate-relay"@ && words.len() == 3 {
        match decimal(words[2], 255) {
            Some(relay) => Some(Command::AssociateRelay { uuid: words[1], relay: relay as u8 }),
            None => None,
        }
    } else if words[0] == "clear-relays"@ && words.len() == 2 {
        Some(Command::ClearRelays { uuid: words[1] })
    } else if words[0] == "serve"@ && words.len() == 2 {
        match decimal(words[1], 0xffff_ffff) {
            Some(port) => Some(Command::Serve { port: port as u32 }),
            None => None,
        }
    } else {
        None
    }
}

/// What `load_args` makes of a parsed command line: the arguments, with the
/// operation where words follow the options, or nothing where the words
/// name no operation.
pub open spec fn args_of(parsed: Option<(Seq<char>, Seq<Seq<char>>)>) -> Option<
    (Seq<char>, Option<Command>),
> {
    match parsed {
        None => None,
        Some((config, words)) => if words.len() == 0 {
            Some((config, None))
        } else {
            match operation_of(words) {
                Some(command) => Some((config, Some(command))),
                None => None,
            }
        },
    }
}

/// More digits never write a smaller number.
proof fn lemma_decimal_grows(text: Seq<char>, n: int)
    requires
        0 <= n <= text.len(),
        forall|i: int| 0 <= i < text.len() ==> is_digit(#[trigger] text[i]),
    ensures
        decimal_value(text.take(n)) <= decimal_value(text),
    decreases text.len() - n,
{
    if n < text.len() {
        lemma_decimal_grows(text, n + 1);
        assert(text.take(n + 1).drop_last() =~= text.take(n));
        assert(is_digit(text[n]));
    } else {
        assert(text.take(n) =~= text);
    }
}

/// Builds the command `ict_server` as a `clap::Command`, with the option
/// `-c` / `--config` and the words behind the options, and calls
/// `Command::try_get_matches_from` on `argv`. Trusted: the call succeeds
/// exactly on the valid command lines, and gives the option's value, or
/// `default_path`, and the words. Of a failure, the status and the text are
/// handed on as clap gives them (`Error::exit_code`, `Error::to_string`).
#[verifier::external_body]
pub(crate) fn parse_command_line(argv: &Vec<String>, default_path: &'static str) -> (r: Result<
    (String, Vec<String>),
    (i32, String),
>)
    ensures
        match r {
            Ok((config, words)) => command_line(argv.deep_view(), default_path@) == Some(
                (config@, words.deep_view()),
            ),
            Err(_) => command_line(argv.deep_view(), default_path@) is None,
        },
{
    let config = clap::Arg::new("config").short('c').long("config").value_name(
        "PATH-TO-FILE",
    ).help("Path to the configuration file").default_value(default_path);
    let words = clap::Arg::new("operation").num_args(0..).trailing_var_arg(true);
    let command = clap::Command::new("ict_server").about("Runs the ICT server");
    match command.arg(config).arg(words).try_get_matches_from(argv) {
        Ok(found) => Ok(
            (
                found.get_one::<String>("config").cloned().unwrap_or_default(),
                found.get_many::<String>("operation").unwrap_or_default().cloned().collect(),
            ),
        ),
        Err(e) => Err((e.exit_code(), e.to_string())),
    }
}

/// Reads `text` as a number in decimal digits that is not above `max`.
pub fn parse_decimal(text: &str, max: u32) -> (r: Option<u32>)
    ensures
        match r {
            Some(value) => decimal(text@, max as nat) == Some(value as nat),
            None => decimal(text@, max as nat) is None,
        },
{
    let n: usize = text.unicode_len();
    if n == 0 {
        return None;
    }
    let mut value: u64 = 0;
    let mut i: usize = 0;
    proof {
        assert(text@.take(0) =~= Seq::<char>::empty());
    }
    while i < n
        invariant
            i <= n,
            n == text@.len(),
            forall|k: int| 0 <= k < i ==> is_digit(#[trigger] text@[k]),
            value == decimal_value(text@.take(i as int)),
            value <= max,
        decreases n - i,
    {
        let c = text.get_char(i);
        if c < '0' || c > '9' {
            return None;
        }
        let digit: u64 = (c as u32 - '0' as u32) as u64;
        proof {
            assert(text@.take(i + 1).drop_last() =~= text@.take(i as int));
        }
        let next: u64 = value * 10 + digit;
        if next > max as u64 {
            proof {
                if forall|k: int| 0 <= k < text@.len() ==> is_digit(#[trigger] text@[k]) {
                    lemma_decimal_grows(text@, i + 1);
                }
            }
            return None;
        }
        value = next;
        i += 1;
    }
    proof {
        assert(text@.take(n as int) =~= text@);
    }
    Some(value as u32)
}

impl Operation {
    /// The operation that the words of a command line name.
    pub fn from_words(words: &Vec<String>) -> (r: Option<Operation>)
        ensures
            match r {
                Some(operation) => operation_of(words.deep_view()) == Some(operation@),
                None => operation_of(words.deep_view()) is None,
            },
    {
        let n: usize = words.len();
        proof {
            assert(words.deep_view().len() == n);
            assert forall|i: int| 0 <= i < n implies #[trigger] words.deep_view()[i]
                == words@[i]@ by {}
        }
        if n == 0 {
            return None;
        }
        let name = words[0].as_str();
        if same_text(name, "register") && n == 3 {
            Some(Operation::Register { uuid: words[1].clone(), public_key: words[2].clone() })
        } else if same_text(name, "authorize") && n == 2 {
            Some(Operation::Authorize { uuid: words[1].clone() })
        } else if same_text(name, "unauthorize") && n == 2 {
            Some(Operation::Unauthorize { uuid: words[1].clone() })
        } else if same_text(name, "delete") && n == 2 {
            Some(Operation::Delete { uuid: words[1].clone() })
        } else if same_text(name, "operate") && n == 4 {
            Some(
                Operation::Operate {
                    uuid: words[1].clone(),
                    message: words[2].clone(),
                    signature: words[3].clone(),
                },
            )
        } else if same_text(name, "list-clients") && n == 1 {
            Some(Operation::ListClients)
        } else if same_text(name, "describe-client") && n == 2 {
            Some(Operation::DescribeClient { uuid: words[1].clone() })
        } else if same_text(name, "associate-relay") && n == 3 {
            match parse_decimal(words[2].as_str(), 255) {
                Some(relay) => Some(
                    Operation::AssociateRelay { uuid: words[1].clone(), relay: relay as u8 },
                ),
                None => None,
            }
        } else if same_text(name, "clear-relays") && n == 2 {
            Some(Operation::ClearRelays { uuid: words[1].clone() })
        } else if same_text(name, "serve") && n == 2 {
            match parse_decimal(words[1].as_str(), 0xffff_ffff) {
                Some(port) => Some(Operation::Serve { port }),
                None => None,
            }
        } else {
            None
        }
    }
}

/// Reads the command line `argv`, whose first item is the program's name.
/// The configuration file is `configs/ict_server.toml` unless the command
/// line names another. Words after the options must name an operation.
pub fn load_args(argv: &Vec<String>) -> (r: Result<Args, Usage>)
    ensures
        match r {
            Ok(args) => args_of(command_line(argv.deep_view(), "configs/ict_server.toml"@))
                == Some(
                (
                    args.config@,
                    match args.operation {
                        Some(operation) => Some(operation@),
                        None => None,
                    },
                ),
            ),
            Err(_) => args_of(command_line(argv.deep_view(), "configs/ict_server.toml"@)) is None,
        },
{
    match parse_command_line(argv, "configs/ict_server.toml") {
        Err((code, text)) => Err(Usage { code, text }),
        Ok((config, words)) => {
            if words.len() == 0 {
                return Ok(Args { config, operation: None });
            }
            match Operation::from_words(&words) {
                Some(operation) => Ok(Args { config, operation: Some(operation) }),
                None => Err(
                    Usage { code: 2, text: "no such operation, or not its arguments".to_owned() },
                ),
            }
        },
    }
}

} // verus!
