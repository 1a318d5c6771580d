//! Reading the command line: from the invocation's tokens to a [`Config`],
//! and from a `Config` to the typed [`Command`] that it asks for.

use vstd::prelude::*;
use vstd::slice::slice_subrange;

use crate::error::TodoError;
use crate::number::{index_of, parse_index};
use crate::text::{join_words, same_text, spaced};

verus! {

/// The command name and its payload, as taken from the command line.
#[derive(Clone, Debug, PartialEq, Eq)]
pub struct Config {
    /// The command name: the token after the program name.
    pub cmd: String,
    /// The payload of `add`, `copy` and `delete`; `None` for every other
    /// command name.
    pub args: Option<String>,
}

/// What a [`Config`] holds, as plain text.
pub struct ConfigView {
    pub cmd: Seq<char>,
    pub args: Option<Seq<char>>,
}

impl View for Config {
    type V = ConfigView;

    open spec fn view(&self) -> ConfigView {
        ConfigView {
            cmd: self.cmd@,
            args: match self.args {
                Some(text) => Some(text@),
                None => None,
            },
        }
    }
}

/// What one invocation asks for.
#[derive(Clone, Debug, PartialEq, Eq)]
pub enum Command {
    /// Start an empty list, replacing the one that exists.
    New,
    /// Show the items with their positions.
    List,
    /// Put this item at the end of the list.
    Add(String),
    /// Put the contents of the file at this path at the end of the list.
    Copy(String),
    /// Remove the item at this position, counted from zero.
    Delete(usize),
}

/// What a [`Command`] holds, as plain text.
pub enum CommandView {
    New,
    List,
    Add(Seq<char>),
    Copy(Seq<char>),
    Delete(usize),
}

impl View for Command {
    type V = CommandView;

    open spec fn view(&self) -> CommandView {
        match self {
            Command::New => CommandView::New,
            Command::List => CommandView::List,
            Command::Add(item) => CommandView::Add(item@),
            Command::Copy(path) => CommandView::Copy(path@),
            Command::Delete(index) => CommandView::Delete(*index),
        }
    }
}

/// Whether the command `name` cannot be carried out without a payload.
pub open spec fn takes_payload(name: Seq<char>) -> bool {
    name == "add"@ || name == "copy"@ || name == "delete"@
}

/// What the tokens of an invocation are read as. Token 0 is the program
/// name and is passed over; token 1 is the command name.
///
/// - Without a command name, and for `add`, `copy` or `delete` without a
///   third token, the invocation is refused as a usage error.
/// - `add` takes every token from the third on, joined by single spaces.
/// - `copy` takes the third token and passes over the rest.
/// - `delete` takes the third token if it stands for an index, and is
///   refused as a parse error if it does not.
/// - Every other name is kept as it is, without a payload: whether it names
///   a command is decided when the command is carried out.
pub open spec fn parsed(tokens: Seq<Seq<char>>) -> Result<ConfigView, TodoError> {
    if tokens.len() < 2 {
        Err(TodoError::Usage)
    } else if takes_payload(tokens[1]) && tokens.len() < 3 {
        Err(TodoError::Usage)
    } else if tokens[1] == "add"@ {
        Ok(ConfigView { cmd: tokens[1], args: Some(spaced(tokens.skip(2))) })
    } else if tokens[1] == "copy"@ {
        Ok(ConfigView { cmd: tokens[1], args: Some(tokens[2]) })
    } else if tokens[1] == "delete"@ {
        if index_of(tokens[2]) is Some {
            Ok(ConfigView { cmd: tokens[1], args: Some(tokens[2]) })
        } else {
            Err(TodoError::Parse)
        }
    } else {
        Ok(ConfigView { cmd: tokens[1], args: None })
    }
}

/// The command that a configuration asks for.
///
/// A `delete` whose payload does not stand for an index is a parse error; a
/// name that is none of the five commands is an unrecognized command.
pub open spec fn command_of(config: ConfigView) -> Result<CommandView, TodoError>
    recommends
        takes_payload(config.cmd) ==> config.args is Some,
{
    if config.cmd == "new"@ {
        Ok(CommandView::New)
    } else if config.cmd == "list"@ {
        Ok(CommandView::List)
    } else if config.cmd == "add"@ {
        Ok(CommandView::Add(config.args->0))
    } else if config.cmd == "copy"@ {
        Ok(CommandView::Copy(config.args->0))
    } else if config.cmd == "delete"@ {
        match index_of(config.args->0) {
            Some(index) => Ok(CommandView::Delete(index)),
            None => Err(TodoError::Parse),
        }
    } else {
        Err(TodoError::UnrecognizedCommand)
    }
}

/// The view of what [`Config::new`] returns.
pub open spec fn config_result_view(result: Result<Config, TodoError>) -> Result<
    ConfigView,
    TodoError,
> {
    match result {
        Ok(config) => Ok(config@),
        Err(error) => Err(error),
    }
}

/// The view of what [`Config::command`] returns.
pub open spec fn command_result_view(result: Result<Command, TodoError>) -> Result<
    CommandView,
    TodoError,
> {
    match result {
        Ok(command) => Ok(command@),
        Err(error) => Err(error),
    }
}

impl Config {
    /// Reads the tokens of an invocation, the program name first.
    ///
    /// The tokens after the program name must be one of:
    /// `new`, `list`, `add` `item`, `copy` `path`, `delete` `index`.
    /// An `add`, `copy` or `delete` that comes without its payload is
    /// refused as a usage error, as is an invocation without a command.
    pub fn new(args: &[String]) -> (config: Result<Config, TodoError>)
        ensures
            config_result_view(config) == parsed(args.deep_view()),
    {
        if args.len() < 2 {
            return Err(TodoError::Usage);
        }
        let cmd = args[1].clone();
        let is_add = same_text(cmd.as_str(), "add");
        let is_copy = same_text(cmd.as_str(), "copy");
        let is_delete = same_text(cmd.as_str(), "delete");
        if (is_add || is_copy || is_delete) && args.len() < 3 {
            return Err(TodoError::Usage);
        }
        let payload = if is_add {
            let rest = slice_subrange(args, 2, args.len());
            proof {
                assert(rest.deep_view() == args.deep_view().skip(2));
            }
            Some(join_words(rest))
        } else if is_copy {
            Some(args[2].clone())
        } else if is_delete {
            if parse_index(args[2].as_str()).is_none() {
                return Err(TodoError::Parse);
            }
            Some(args[2].clone())
        } else {
            None
        };
        Ok(Config { cmd, args: payload })
    }

    /// Whether the payload is there if the command name calls for one.
    pub open spec fn has_payload(&self) -> bool {
        takes_payload(self.cmd@) ==> self.args is Some
    }

    /// Turns the configuration into the command that it asks for.
    pub fn command(self) -> (command: Result<Command, TodoError>)
        requires
            self.has_payload(),
        ensures
            command_result_view(command) == command_of(self@),
    {
        let Config { cmd, args } = self;
        if same_text(cmd.as_str(), "new") {
            Ok(Command::New)
        } else if same_text(cmd.as_str(), "list") {
            Ok(Command::List)
        } else if same_text(cmd.as_str(), "add") {
            Ok(Command::Add(args.unwrap()))
        } else if same_text(cmd.as_str(), "copy") {
            Ok(Command::Copy(args.unwrap()))
        } else if same_text(cmd.as_str(), "delete") {
            match parse_index(args.unwrap().as_str()) {
                Some(index) => Ok(Command::Delete(index)),
                None => Err(TodoError::Parse),
            }
        } else {
            Err(TodoError::UnrecognizedCommand)
        }
    }
}

/// The five command names differ from one another.
pub proof fn lemma_command_names_differ()
    ensures
        "new"@ != "list"@,
        "new"@ != "add"@,
        "new"@ != "copy"@,
        "new"@ != "delete"@,
        "list"@ != "add"@,
        "list"@ != "copy"@,
        "list"@ != "delete"@,
        "add"@ != "copy"@,
        "add"@ != "delete"@,
        "copy"@ != "delete"@,
{
    reveal_strlit("new");
    reveal_strlit("list");
    reveal_strlit("add");
    reveal_strlit("copy");
    reveal_strlit("delete");
    assert("new"@.len() == 3 && "new"@[0] == 'n');
    assert("add"@.len() == 3 && "add"@[0] == 'a');
    assert("list"@.len() == 4 && "list"@[0] == 'l');
    assert("copy"@.len() == 4 && "copy"@[0] == 'c');
    assert("delete"@.len() == 6);
}

/// Reading an invocation never loses what it was given.
///
/// The invocation is refused only for want of a token, or for an index that
/// is none. Where it is read, the configuration keeps the command name as
/// it was written, and the command that it asks for carries the whole
/// payload: every word of the item for `add`, the path for `copy`, the
/// number that was written for `delete`. The only error still to come is
/// that of a name that is no command.
pub proof fn lemma_parsed_keeps_payload(tokens: Seq<Seq<char>>)
    ensures
        parsed(tokens) == Err::<ConfigView, TodoError>(TodoError::Usage) <==> tokens.len() < 2 || (
        tokens.len() == 2 && takes_payload(tokens[1])),
        parsed(tokens) == Err::<ConfigView, TodoError>(TodoError::Parse) <==> tokens.len() >= 3
            && tokens[1] == "delete"@ && index_of(tokens[2]) is None,
        parsed(tokens) is Err ==> parsed(tokens)->Err_0 == TodoError::Usage || parsed(
            tokens,
        )->Err_0 == TodoError::Parse,
        parsed(tokens) matches Ok(config) ==> ({
            &&& config.cmd == tokens[1]
            &&& takes_payload(config.cmd) ==> config.args is Some
            &&& match command_of(config) {
                Ok(CommandView::New) => tokens[1] == "new"@,
                Ok(CommandView::List) => tokens[1] == "list"@,
                Ok(CommandView::Add(item)) => tokens[1] == "add"@ && item == spaced(
                    tokens.skip(2),
                ),
                Ok(CommandView::Copy(path)) => tokens[1] == "copy"@ && path == tokens[2],
                Ok(CommandView::Delete(index)) => tokens[1] == "delete"@ && index_of(tokens[2])
                    == Some(index),
                Err(error) => error == TodoError::UnrecognizedCommand && !takes_payload(
                    tokens[1],
                ) && tokens[1] != "new"@ && tokens[1] != "list"@,
            }
        }),
{
    lemma_command_names_differ();
}

} // verus!
