//! What a line typed by the operator asks for.
//!
//! A line is a command word, and for most commands an argument after it:
//! the rest of the line without the white space around it.
//!
//! - `ls peers` lists the known peers.
//! - `ls books` lists the local catalog.
//! - `ls books all` asks every peer for its public entries.
//! - `ls books <peer>` asks the peer with that identifier.
//! - `add book <title>|<author>|<publisher>` adds a private entry.
//! - `share book <title>` makes the entries with that title public.
//!
//! Any other line is an error.

use crate::protocol::{ListMode, ListModeView, ListRequest, ListRequestView};
use crate::text::{
    same_text, split, split_fields, starts_with, strip_prefix, trim, trimmed,
};
use vstd::prelude::*;
use vstd::string::*;

verus! {

/// The line that lists the known peers.
pub const LIST_PEERS: &'static str = "ls peers";

/// The word that begins a line about catalog listings.
pub const LIST_BOOKS: &'static str = "ls books";

/// The argument of `ls books` that asks every peer.
pub const EVERY_PEER: &'static str = "all";

/// The word that begins a line that adds an entry.
pub const ADD_BOOK: &'static str = "add book";

/// The word that begins a line that shares entries.
pub const SHARE_BOOK: &'static str = "share book";

/// What separates title, author and publisher in the argument of `add book`.
pub const FIELD_SEPARATOR: char = '|';

/// What the operator asked for.
#[derive(Debug, PartialEq, Eq)]
pub enum Command {
    /// Nothing: the line is not one that the handler acts on.
    Nothing,
    /// Show the peers that are known at the moment.
    ListPeers,
    /// Show the local catalog, private entries included.
    ListLocalBooks,
    /// Publish this request on the shared channel.
    Request(ListRequest),
    /// Append a private entry with these fields to the local catalog.
    AddBook { title: String, author: String, publisher: String },
    /// Make the local entries with this title public.
    ShareBook { title: String },
}

/// What a [`Command`] stands for in contracts.
pub enum CommandView {
    Nothing,
    ListPeers,
    ListLocalBooks,
    Request(ListRequestView),
    AddBook { title: Seq<char>, author: Seq<char>, publisher: Seq<char> },
    ShareBook { title: Seq<char> },
}

impl View for Command {
    type V = CommandView;

    open spec fn view(&self) -> CommandView {
        match self {
            Command::Nothing => CommandView::Nothing,
            Command::ListPeers => CommandView::ListPeers,
            Command::ListLocalBooks => CommandView::ListLocalBooks,
            Command::Request(request) => CommandView::Request(request@),
            Command::AddBook { title, author, publisher } => CommandView::AddBook {
                title: title@,
                author: author@,
                publisher: publisher@,
            },
            Command::ShareBook { title } => CommandView::ShareBook { title: title@ },
        }
    }
}

/// Why a line is no command.
#[derive(Clone, Copy, Debug, PartialEq, Eq)]
pub enum CommandError {
    /// `add book` was given fewer than three fields.
    MissingArguments,
    /// The line begins with no command word.
    UnknownCommand,
}

/// The argument of a line that begins with the command word `word`.
pub open spec fn argument(line: Seq<char>, word: Seq<char>) -> Seq<char> {
    trimmed(line.skip(word.len() as int))
}

/// What a line about catalog listings asks for: the local catalog where
/// it has no argument, the catalogs of all peers where the argument is
/// `all`, and else the catalog of the peer that the argument names. A line
/// that does not begin with `ls books` asks for the local catalog.
pub open spec fn list_books_command(line: Seq<char>) -> CommandView {
    if LIST_BOOKS@.is_prefix_of(line) {
        let wanted = argument(line, LIST_BOOKS@);
        if wanted.len() == 0 {
            CommandView::ListLocalBooks
        } else if wanted == EVERY_PEER@ {
            CommandView::Request(ListRequestView { mode: ListModeView::ALL })
        } else {
            CommandView::Request(ListRequestView { mode: ListModeView::One(wanted) })
        }
    } else {
        CommandView::ListLocalBooks
    }
}

/// What a line that adds an entry asks for: the first three fields of its
/// argument are title, author and publisher, and fewer than three fields
/// are an error. A line that does not begin with `add book` asks for
/// nothing.
pub open spec fn add_book_command(line: Seq<char>) -> Result<CommandView, CommandError> {
    if ADD_BOOK@.is_prefix_of(line) {
        let fields = split(argument(line, ADD_BOOK@), FIELD_SEPARATOR);
        if fields.len() < 3 {
            Err(CommandError::MissingArguments)
        } else {
            Ok(CommandView::AddBook { title: fields[0], author: fields[1], publisher: fields[2] })
        }
    } else {
        Ok(CommandView::Nothing)
    }
}

/// What a line that shares entries asks for: its argument is the title.
/// A line that does not begin with `share book` asks for nothing.
pub open spec fn share_book_command(line: Seq<char>) -> CommandView {
    if SHARE_BOOK@.is_prefix_of(line) {
        CommandView::ShareBook { title: argument(line, SHARE_BOOK@) }
    } else {
        CommandView::Nothing
    }
}

/// What a line asks for, or why it is no command.
pub open spec fn command(line: Seq<char>) -> Result<CommandView, CommandError> {
    if line == LIST_PEERS@ {
        Ok(CommandView::ListPeers)
    } else if LIST_BOOKS@.is_prefix_of(line) {
        Ok(list_books_command(line))
    } else if ADD_BOOK@.is_prefix_of(line) {
        add_book_command(line)
    } else if SHARE_BOOK@.is_prefix_of(line) {
        Ok(share_book_command(line))
    } else {
        Err(CommandError::UnknownCommand)
    }
}

/// Whether `result` is what `expected` says, error for error and command
/// for command.
pub open spec fn agrees(
    result: Result<Command, CommandError>,
    expected: Result<CommandView, CommandError>,
) -> bool {
    match result {
        Ok(command) => expected == Ok::<CommandView, CommandError>(command@),
        Err(error) => expected == Err::<CommandView, CommandError>(error),
    }
}

/// Reads a line about catalog listings.
pub fn handle_list_books(cmd: &str) -> (command: Command)
    ensures
        command@ == list_books_command(cmd@),
{
    match strip_prefix(cmd, LIST_BOOKS) {
        None => Command::ListLocalBooks,
        Some(rest) => {
            let wanted = trim(rest);
            if wanted.is_empty() {
                Command::ListLocalBooks
            } else if same_text(wanted, EVERY_PEER) {
                Command::Request(ListRequest { mode: ListMode::ALL })
            } else {
                Command::Request(ListRequest { mode: ListMode::One(String::from_str(wanted)) })
            }
        },
    }
}

/// Reads a line that adds an entry.
///
/// Fails with `MissingArguments` exactly when the line begins with
/// `add book` and its argument has fewer than three fields.
pub fn handle_add_book(cmd: &str) -> (command: Result<Command, CommandError>)
    ensures
        agrees(command, add_book_command(cmd@)),
        command is Err <==> ADD_BOOK@.is_prefix_of(cmd@) && split(
            argument(cmd@, ADD_BOOK@),
            FIELD_SEPARATOR,
        ).len() < 3,
        command is Err ==> command == Err::<Command, CommandError>(CommandError::MissingArguments),
{
    match strip_prefix(cmd, ADD_BOOK) {
        None => Ok(Command::Nothing),
        Some(rest) => {
            let elem = split_fields(trim(rest), FIELD_SEPARATOR);
            if elem.len() < 3 {
                Err(CommandError::MissingArguments)
            } else {
                let title = elem[0].clone();
                let author = elem[1].clone();
                let publisher = elem[2].clone();
                Ok(Command::AddBook { title, author, publisher })
            }
        },
    }
}

/// Reads a line that shares entries.
pub fn handle_share_book(cmd: &str) -> (command: Command)
    ensures
        command@ == share_book_command(cmd@),
{
    match strip_prefix(cmd, SHARE_BOOK) {
        None => Command::Nothing,
        Some(rest) => Command::ShareBook { title: String::from_str(trim(rest)) },
    }
}

/// Reads a line typed by the operator.
///
/// Fails with `UnknownCommand` exactly when the line is not `ls peers` and
/// begins with none of `ls books`, `add book` and `share book`, and with
/// `MissingArguments` exactly when `add book` has fewer than three fields.
pub fn handle_input(line: &str) -> (command: Result<Command, CommandError>)
    ensures
        agrees(command, self::command(line@)),
        command == Err::<Command, CommandError>(CommandError::UnknownCommand) <==> line@
            != LIST_PEERS@ && !LIST_BOOKS@.is_prefix_of(line@) && !ADD_BOOK@.is_prefix_of(line@)
            && !SHARE_BOOK@.is_prefix_of(line@),
        command == Err::<Command, CommandError>(CommandError::MissingArguments) <==> line@
            != LIST_PEERS@ && !LIST_BOOKS@.is_prefix_of(line@) && add_book_command(line@) is Err,
        command is Ok ==> !(command->Ok_0 is Nothing),
{
    if same_text(line, LIST_PEERS) {
        Ok(Command::ListPeers)
    } else if starts_with(line, LIST_BOOKS) {
        Ok(handle_list_books(line))
    } else if starts_with(line, ADD_BOOK) {
        handle_add_book(line)
    } else if starts_with(line, SHARE_BOOK) {
        Ok(handle_share_book(line))
    } else {
        Err(CommandError::UnknownCommand)
    }
}

} // verus!
