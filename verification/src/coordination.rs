//! The one place where a peer decides what happens next.
//!
//! The loop of a peer waits for a line from the operator, for an answer
//! that is ready to go out, and for traffic from the network, and takes
//! one event at a time. What it does about an event depends on the event
//! alone: the loop has no state of its own.

use crate::catalog::{
    lemma_added_ids_count_from_zero, lemma_share_is_idempotent, increasing_ids, unique_ids,
    with_new_book, with_new_books, with_shared, BookView, NewBookView,
};
use crate::commands::{command, handle_input, Command, CommandError, CommandView};
use crate::protocol::{ListResponse, ListResponseView};
use vstd::prelude::*;

verus! {

/// What the loop takes up next.
#[derive(Debug, PartialEq, Eq)]
pub enum EventType {
    /// An answer to a request of another peer, built from the local
    /// catalog and ready to go out.
    Response(ListResponse),
    /// A line that the operator typed.
    Input(String),
}

/// What an [`EventType`] stands for in contracts.
pub enum EventTypeView {
    Response(ListResponseView),
    Input(Seq<char>),
}

impl View for EventType {
    type V = EventTypeView;

    open spec fn view(&self) -> EventTypeView {
        match self {
            EventType::Response(response) => EventTypeView::Response(response@),
            EventType::Input(line) => EventTypeView::Input(line@),
        }
    }
}

/// What the loop does about an event.
#[derive(Debug, PartialEq, Eq)]
pub enum LoopAction {
    /// Publish this answer on the shared channel.
    Publish(ListResponse),
    /// Carry out this command of the operator.
    Run(Command),
    /// Tell the operator that the line was no command; change nothing.
    Report(CommandError),
}

/// What a [`LoopAction`] stands for in contracts.
pub enum LoopActionView {
    Publish(ListResponseView),
    Run(CommandView),
    Report(CommandError),
}

impl View for LoopAction {
    type V = LoopActionView;

    open spec fn view(&self) -> LoopActionView {
        match self {
            LoopAction::Publish(response) => LoopActionView::Publish(response@),
            LoopAction::Run(command) => LoopActionView::Run(command@),
            LoopAction::Report(error) => LoopActionView::Report(*error),
        }
    }
}

/// What the loop does about `event`: an answer is published as it is, a
/// line is carried out where it is a command and reported where it is not.
pub open spec fn loop_action(event: EventTypeView) -> LoopActionView {
    match event {
        EventTypeView::Response(response) => LoopActionView::Publish(response),
        EventTypeView::Input(line) => match command(line) {
            Ok(command) => LoopActionView::Run(command),
            Err(error) => LoopActionView::Report(error),
        },
    }
}

/// The catalog after `action` has been carried out on the catalog `books`:
/// adding appends an entry, sharing publishes entries, and nothing else
/// touches the catalog.
pub open spec fn catalog_after(books: Seq<BookView>, action: LoopActionView) -> Seq<BookView> {
    match action {
        LoopActionView::Run(CommandView::AddBook { title, author, publisher }) => with_new_book(
            books,
            title,
            author,
            publisher,
        ),
        LoopActionView::Run(CommandView::ShareBook { title }) => with_shared(books, title),
        _ => books,
    }
}

/// The catalog after the operator has typed `line`.
pub open spec fn catalog_after_line(books: Seq<BookView>, line: Seq<char>) -> Seq<BookView> {
    catalog_after(books, loop_action(EventTypeView::Input(line)))
}

/// The catalog after the operator has typed `lines`, one after the other.
pub open spec fn catalog_after_lines(books: Seq<BookView>, lines: Seq<Seq<char>>) -> Seq<BookView>
    decreases lines.len(),
{
    if lines.len() == 0 {
        books
    } else {
        catalog_after_line(catalog_after_lines(books, lines.drop_last()), lines.last())
    }
}

/// The fields that the line `line` adds, where it is an `add book` command.
pub open spec fn added_by(line: Seq<char>) -> NewBookView {
    match command(line) {
        Ok(CommandView::AddBook { title, author, publisher }) => (title, author, publisher),
        _ => (Seq::empty(), Seq::empty(), Seq::empty()),
    }
}

/// Whether `line` is an `add book` command with its three fields.
pub open spec fn adds_a_book(line: Seq<char>) -> bool {
    command(line) is Ok && command(line)->Ok_0 is AddBook
}

/// Whether `line` is a `share book` command.
pub open spec fn shares_a_title(line: Seq<char>) -> bool {
    command(line) is Ok && command(line)->Ok_0 is ShareBook
}

/// Typing `add book` commands into a peer with an empty catalog gives the
/// entries the identifiers 0, 1, 2, ... in the order of the lines: they
/// start at 0, increase strictly and never repeat.
pub proof fn lemma_add_lines_count_ids_from_zero(lines: Seq<Seq<char>>)
    requires
        forall|i: int| 0 <= i < lines.len() ==> adds_a_book(#[trigger] lines[i]),
    ensures
        catalog_after_lines(Seq::empty(), lines).len() == lines.len(),
        forall|i: int|
            0 <= i < lines.len() ==> (#[trigger] catalog_after_lines(Seq::empty(), lines)[i]).id
                == i,
        increasing_ids(catalog_after_lines(Seq::empty(), lines)),
        unique_ids(catalog_after_lines(Seq::empty(), lines)),
{
    let additions = lines.map_values(|line: Seq<char>| added_by(line));
    lemma_lines_add_their_fields(lines);
    lemma_added_ids_count_from_zero(additions);
}

/// A run of `add book` commands adds the fields of each line in turn.
proof fn lemma_lines_add_their_fields(lines: Seq<Seq<char>>)
    requires
        forall|i: int| 0 <= i < lines.len() ==> adds_a_book(#[trigger] lines[i]),
    ensures
        catalog_after_lines(Seq::empty(), lines) == with_new_books(
            Seq::empty(),
            lines.map_values(|line: Seq<char>| added_by(line)),
        ),
    decreases lines.len(),
{
    let additions = lines.map_values(|line: Seq<char>| added_by(line));
    if lines.len() > 0 {
        let front = lines.drop_last();
        assert forall|i: int| 0 <= i < front.len() implies adds_a_book(#[trigger] front[i]) by {
            assert(front[i] == lines[i]);
        }
        lemma_lines_add_their_fields(front);
        assert(additions.drop_last() =~= front.map_values(|line: Seq<char>| added_by(line)));
        assert(adds_a_book(lines[lines.len() - 1]));
    }
}

/// Typing a `share book` command twice leaves the catalog as typing it
/// once does.
pub proof fn lemma_share_line_is_idempotent(books: Seq<BookView>, line: Seq<char>)
    requires
        shares_a_title(line),
    ensures
        catalog_after_line(catalog_after_line(books, line), line) == catalog_after_line(
            books,
            line,
        ),
{
    lemma_share_is_idempotent(books, command(line)->Ok_0->ShareBook_title);
}

/// A line that is no command changes nothing in the catalog, and neither
/// does an answer on its way out.
pub proof fn lemma_only_add_and_share_change_the_catalog(books: Seq<BookView>, event: EventTypeView)
    ensures
        event is Response ==> catalog_after(books, loop_action(event)) == books,
        event matches EventTypeView::Input(line) && command(line) is Err ==> catalog_after(
            books,
            loop_action(event),
        ) == books,
        event matches EventTypeView::Input(line) && !adds_a_book(line) && !shares_a_title(line)
            ==> catalog_after(books, loop_action(event)) == books,
{
}

/// Decides what the loop does about `event`.
pub fn handle_event(event: EventType) -> (action: LoopAction)
    ensures
        action@ == loop_action(event@),
{
    match event {
        EventType::Response(response) => LoopAction::Publish(response),
        EventType::Input(line) => match handle_input(line.as_str()) {
            Ok(command) => LoopAction::Run(command),
            Err(error) => LoopAction::Report(error),
        },
    }
}

} // verus!
