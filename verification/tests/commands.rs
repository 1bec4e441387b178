use peer_library::commands::{
    handle_add_book, handle_input, handle_list_books, handle_share_book, Command, CommandError,
};
use peer_library::protocol::{ListMode, ListRequest};

fn add(title: &str, author: &str, publisher: &str) -> Command {
    Command::AddBook {
        title: title.to_string(),
        author: author.to_string(),
        publisher: publisher.to_string(),
    }
}

fn share(title: &str) -> Command {
    Command::ShareBook { title: title.to_string() }
}

fn ask_all() -> Command {
    Command::Request(ListRequest { mode: ListMode::ALL })
}

fn ask(peer: &str) -> Command {
    Command::Request(ListRequest { mode: ListMode::One(peer.to_string()) })
}

#[test]
fn ls_peers_lists_peers() {
    assert_eq!(handle_input("ls peers"), Ok(Command::ListPeers));
}

#[test]
fn ls_peers_must_be_the_whole_line() {
    assert_eq!(handle_input("ls peers "), Err(CommandError::UnknownCommand));
    assert_eq!(handle_input(" ls peers"), Err(CommandError::UnknownCommand));
    assert_eq!(handle_input("ls peers all"), Err(CommandError::UnknownCommand));
}

#[test]
fn ls_books_lists_the_local_catalog() {
    assert_eq!(handle_input("ls books"), Ok(Command::ListLocalBooks));
    assert_eq!(handle_list_books("ls books"), Command::ListLocalBooks);
    assert_eq!(handle_list_books("ls books   "), Command::ListLocalBooks);
}

#[test]
fn ls_books_all_asks_every_peer() {
    assert_eq!(handle_input("ls books all"), Ok(ask_all()));
    assert_eq!(handle_list_books("ls books all"), ask_all());
    assert_eq!(handle_list_books("ls books  all \t"), ask_all());
}

#[test]
fn ls_books_with_a_peer_asks_that_peer() {
    let peer = "12D3KooWGQmdpzHXCqLno4mMxWXKNFQHASBeF99gWm2oj1HVRhPW";
    assert_eq!(handle_input(&format!("ls books {}", peer)), Ok(ask(peer)));
    assert_eq!(handle_list_books("ls books Q"), ask("Q"));
    assert_eq!(handle_list_books("ls books ALL"), ask("ALL"));
    assert_eq!(handle_list_books("ls books all peers"), ask("all peers"));
}

#[test]
fn list_handler_on_another_line_lists_locally() {
    assert_eq!(handle_list_books("share book A"), Command::ListLocalBooks);
    assert_eq!(handle_list_books(""), Command::ListLocalBooks);
}

#[test]
fn add_book_takes_three_fields() {
    assert_eq!(handle_input("add book A|X|Y"), Ok(add("A", "X", "Y")));
    assert_eq!(
        handle_add_book("add book Dune|Frank Herbert|Chilton Books"),
        Ok(add("Dune", "Frank Herbert", "Chilton Books"))
    );
}

#[test]
fn add_book_keeps_the_space_inside_the_argument() {
    assert_eq!(handle_add_book("add book  A | X | Y  "), Ok(add("A ", " X ", " Y")));
    assert_eq!(handle_add_book("add book ||"), Ok(add("", "", "")));
}

#[test]
fn add_book_ignores_fields_after_the_third() {
    assert_eq!(handle_add_book("add book A|X|Y|Z|W"), Ok(add("A", "X", "Y")));
}

#[test]
fn add_book_with_fewer_than_three_fields_is_an_error() {
    assert_eq!(handle_input("add book A|X"), Err(CommandError::MissingArguments));
    assert_eq!(handle_add_book("add book A"), Err(CommandError::MissingArguments));
    assert_eq!(handle_add_book("add book"), Err(CommandError::MissingArguments));
    assert_eq!(handle_add_book("add book   "), Err(CommandError::MissingArguments));
    assert_eq!(handle_add_book("add book |"), Err(CommandError::MissingArguments));
}

#[test]
fn add_handler_on_another_line_asks_for_nothing() {
    assert_eq!(handle_add_book("ls books"), Ok(Command::Nothing));
    assert_eq!(handle_add_book("add boo A|X|Y"), Ok(Command::Nothing));
    assert_eq!(handle_add_book(""), Ok(Command::Nothing));
}

#[test]
fn share_book_takes_the_title() {
    assert_eq!(handle_input("share book A"), Ok(share("A")));
    assert_eq!(handle_share_book("share book The Hobbit"), share("The Hobbit"));
}

#[test]
fn share_book_trims_the_title() {
    assert_eq!(handle_share_book("share book   A  \t"), share("A"));
    assert_eq!(handle_share_book("share book"), share(""));
    assert_eq!(handle_share_book("share bookA"), share("A"));
}

#[test]
fn share_handler_on_another_line_asks_for_nothing() {
    assert_eq!(handle_share_book("add book A|X|Y"), Command::Nothing);
    assert_eq!(handle_share_book("share boo A"), Command::Nothing);
}

#[test]
fn other_lines_are_unknown() {
    for line in ["", "ls", "ls book", "help", "Add book A|X|Y", "list books", " add book A|X|Y"] {
        assert_eq!(handle_input(line), Err(CommandError::UnknownCommand), "{:?}", line);
    }
}

#[test]
fn a_command_word_opens_its_command() {
    assert_eq!(handle_input("ls booksall"), Ok(ask_all()));
    assert_eq!(handle_input("add bookA|X|Y"), Ok(add("A", "X", "Y")));
    assert_eq!(handle_input("share bookA"), Ok(share("A")));
}

#[test]
fn added_title_is_the_title_that_share_names() {
    let added = handle_input("add book A|X|Y");
    let shared = handle_input("share book A");
    match (added, shared) {
        (Ok(Command::AddBook { title: added, .. }), Ok(Command::ShareBook { title: shared })) => {
            assert_eq!(added, shared)
        }
        other => panic!("{:?}", other),
    }
}
