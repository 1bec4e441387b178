//! The catalog a peer keeps: its entries, how a new entry gets its
//! identifier, how entries become public, and which entries may leave the peer.

use vstd::prelude::*;
use vstd::string::*;

verus! {

/// One catalog entry.
///
/// `id` is the entry's place in the local sequence of additions; it says
/// nothing outside the catalog that holds the entry. `public` tells whether
/// the owner has shared the entry with other peers.
#[derive(Debug, PartialEq, Eq)]
pub struct Book {
    pub id: usize,
    pub title: String,
    pub author: String,
    pub publisher: String,
    pub public: bool,
}

/// The catalog of one peer, in the order in which the entries were added.
pub type Library = Vec<Book>;

/// What a [`Book`] stands for in contracts.
pub struct BookView {
    pub id: nat,
    pub title: Seq<char>,
    pub author: Seq<char>,
    pub publisher: Seq<char>,
    pub public: bool,
}

impl View for Book {
    type V = BookView;

    open spec fn view(&self) -> BookView {
        BookView {
            id: self.id as nat,
            title: self.title@,
            author: self.author@,
            publisher: self.publisher@,
            public: self.public,
        }
    }
}

impl DeepView for Book {
    type V = BookView;

    open spec fn deep_view(&self) -> BookView {
        self@
    }
}

impl Clone for Book {
    fn clone(&self) -> (copy: Book)
        ensures
            copy@ == self@,
    {
        Book {
            id: self.id,
            title: self.title.clone(),
            author: self.author.clone(),
            publisher: self.publisher.clone(),
            public: self.public,
        }
    }
}

/// The largest identifier in `books`, and 0 where there is none.
pub open spec fn max_id(books: Seq<BookView>) -> nat
    decreases books.len(),
{
    if books.len() == 0 {
        0
    } else {
        let rest = max_id(books.drop_last());
        if books.last().id > rest {
            books.last().id
        } else {
            rest
        }
    }
}

/// The identifier that the next added entry gets: 0 in an empty catalog,
/// and one more than the largest identifier otherwise.
pub open spec fn next_id(books: Seq<BookView>) -> nat {
    if books.len() == 0 {
        0
    } else {
        max_id(books) + 1
    }
}

/// No two entries of `books` have the same identifier.
pub open spec fn unique_ids(books: Seq<BookView>) -> bool {
    forall|i: int, j: int| 0 <= i < j < books.len() ==> books[i].id != books[j].id
}

/// Every entry of `books` has a larger identifier than the entries before it.
pub open spec fn increasing_ids(books: Seq<BookView>) -> bool {
    forall|i: int, j: int| 0 <= i < j < books.len() ==> books[i].id < books[j].id
}

/// `books` after a private entry with the given fields and a fresh
/// identifier has been appended.
pub open spec fn with_new_book(
    books: Seq<BookView>,
    title: Seq<char>,
    author: Seq<char>,
    publisher: Seq<char>,
) -> Seq<BookView> {
    books.push(BookView { id: next_id(books), title, author, publisher, public: false })
}

/// `book` as it is after the entries titled `title` have been shared.
pub open spec fn shared_if_titled(book: BookView, title: Seq<char>) -> BookView {
    if book.title == title {
        BookView { public: true, ..book }
    } else {
        book
    }
}

/// `books` after every entry titled `title` has been made public.
pub open spec fn with_shared(books: Seq<BookView>, title: Seq<char>) -> Seq<BookView> {
    books.map_values(|b: BookView| shared_if_titled(b, title))
}

/// The public entries of `books`, in their order.
pub open spec fn public_only(books: Seq<BookView>) -> Seq<BookView> {
    books.filter(|b: BookView| b.public)
}

/// The fields that an `add` command carries: title, author and publisher.
pub type NewBookView = (Seq<char>, Seq<char>, Seq<char>);

/// `books` after the entries described by `additions` have been added one
/// after the other.
pub open spec fn with_new_books(books: Seq<BookView>, additions: Seq<NewBookView>) -> Seq<BookView>
    decreases additions.len(),
{
    if additions.len() == 0 {
        books
    } else {
        let last = additions.last();
        with_new_book(with_new_books(books, additions.drop_last()), last.0, last.1, last.2)
    }
}

/// Every identifier in `books` is at most `max_id(books)`.
pub proof fn lemma_max_id_bounds(books: Seq<BookView>)
    ensures
        forall|i: int| 0 <= i < books.len() ==> (#[trigger] books[i]).id <= max_id(books),
        books.len() > 0 ==> exists|i: int|
            0 <= i < books.len() && (#[trigger] books[i]).id == max_id(books),
    decreases books.len(),
{
    if books.len() > 0 {
        let front = books.drop_last();
        lemma_max_id_bounds(front);
        assert forall|i: int| 0 <= i < books.len() implies (#[trigger] books[i]).id <= max_id(
            books,
        ) by {
            if i < front.len() {
                assert(front[i] == books[i]);
            }
        }
        if books.last().id > max_id(front) || front.len() == 0 {
            assert(books[books.len() - 1].id == max_id(books));
        } else {
            let k = choose|k: int| 0 <= k < front.len() && (#[trigger] front[k]).id == max_id(front);
            assert(books[k] == front[k]);
        }
    }
}

/// Adding an entry gives it an identifier that no entry of the catalog has:
/// a catalog without repeated identifiers stays so, and one whose
/// identifiers increase keeps increasing.
pub proof fn lemma_new_book_has_fresh_id(
    books: Seq<BookView>,
    title: Seq<char>,
    author: Seq<char>,
    publisher: Seq<char>,
)
    ensures
        forall|i: int| 0 <= i < books.len() ==> (#[trigger] books[i]).id < next_id(books),
        unique_ids(books) ==> unique_ids(with_new_book(books, title, author, publisher)),
        increasing_ids(books) ==> increasing_ids(with_new_book(books, title, author, publisher)),
{
    lemma_max_id_bounds(books);
}

/// Whatever `add` commands are run on an empty catalog, the entries get the
/// identifiers 0, 1, 2, ... in the order of the commands: the identifiers
/// start at 0, increase strictly and never repeat.
pub proof fn lemma_added_ids_count_from_zero(additions: Seq<NewBookView>)
    ensures
        with_new_books(Seq::empty(), additions).len() == additions.len(),
        forall|i: int|
            0 <= i < additions.len() ==> (#[trigger] with_new_books(
                Seq::empty(),
                additions,
            )[i]).id == i,
        increasing_ids(with_new_books(Seq::empty(), additions)),
        unique_ids(with_new_books(Seq::empty(), additions)),
    decreases additions.len(),
{
    if additions.len() > 0 {
        let before = with_new_books(Seq::empty(), additions.drop_last());
        lemma_added_ids_count_from_zero(additions.drop_last());
        lemma_max_id_bounds(before);
        if before.len() > 0 {
            assert(before[before.len() - 1].id == before.len() - 1);
        }
    }
}

/// Starting from a catalog whose identifiers increase, any run of `add`
/// commands leaves a catalog whose identifiers increase, hence never repeat.
pub proof fn lemma_additions_keep_ids_increasing(
    books: Seq<BookView>,
    additions: Seq<NewBookView>,
)
    requires
        increasing_ids(books),
    ensures
        increasing_ids(with_new_books(books, additions)),
        unique_ids(with_new_books(books, additions)),
    decreases additions.len(),
{
    if additions.len() > 0 {
        let last = additions.last();
        let before = with_new_books(books, additions.drop_last());
        lemma_additions_keep_ids_increasing(books, additions.drop_last());
        lemma_new_book_has_fresh_id(before, last.0, last.1, last.2);
    }
}

/// Sharing a title twice leaves the catalog as sharing it once does.
pub proof fn lemma_share_is_idempotent(books: Seq<BookView>, title: Seq<char>)
    ensures
        with_shared(with_shared(books, title), title) == with_shared(books, title),
{
    assert(with_shared(with_shared(books, title), title) =~= with_shared(books, title));
}

/// Sharing changes no identifier, title, author or publisher, never makes
/// an entry private, and leaves the number and order of entries alone.
pub proof fn lemma_share_only_publishes(books: Seq<BookView>, title: Seq<char>)
    ensures
        with_shared(books, title).len() == books.len(),
        forall|i: int|
            0 <= i < books.len() ==> {
                let before = #[trigger] books[i];
                let after = with_shared(books, title)[i];
                &&& after.id == before.id
                &&& after.title == before.title
                &&& after.author == before.author
                &&& after.publisher == before.publisher
                &&& after.public == (before.public || before.title == title)
            },
        max_id(with_shared(books, title)) == max_id(books),
    decreases books.len(),
{
    if books.len() > 0 {
        lemma_share_only_publishes(books.drop_last(), title);
        assert(with_shared(books, title).drop_last() =~= with_shared(books.drop_last(), title));
    }
}

/// No private entry is among the public entries of a catalog, and every
/// public entry of the catalog is among them.
pub proof fn lemma_public_only_is_public(books: Seq<BookView>)
    ensures
        forall|i: int|
            0 <= i < public_only(books).len() ==> (#[trigger] public_only(books)[i]).public,
        forall|i: int|
            0 <= i < public_only(books).len() ==> books.contains(#[trigger] public_only(books)[i]),
        forall|i: int|
            0 <= i < books.len() && (#[trigger] books[i]).public ==> public_only(books).contains(
                books[i],
            ),
{
    broadcast use vstd::seq_lib::group_filter_ensures;

    let public = public_only(books);
    assert forall|i: int| 0 <= i < public.len() implies books.contains(#[trigger] public[i]) by {
        assert(public.contains(public[i]));
        books.lemma_filter_contains_rev(|b: BookView| b.public, public[i]);
    }
}

/// Appends a private entry with the given fields to `library` and returns
/// its identifier, which is `next_id` of the catalog before the call.
///
/// Returns `None`, and leaves `library` as it was, exactly when that
/// identifier does not fit in `usize`.
pub fn add_new_book(
    library: &mut Library,
    title: &str,
    author: &str,
    publisher: &str,
) -> (added: Option<usize>)
    ensures
        next_id(old(library).deep_view()) <= usize::MAX ==> added == Some(
            next_id(old(library).deep_view()) as usize,
        ) && final(library).deep_view() == with_new_book(
            old(library).deep_view(),
            title@,
            author@,
            publisher@,
        ),
        next_id(old(library).deep_view()) > usize::MAX ==> added is None && final(library)@
            == old(library)@,
        unique_ids(old(library).deep_view()) ==> unique_ids(final(library).deep_view()),
        increasing_ids(old(library).deep_view()) ==> increasing_ids(
            final(library).deep_view(),
        ),
{
    let ghost before = library.deep_view();
    let mut largest: Option<usize> = None;
    let mut i: usize = 0;
    while i < library.len()
        invariant
            i <= library.len(),
            library@ == old(library)@,
            before == library.deep_view(),
            i == 0 ==> largest is None,
            i > 0 ==> largest == Some(max_id(before.take(i as int)) as usize),
            max_id(before.take(i as int)) <= usize::MAX,
        decreases library.len() - i,
    {
        let id = library[i].id;
        proof {
            assert(before.take(i + 1).drop_last() =~= before.take(i as int));
            assert(before.take(i + 1).last() == library@[i as int]@);
        }
        largest = match largest {
            Some(seen) if seen >= id => Some(seen),
            _ => Some(id),
        };
        i += 1;
    }
    proof {
        assert(before.take(library.len() as int) =~= before);
        lemma_new_book_has_fresh_id(before, title@, author@, publisher@);
    }
    let id: usize = match largest {
        None => 0,
        Some(seen) => {
            if seen == usize::MAX {
                return None;
            }
            seen + 1
        },
    };
    library.push(
        Book {
            id,
            title: String::from_str(title),
            author: String::from_str(author),
            publisher: String::from_str(publisher),
            public: false,
        },
    );
    proof {
        assert(library.deep_view() =~= with_new_book(before, title@, author@, publisher@));
    }
    Some(id)
}

/// Makes every entry of `library` whose title is `title` public and leaves
/// the other entries as they are.
pub fn share_book(library: &mut Library, title: &str)
    ensures
        final(library).deep_view() == with_shared(old(library).deep_view(), title@),
{
    let wanted = String::from_str(title);
    let ghost before = library.deep_view();
    let mut i: usize = 0;
    while i < library.len()
        invariant
            i <= library.len(),
            library.len() == old(library).len(),
            before == old(library).deep_view(),
            wanted@ == title@,
            forall|k: int|
                0 <= k < i ==> (#[trigger] library@[k])@ == shared_if_titled(before[k], title@),
            forall|k: int| i <= k < library.len() ==> (#[trigger] library@[k])@ == before[k],
        decreases library.len() - i,
    {
        if library[i].title == wanted {
            library[i].public = true;
        }
        i += 1;
    }
    proof {
        assert(library.deep_view() =~= with_shared(before, title@));
    }
}

/// The public entries of `books`, in their order.
pub fn public_books(books: Vec<Book>) -> (public: Vec<Book>)
    ensures
        public.deep_view() == public_only(books.deep_view()),
        forall|i: int| 0 <= i < public.len() ==> (#[trigger] public@[i]).public,
{
    let ghost all = books.deep_view();
    let mut public: Vec<Book> = Vec::new();
    proof {
        reveal(Seq::filter);
        assert(all.take(0) =~= Seq::empty());
    }
    for book in it: books
        invariant
            it.seq() == books@,
            all == books.deep_view(),
            public.deep_view() == public_only(all.take(it.index() as int)),
            forall|i: int| 0 <= i < public.len() ==> (#[trigger] public@[i]).public,
    {
        let ghost n = it.index() as int;
        proof {
            reveal(Seq::filter);
            assert(all.take(n + 1).drop_last() =~= all.take(n));
            assert(all.take(n + 1).last() == book@);
        }
        if book.public {
            let ghost kept = public.deep_view();
            public.push(book);
            proof {
                assert(public.deep_view() =~= kept.push(book@));
            }
        }
    }
    proof {
        assert(all.take(books@.len() as int) =~= all);
    }
    public
}

} // verus!
