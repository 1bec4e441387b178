//! The exchange of catalog listings between peers: the two messages that
//! travel on the shared channel, the rule that says which peers answer a
//! request, and the rule that says which answers a peer shows.
//!
//! Every peer on the channel receives every message. A request is answered
//! by the peers that the responder rule names; an answer is shown only by
//! the peer that it is addressed to.

use crate::catalog::{public_books, public_only, BookView, Library};
use crate::text::same_text;
use vstd::prelude::*;
use vstd::string::*;

verus! {

/// Whose catalog a request asks for.
#[derive(Debug, PartialEq, Eq)]
pub enum ListMode {
    /// The catalog of every peer.
    ALL,
    /// The catalog of the peer with this identifier.
    One(String),
}

/// What a [`ListMode`] stands for in contracts.
pub enum ListModeView {
    ALL,
    One(Seq<char>),
}

impl View for ListMode {
    type V = ListModeView;

    open spec fn view(&self) -> ListModeView {
        match self {
            ListMode::ALL => ListModeView::ALL,
            ListMode::One(peer) => ListModeView::One(peer@),
        }
    }
}

impl DeepView for ListMode {
    type V = ListModeView;

    open spec fn deep_view(&self) -> ListModeView {
        self@
    }
}

/// A request for the public entries of one peer, or of all peers.
#[derive(Debug, PartialEq, Eq)]
pub struct ListRequest {
    pub mode: ListMode,
}

/// What a [`ListRequest`] stands for in contracts.
pub struct ListRequestView {
    pub mode: ListModeView,
}

impl View for ListRequest {
    type V = ListRequestView;

    open spec fn view(&self) -> ListRequestView {
        ListRequestView { mode: self.mode@ }
    }
}

impl DeepView for ListRequest {
    type V = ListRequestView;

    open spec fn deep_view(&self) -> ListRequestView {
        self@
    }
}

/// The answer to a request: the public entries of the peer that answers,
/// addressed to the peer that asked.
#[derive(Debug, PartialEq, Eq)]
pub struct ListResponse {
    pub mode: ListMode,
    pub data: Library,
    pub receiver: String,
}

/// What a [`ListResponse`] stands for in contracts.
pub struct ListResponseView {
    pub mode: ListModeView,
    pub data: Seq<BookView>,
    pub receiver: Seq<char>,
}

impl View for ListResponse {
    type V = ListResponseView;

    open spec fn view(&self) -> ListResponseView {
        ListResponseView {
            mode: self.mode@,
            data: self.data.deep_view(),
            receiver: self.receiver@,
        }
    }
}

impl DeepView for ListResponse {
    type V = ListResponseView;

    open spec fn deep_view(&self) -> ListResponseView {
        self@
    }
}

/// What a peer does about a message that arrived on the shared channel.
#[derive(Debug, PartialEq, Eq)]
pub enum MessageAction {
    /// Show the operator the entries that the peer `source` sent.
    Surface { source: String, data: Library },
    /// Answer with the public entries of the local catalog, addressed to
    /// `receiver`.
    Respond { receiver: String },
    /// Do nothing and show nothing.
    Ignore,
}

/// What a [`MessageAction`] stands for in contracts.
pub enum MessageActionView {
    Surface { source: Seq<char>, data: Seq<BookView> },
    Respond { receiver: Seq<char> },
    Ignore,
}

impl View for MessageAction {
    type V = MessageActionView;

    open spec fn view(&self) -> MessageActionView {
        match self {
            MessageAction::Surface { source, data } => MessageActionView::Surface {
                source: source@,
                data: data.deep_view(),
            },
            MessageAction::Respond { receiver } => MessageActionView::Respond {
                receiver: receiver@,
            },
            MessageAction::Ignore => MessageActionView::Ignore,
        }
    }
}

/// The responder rule: the peer `local` answers a request for every
/// catalog, and a request for one catalog exactly when it is its own.
pub open spec fn must_respond(local: Seq<char>, mode: ListModeView) -> bool {
    match mode {
        ListModeView::ALL => true,
        ListModeView::One(peer) => peer == local,
    }
}

/// The requester rule: the peer `local` shows an answer exactly when the
/// answer is addressed to it.
pub open spec fn must_surface(local: Seq<char>, response: ListResponseView) -> bool {
    response.receiver == local
}

/// The answer that a peer with the catalog `books` gives to `receiver`.
pub open spec fn response_for(books: Seq<BookView>, receiver: Seq<char>) -> ListResponseView {
    ListResponseView { mode: ListModeView::ALL, data: public_only(books), receiver }
}

/// What the peer `local` does about a message from `source`, given what
/// the message is when read as an answer and when read as a request.
///
/// A message that reads as an answer is an answer, whatever else it reads
/// as. One that reads as neither is dropped.
pub open spec fn message_action(
    local: Seq<char>,
    source: Seq<char>,
    as_response: Option<ListResponseView>,
    as_request: Option<ListRequestView>,
) -> MessageActionView {
    match as_response {
        Some(response) => if must_surface(local, response) {
            MessageActionView::Surface { source, data: response.data }
        } else {
            MessageActionView::Ignore
        },
        None => match as_request {
            Some(request) => if must_respond(local, request.mode) {
                MessageActionView::Respond { receiver: source }
            } else {
                MessageActionView::Ignore
            },
            None => MessageActionView::Ignore,
        },
    }
}

/// The peers among `peers` that answer a request with the given mode, in
/// their order.
pub open spec fn responders(peers: Seq<Seq<char>>, mode: ListModeView) -> Seq<Seq<char>> {
    peers.filter(|peer: Seq<char>| must_respond(peer, mode))
}

/// A request for every catalog is answered by every peer that receives it,
/// the peer that sent it among them.
pub proof fn lemma_all_is_answered_by_every_peer(peers: Seq<Seq<char>>)
    ensures
        responders(peers, ListModeView::ALL) == peers,
    decreases peers.len(),
{
    reveal(Seq::filter);
    if peers.len() > 0 {
        lemma_all_is_answered_by_every_peer(peers.drop_last());
        assert(peers.drop_last().push(peers.last()) =~= peers);
    }
}

/// A request for the catalog of `target` is answered by the peer named
/// `target` and by no other: among peers with distinct identifiers exactly
/// one answers where `target` is among them, and none where it is not.
pub proof fn lemma_targeted_is_answered_by_target_only(peers: Seq<Seq<char>>, target: Seq<char>)
    requires
        peers.no_duplicates(),
    ensures
        forall|i: int|
            0 <= i < peers.len() ==> (must_respond(#[trigger] peers[i], ListModeView::One(target))
                <==> peers[i] == target),
        peers.contains(target) ==> responders(peers, ListModeView::One(target)) == seq![target],
        !peers.contains(target) ==> responders(peers, ListModeView::One(target)).len() == 0,
    decreases peers.len(),
{
    reveal(Seq::filter);
    if peers.len() > 0 {
        let front = peers.drop_last();
        lemma_targeted_is_answered_by_target_only(front, target);
        if peers.last() == target {
            if front.contains(target) {
                let k = choose|k: int| 0 <= k < front.len() && front[k] == target;
                assert(peers[k] == peers[peers.len() - 1]);
            }
            assert(responders(peers, ListModeView::One(target)) =~= seq![target]);
        } else {
            if peers.contains(target) {
                let k = choose|k: int| 0 <= k < peers.len() && peers[k] == target;
                assert(front[k] == target);
            }
            if front.contains(target) {
                let k = choose|k: int| 0 <= k < front.len() && front[k] == target;
                assert(peers[k] == target);
            }
        }
    }
}

/// An answer is shown only to the peer it is addressed to, and a message
/// that reads neither as an answer nor as a request changes and shows
/// nothing.
pub proof fn lemma_only_addressed_answers_surface(
    local: Seq<char>,
    source: Seq<char>,
    as_response: Option<ListResponseView>,
    as_request: Option<ListRequestView>,
)
    ensures
        message_action(local, source, as_response, as_request) is Surface <==> as_response is Some
            && as_response->0.receiver == local,
        message_action(local, source, as_response, as_request) is Respond <==> as_response is None
            && as_request is Some && must_respond(local, as_request->0.mode),
        as_response is None && as_request is None ==> message_action(
            local,
            source,
            as_response,
            as_request,
        ) is Ignore,
{
}

/// Whether the peer `local_id` answers `request`.
pub fn answers(local_id: &str, request: &ListRequest) -> (yes: bool)
    ensures
        yes == must_respond(local_id@, request@.mode),
{
    match &request.mode {
        ListMode::ALL => true,
        ListMode::One(peer) => same_text(peer.as_str(), local_id),
    }
}

/// Whether the peer `local_id` shows `response` to its operator.
pub fn accepts(local_id: &str, response: &ListResponse) -> (yes: bool)
    ensures
        yes == must_surface(local_id@, response@),
{
    same_text(response.receiver.as_str(), local_id)
}

/// Builds the answer that goes to `receiver`: the public entries of
/// `books`, in their order, and no private one.
pub fn respond_with_public_books(books: Library, receiver: String) -> (response: ListResponse)
    ensures
        response@ == response_for(books.deep_view(), receiver@),
        forall|i: int| 0 <= i < response.data.len() ==> (#[trigger] response.data@[i]).public,
{
    ListResponse { mode: ListMode::ALL, receiver, data: public_books(books) }
}

/// Decides what the peer `local_id` does about a message that `source`
/// published, given the message read as an answer (`as_response`) and read
/// as a request (`as_request`), each `None` where the message cannot be
/// read so.
///
/// An answer addressed to `local_id` is shown; an answer addressed to
/// another peer is dropped. A request is answered where the responder rule
/// says so, and the answer goes to `source`. Anything else is dropped.
pub fn handle_message(
    local_id: &str,
    source: String,
    as_response: Option<ListResponse>,
    as_request: Option<ListRequest>,
) -> (action: MessageAction)
    ensures
        action@ == message_action(
            local_id@,
            source@,
            as_response.deep_view(),
            as_request.deep_view(),
        ),
        action is Surface ==> as_response is Some && as_response->0.receiver@ == local_id@,
        as_response is None && as_request is None ==> action is Ignore,
{
    if let Some(response) = as_response {
        if accepts(local_id, &response) {
            MessageAction::Surface { source, data: response.data }
        } else {
            MessageAction::Ignore
        }
    } else if let Some(request) = as_request {
        if answers(local_id, &request) {
            MessageAction::Respond { receiver: source }
        } else {
            MessageAction::Ignore
        }
    } else {
        MessageAction::Ignore
    }
}

} // verus!
