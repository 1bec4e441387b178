//! Which peers are within reach.
//!
//! Discovery announces peers and lets them expire. A peer that is announced
//! joins the directory; a peer that expires leaves it, unless discovery
//! still knows it from a later announcement.

use crate::text::same_text;
use vstd::prelude::*;
use vstd::string::*;

verus! {

/// `peers` without repetitions: each peer once, at the place where it
/// first occurs.
pub open spec fn distinct(peers: Seq<Seq<char>>) -> Seq<Seq<char>>
    decreases peers.len(),
{
    if peers.len() == 0 {
        Seq::empty()
    } else {
        let before = distinct(peers.drop_last());
        if before.contains(peers.last()) {
            before
        } else {
            before.push(peers.last())
        }
    }
}

/// `distinct` names every peer of the list, none twice, and no other.
pub proof fn lemma_distinct_lists_each_once(peers: Seq<Seq<char>>)
    ensures
        distinct(peers).no_duplicates(),
        forall|peer: Seq<char>| #[trigger] distinct(peers).contains(peer) <==> peers.contains(peer),
        distinct(peers).len() <= peers.len(),
    decreases peers.len(),
{
    if peers.len() > 0 {
        let front = peers.drop_last();
        let before = distinct(front);
        lemma_distinct_lists_each_once(front);
        assert forall|peer: Seq<char>| #[trigger]
            distinct(peers).contains(peer) <==> peers.contains(peer) by {
            if distinct(peers).contains(peer) {
                let k = choose|k: int| 0 <= k < distinct(peers).len() && distinct(peers)[k] == peer;
                if k < before.len() {
                    assert(before[k] == peer);
                    assert(before.contains(peer));
                    let j = choose|j: int| 0 <= j < front.len() && front[j] == peer;
                    assert(peers[j] == peer);
                } else {
                    assert(peers[peers.len() - 1] == peer);
                }
            }
            if peers.contains(peer) {
                let k = choose|k: int| 0 <= k < peers.len() && peers[k] == peer;
                if k < front.len() {
                    assert(front[k] == peer);
                    assert(before.contains(peer));
                    let j = choose|j: int| 0 <= j < before.len() && before[j] == peer;
                    assert(distinct(peers)[j] == peer);
                } else if before.contains(peer) {
                    let j = choose|j: int| 0 <= j < before.len() && before[j] == peer;
                    assert(distinct(peers)[j] == peer);
                } else {
                    assert(distinct(peers)[before.len() as int] == peer);
                }
            }
        }
    }
}

/// Listing a peer that is not listed yet keeps the list free of
/// repetitions and adds that peer, and no other, to the peers listed.
proof fn lemma_push_unlisted(peers: Seq<Seq<char>>, peer: Seq<char>)
    requires
        peers.no_duplicates(),
        !peers.contains(peer),
    ensures
        peers.push(peer).no_duplicates(),
        peers.push(peer).to_set() == peers.to_set().insert(peer),
{
    assert(peers.push(peer) =~= peers + seq![peer]);
    Seq::lemma_to_set_insert_commutes(peers, peer);
}

/// Striking the peer at `at` from a list without repetitions keeps the
/// list free of repetitions and takes that peer, and no other, from the
/// peers listed.
proof fn lemma_remove_listed(peers: Seq<Seq<char>>, at: int)
    requires
        peers.no_duplicates(),
        0 <= at < peers.len(),
    ensures
        peers.remove(at).no_duplicates(),
        peers.remove(at).to_set() == peers.to_set().remove(peers[at]),
{
    let after = peers.remove(at);
    assert forall|p: Seq<char>| #[trigger]
        after.to_set().contains(p) <==> peers.to_set().remove(peers[at]).contains(p) by {
        if after.contains(p) {
            let k = choose|k: int| 0 <= k < after.len() && after[k] == p;
            if k < at {
                assert(peers[k] == p);
            } else {
                assert(peers[k + 1] == p);
            }
        }
        if peers.contains(p) && p != peers[at] {
            let k = choose|k: int| 0 <= k < peers.len() && peers[k] == p;
            if k < at {
                assert(after[k] == p);
            } else {
                assert(after[k - 1] == p);
            }
        }
    }
    assert(after.to_set() =~= peers.to_set().remove(peers[at]));
}

/// Whether `peer` is in `peers`.
pub fn is_listed(peers: &Vec<String>, peer: &str) -> (yes: bool)
    ensures
        yes == peers.deep_view().contains(peer@),
{
    let mut i: usize = 0;
    while i < peers.len()
        invariant
            i <= peers.len(),
            forall|k: int| 0 <= k < i ==> peers.deep_view()[k] != peer@,
        decreases peers.len() - i,
    {
        if same_text(peers[i].as_str(), peer) {
            assert(peers.deep_view()[i as int] == peer@);
            return true;
        }
        i += 1;
    }
    false
}

/// The peers that discovery knows, each once, in the order in which they
/// first occur in `nodes`.
pub fn handle_list_peers(nodes: &Vec<String>) -> (unique_peers: Vec<String>)
    ensures
        unique_peers.deep_view() == distinct(nodes.deep_view()),
        unique_peers.deep_view().no_duplicates(),
        forall|peer: Seq<char>| #[trigger]
            unique_peers.deep_view().contains(peer) <==> nodes.deep_view().contains(peer),
{
    let mut unique_peers: Vec<String> = Vec::new();
    let mut i: usize = 0;
    proof {
        assert(nodes.deep_view().take(0) =~= Seq::empty());
        assert(unique_peers.deep_view() =~= Seq::empty());
    }
    while i < nodes.len()
        invariant
            i <= nodes.len(),
            unique_peers.deep_view() == distinct(nodes.deep_view().take(i as int)),
        decreases nodes.len() - i,
    {
        let ghost seen = unique_peers.deep_view();
        proof {
            assert(nodes.deep_view().take(i + 1).drop_last() =~= nodes.deep_view().take(i as int));
            assert(nodes.deep_view().take(i + 1).last() == nodes[i as int]@);
        }
        if !is_listed(&unique_peers, nodes[i].as_str()) {
            unique_peers.push(nodes[i].clone());
            proof {
                assert(unique_peers.deep_view() =~= seen.push(nodes[i as int]@));
            }
        }
        i += 1;
    }
    proof {
        assert(nodes.deep_view().take(nodes.len() as int) =~= nodes.deep_view());
        lemma_distinct_lists_each_once(nodes.deep_view());
    }
    unique_peers
}

/// The peers that are within reach at the moment.
pub struct PeerDirectory {
    peers: Vec<String>,
}

impl View for PeerDirectory {
    type V = Set<Seq<char>>;

    /// The identifiers of the peers in the directory.
    closed spec fn view(&self) -> Set<Seq<char>> {
        self.peers.deep_view().to_set()
    }
}

impl PeerDirectory {
    /// No peer is in the directory twice.
    #[verifier::type_invariant]
    spec fn each_peer_once(self) -> bool {
        self.peers.deep_view().no_duplicates()
    }

    /// A directory without peers.
    pub fn new() -> (directory: PeerDirectory)
        ensures
            directory@ == Set::<Seq<char>>::empty(),
    {
        let directory = PeerDirectory { peers: Vec::new() };
        proof {
            assert(directory.peers.deep_view() =~= Seq::empty());
            assert(directory@ =~= Set::<Seq<char>>::empty());
        }
        directory
    }

    /// Whether `peer` is in the directory.
    pub fn contains(&self, peer: &str) -> (yes: bool)
        ensures
            yes == self@.contains(peer@),
    {
        is_listed(&self.peers, peer)
    }

    /// How many peers are in the directory.
    pub fn len(&self) -> (count: usize)
        ensures
            self@.finite(),
            count == self@.len(),
    {
        proof {
            use_type_invariant(self);
            self.peers.deep_view().unique_seq_to_set();
            vstd::seq_lib::seq_to_set_is_finite(self.peers.deep_view());
        }
        self.peers.len()
    }

    /// The peers in the directory, each once.
    pub fn peers(&self) -> (listed: Vec<String>)
        ensures
            listed.deep_view().no_duplicates(),
            listed.deep_view().to_set() == self@,
    {
        proof {
            use_type_invariant(self);
        }
        let mut listed: Vec<String> = Vec::new();
        let mut i: usize = 0;
        while i < self.peers.len()
            invariant
                i <= self.peers.len(),
                listed.deep_view() == self.peers.deep_view().take(i as int),
            decreases self.peers.len() - i,
        {
            let ghost copied = listed.deep_view();
            listed.push(self.peers[i].clone());
            proof {
                assert(listed.deep_view() =~= copied.push(self.peers[i as int]@));
                assert(listed.deep_view() =~= self.peers.deep_view().take(i + 1));
            }
            i += 1;
        }
        proof {
            assert(self.peers.deep_view().take(self.peers.len() as int) =~= self.peers.deep_view());
        }
        listed
    }

    /// Takes note that discovery announced `peer`: the peer is in the
    /// directory afterwards, and the others are as before.
    pub fn announce(&mut self, peer: String)
        ensures
            final(self)@ == old(self)@.insert(peer@),
    {
        proof {
            use_type_invariant(&*self);
        }
        let ghost before = self.peers.deep_view();
        if !is_listed(&self.peers, peer.as_str()) {
            let mut peers: Vec<String> = Vec::new();
            proof {
                assert(peers.deep_view() =~= Seq::empty());
            }
            std::mem::swap(&mut self.peers, &mut peers);
            peers.push(peer);
            proof {
                assert(peers.deep_view() =~= before.push(peer@));
                lemma_push_unlisted(before, peer@);
            }
            self.peers = peers;
        } else {
            proof {
                assert(before.to_set().insert(peer@) =~= before.to_set());
            }
        }
    }

    /// Takes note that `peer` expired, given the peers that discovery
    /// knows after the expiry. Returns whether `peer` leaves: it does
    /// exactly when `discovered` does not list it. A peer that leaves is
    /// not in the directory afterwards; the others are as before.
    pub fn expire(&mut self, peer: &str, discovered: &Vec<String>) -> (leaves: bool)
        ensures
            leaves == !discovered.deep_view().contains(peer@),
            final(self)@ == if leaves {
                old(self)@.remove(peer@)
            } else {
                old(self)@
            },
    {
        proof {
            use_type_invariant(&*self);
        }
        if is_listed(discovered, peer) {
            return false;
        }
        let ghost before = self.peers.deep_view();
        let mut i: usize = 0;
        while i < self.peers.len()
            invariant
                i <= self.peers.len(),
                self.peers.deep_view() == before,
                old(self)@ == before.to_set(),
                !discovered.deep_view().contains(peer@),
                before.no_duplicates(),
                forall|k: int| 0 <= k < i ==> before[k] != peer@,
            decreases self.peers.len() - i,
        {
            if same_text(self.peers[i].as_str(), peer) {
                let mut peers: Vec<String> = Vec::new();
                proof {
                    assert(peers.deep_view() =~= Seq::empty());
                }
                std::mem::swap(&mut self.peers, &mut peers);
                peers.remove(i);
                proof {
                    assert(before[i as int] == peer@);
                    assert(peers.deep_view() =~= before.remove(i as int));
                    lemma_remove_listed(before, i as int);
                }
                self.peers = peers;
                return true;
            }
            i += 1;
        }
        proof {
            assert(!before.contains(peer@));
            assert(before.to_set().remove(peer@) =~= before.to_set());
        }
        true
    }
}

} // verus!
