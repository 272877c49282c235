//! A client's view of the tracker's roster, kept current from the
//! server-origin messages its session receives.

use vstd::prelude::*;

use crate::duplicate_files;
use crate::registry::lemma_retain_pred;
use crate::registry::lemma_retain_subset;
use crate::registry::spec_retain;
use crate::registry::RegistryError;
use crate::server;
use crate::AnyMessage;
use crate::AnyMsgV;
use crate::File;
use crate::FileV;
use crate::SockAddr;

verus! {

/// A peer as a client sees it: a listening address and the files served
/// there.
#[derive(Debug)]
pub struct Peer {
    pub sock: SockAddr,
    pub files: Vec<File>,
}

/// The mathematical value of a [`Peer`].
pub struct PeerV {
    pub sock: SockAddr,
    pub files: Seq<FileV>,
}

impl View for Peer {
    type V = PeerV;

    open spec fn view(&self) -> PeerV {
        PeerV { sock: self.sock, files: self.files.deep_view() }
    }
}

impl DeepView for Peer {
    type V = PeerV;

    open spec fn deep_view(&self) -> PeerV {
        self@
    }
}

impl Peer {
    /// Copies this peer record.
    pub fn duplicate(&self) -> (r: Peer)
        ensures
            r@ == self@,
    {
        Peer { sock: self.sock, files: duplicate_files(&self.files) }
    }
}

impl From<server::RegisterPeer> for Peer {
    fn from(value: server::RegisterPeer) -> (r: Peer) {
        Peer { sock: value.sock, files: value.file_list }
    }
}

impl vstd::std_specs::convert::FromSpecImpl<server::RegisterPeer> for Peer {
    open spec fn obeys_from_spec() -> bool {
        true
    }

    open spec fn from_spec(value: server::RegisterPeer) -> Peer {
        Peer { sock: value.sock, files: value.file_list }
    }
}

impl From<server::UpdatePeer> for Peer {
    fn from(value: server::UpdatePeer) -> (r: Peer) {
        Peer { sock: value.sock, files: value.file_list }
    }
}

impl vstd::std_specs::convert::FromSpecImpl<server::UpdatePeer> for Peer {
    open spec fn obeys_from_spec() -> bool {
        true
    }

    open spec fn from_spec(value: server::UpdatePeer) -> Peer {
        Peer { sock: value.sock, files: value.file_list }
    }
}

/// No two peers share an address.
pub open spec fn socks_unique(ps: Seq<PeerV>) -> bool {
    forall|i: int, j: int| 0 <= i < j < ps.len() ==> ps[i].sock != ps[j].sock
}

/// Some peer has the address `a`.
pub open spec fn sock_in(ps: Seq<PeerV>, a: SockAddr) -> bool {
    exists|i: int| 0 <= i < ps.len() && ps[i].sock == a
}

/// Keeps peers whose address is not `a`.
pub open spec fn not_sock(a: SockAddr) -> spec_fn(PeerV) -> bool {
    |p: PeerV| p.sock != a
}

/// Retaining keeps addresses pairwise distinct.
proof fn lemma_retain_unique_socks(ps: Seq<PeerV>, pred: spec_fn(PeerV) -> bool)
    requires
        socks_unique(ps),
    ensures
        socks_unique(spec_retain(ps, pred)),
{
    let r = spec_retain(ps, pred);
    assert forall|i: int, j: int| 0 <= i < j < r.len() implies r[i].sock != r[j].sock by {
        lemma_retain_distinct_positions(ps, pred, i, j);
    }
}

/// Two different positions of the retained sequence come from two
/// different members of the original, or the members are equal.
proof fn lemma_retain_distinct_positions(
    ps: Seq<PeerV>,
    pred: spec_fn(PeerV) -> bool,
    i: int,
    j: int,
)
    requires
        socks_unique(ps),
        0 <= i < j < spec_retain(ps, pred).len(),
    ensures
        spec_retain(ps, pred)[i].sock != spec_retain(ps, pred)[j].sock,
    decreases ps.len(),
{
    let r = spec_retain(ps, pred);
    assert(ps.len() > 0);
    let tail = spec_retain(ps.drop_first(), pred);
    assert(socks_unique(ps.drop_first())) by {
        assert forall|a: int, b: int|
            0 <= a < b < ps.drop_first().len() implies #[trigger] ps.drop_first()[a].sock
            != #[trigger] ps.drop_first()[b].sock by {
            assert(ps.drop_first()[a] == ps[a + 1]);
            assert(ps.drop_first()[b] == ps[b + 1]);
            assert(ps[a + 1].sock != ps[b + 1].sock);
        }
    }
    if pred(ps[0]) {
        if i == 0 {
            assert(r[0] == ps[0]);
            assert(r[j] == tail[j - 1]);
            lemma_retain_subset(ps.drop_first(), pred);
            assert(ps.drop_first().contains(tail[j - 1]));
            let k = choose|k: int|
                0 <= k < ps.drop_first().len() && ps.drop_first()[k] == tail[j - 1];
            assert(ps[k + 1] == tail[j - 1]);
            assert(ps[0].sock != ps[k + 1].sock);
        } else {
            assert(r[i] == tail[i - 1]);
            assert(r[j] == tail[j - 1]);
            lemma_retain_distinct_positions(ps.drop_first(), pred, i - 1, j - 1);
        }
    } else {
        assert(r[i] == tail[i]);
        assert(r[j] == tail[j]);
        lemma_retain_distinct_positions(ps.drop_first(), pred, i, j);
    }
}

/// The roster of peers a client knows of, keyed by listening address:
/// one entry per address.
#[derive(Debug)]
pub struct Peers {
    full: Vec<Peer>,
}

impl View for Peers {
    type V = Seq<PeerV>;

    closed spec fn view(&self) -> Seq<PeerV> {
        self.full.deep_view()
    }
}

impl Default for Peers {
    /// An empty roster.
    fn default() -> (r: Peers)
        ensures
            r@ == Seq::<PeerV>::empty(),
            r.wf(),
    {
        Peers::new()
    }
}

impl Peers {
    /// The roster holds at most one peer per address.
    pub open spec fn wf(&self) -> bool {
        socks_unique(self@)
    }

    /// An empty roster.
    pub fn new() -> (r: Peers)
        ensures
            r@ == Seq::<PeerV>::empty(),
            r.wf(),
    {
        let r = Peers { full: Vec::new() };
        proof {
            assert(r@ =~= Seq::<PeerV>::empty());
        }
        r
    }

    /// The index of the peer with address `sock`, if any.
    fn find(&self, sock: SockAddr) -> (r: Option<usize>)
        ensures
            match r {
                Some(i) => i < self@.len() && self@[i as int].sock == sock,
                None => !sock_in(self@, sock),
            },
    {
        let mut i: usize = 0;
        while i < self.full.len()
            invariant
                i <= self.full.len(),
                forall|j: int| 0 <= j < i ==> self@[j].sock != sock,
            decreases self.full.len() - i,
        {
            if self.full[i].sock == sock {
                return Some(i);
            }
            i = i + 1;
        }
        None
    }

    /// Builds the roster without any entry for address `a`.
    fn without_sock(&self, a: SockAddr) -> (r: Vec<Peer>)
        ensures
            r.deep_view() == spec_retain(self@, not_sock(a)),
    {
        let ghost full = self@;
        let mut r: Vec<Peer> = Vec::new();
        let mut i: usize = 0;
        proof {
            assert(full.skip(0) =~= full);
            assert(r.deep_view() =~= Seq::<PeerV>::empty());
            assert(Seq::<PeerV>::empty() + spec_retain(full, not_sock(a)) =~= spec_retain(
                full,
                not_sock(a),
            ));
        }
        while i < self.full.len()
            invariant
                i <= self.full.len(),
                full == self@,
                spec_retain(full, not_sock(a)) == r.deep_view() + spec_retain(
                    full.skip(i as int),
                    not_sock(a),
                ),
            decreases self.full.len() - i,
        {
            let ghost pre = r.deep_view();
            if !(self.full[i].sock == a) {
                r.push(self.full[i].duplicate());
            }
            proof {
                assert(full.skip(i as int)[0] == full[i as int]);
                assert(full.skip(i as int).drop_first() =~= full.skip(i + 1 as int));
                if full[i as int].sock != a {
                    assert(r.deep_view() =~= pre.push(full[i as int]));
                    assert(pre + (seq![full[i as int]] + spec_retain(
                        full.skip(i + 1 as int),
                        not_sock(a),
                    )) =~= r.deep_view() + spec_retain(full.skip(i + 1 as int), not_sock(a)));
                }
            }
            i = i + 1;
        }
        proof {
            assert(full.skip(full.len() as int) =~= Seq::<PeerV>::empty());
            assert(r.deep_view() + Seq::<PeerV>::empty() =~= r.deep_view());
        }
        r
    }

    /// Inserts a peer under its address, returning the entry it replaced,
    /// if the address was already known.
    pub fn add_peer(&mut self, peer: Peer) -> (r: Option<Peer>)
        requires
            old(self).wf(),
        ensures
            final(self).wf(),
            final(self)@ == spec_retain(old(self)@, not_sock(peer@.sock)).push(peer@),
            match r {
                Some(q) => sock_in(old(self)@, peer@.sock) && old(self)@.contains(q@) && q@.sock
                    == peer@.sock,
                None => !sock_in(old(self)@, peer@.sock),
            },
    {
        let prior = match self.find(peer.sock) {
            Some(i) => {
                let q = self.full[i].duplicate();
                proof {
                    assert(sock_in(self@, peer@.sock)) by {
                        assert(self@[i as int].sock == peer@.sock);
                    }
                    assert(self@.contains(q@)) by {
                        assert(self@[i as int] == q@);
                    }
                }
                Some(q)
            },
            None => None,
        };
        let kept = self.without_sock(peer.sock);
        proof {
            lemma_retain_unique_socks(old(self)@, not_sock(peer@.sock));
            lemma_retain_pred(old(self)@, not_sock(peer@.sock));
        }
        self.full = kept;
        self.full.push(peer);
        proof {
            let rr = spec_retain(old(self)@, not_sock(self@[self@.len() - 1].sock));
            assert(self@ =~= spec_retain(old(self)@, not_sock(self@[self@.len() - 1].sock)).push(
                self@[self@.len() - 1],
            ));
            assert forall|i: int, j: int| 0 <= i < j < self@.len() implies self@[i].sock
                != self@[j].sock by {
                if j == self@.len() - 1 {
                    assert(not_sock(self@[j].sock)(rr[i]));
                }
            }
        }
        prior
    }

    /// Replaces (or, for an unknown address, records) a peer's file
    /// list.  Lenient: an update for an address never seen registers it.
    pub fn update_peer(&mut self, new_peer: Peer)
        requires
            old(self).wf(),
        ensures
            final(self).wf(),
            final(self)@ == spec_retain(old(self)@, not_sock(new_peer@.sock)).push(new_peer@),
    {
        let _ = self.add_peer(new_peer);
    }

    /// Removes and returns the peer with address `sock`, if any.
    pub fn remove_peer(&mut self, sock: SockAddr) -> (r: Option<Peer>)
        requires
            old(self).wf(),
        ensures
            final(self).wf(),
            final(self)@ == spec_retain(old(self)@, not_sock(sock)),
            match r {
                Some(q) => sock_in(old(self)@, sock) && old(self)@.contains(q@) && q@.sock
                    == sock,
                None => !sock_in(old(self)@, sock) && final(self)@ == old(self)@,
            },
    {
        proof {
            lemma_retain_unique_socks(old(self)@, not_sock(sock));
        }
        match self.find(sock) {
            Some(i) => {
                let q = self.full[i].duplicate();
                proof {
                    assert(sock_in(self@, sock)) by {
                        assert(self@[i as int].sock == sock);
                    }
                    assert(self@.contains(q@)) by {
                        assert(self@[i as int] == q@);
                    }
                }
                let kept = self.without_sock(sock);
                self.full = kept;
                Some(q)
            },
            None => {
                proof {
                    lemma_retain_all(self@, not_sock(sock));
                }
                None
            },
        }
    }

    /// The peer with address `sock`, if any.
    pub fn get_peer(&self, sock: SockAddr) -> (r: Option<Peer>)
        ensures
            match r {
                Some(q) => sock_in(self@, sock) && self@.contains(q@) && q@.sock == sock,
                None => !sock_in(self@, sock),
            },
    {
        match self.find(sock) {
            Some(i) => {
                let q = self.full[i].duplicate();
                proof {
                    assert(sock_in(self@, sock)) by {
                        assert(self@[i as int].sock == sock);
                    }
                    assert(self@.contains(q@)) by {
                        assert(self@[i as int] == q@);
                    }
                }
                Some(q)
            },
            None => None,
        }
    }

    /// Applies one message from the tracker session to the roster:
    /// `RegisterPeer` and `UpdatePeer` record the peer, `UnregisterPeer`
    /// drops it (an unknown address is a protocol error), and any other
    /// message is rejected as unexpected.
    pub fn handle_message(&mut self, msg: AnyMessage) -> (r: Result<(), RegistryError>)
        requires
            old(self).wf(),
        ensures
            final(self).wf(),
            match msg@ {
                AnyMsgV::Server(server::MessageV::RegisterPeer(x)) => r is Ok && final(self)@
                    == spec_retain(old(self)@, not_sock(x.sock)).push(
                    PeerV { sock: x.sock, files: x.file_list },
                ),
                AnyMsgV::Server(server::MessageV::UpdatePeer(x)) => r is Ok && final(self)@
                    == spec_retain(old(self)@, not_sock(x.sock)).push(
                    PeerV { sock: x.sock, files: x.file_list },
                ),
                AnyMsgV::Server(server::MessageV::UnregisterPeer(x)) => if sock_in(
                    old(self)@,
                    x.sock,
                ) {
                    r is Ok && final(self)@ == spec_retain(old(self)@, not_sock(x.sock))
                } else {
                    r == Err::<(), RegistryError>(RegistryError::UnknownPeer) && final(self)@
                        == old(self)@
                },
                _ => r == Err::<(), RegistryError>(RegistryError::UnexpectedMessage)
                    && final(self)@ == old(self)@,
            },
    {
        match msg {
            AnyMessage::Server(server::Message::RegisterPeer(p)) => {
                let _ = self.add_peer(Peer::from(p));
                Ok(())
            },
            AnyMessage::Server(server::Message::UpdatePeer(p)) => {
                self.update_peer(Peer::from(p));
                Ok(())
            },
            AnyMessage::Server(server::Message::UnregisterPeer(p)) => {
                match self.remove_peer(p.sock) {
                    Some(_) => Ok(()),
                    None => Err(RegistryError::UnknownPeer),
                }
            },
            _ => Err(RegistryError::UnexpectedMessage),
        }
    }
}

/// Retaining with a predicate no member fails keeps the sequence whole.
proof fn lemma_retain_all(ps: Seq<PeerV>, pred: spec_fn(PeerV) -> bool)
    requires
        forall|i: int| 0 <= i < ps.len() ==> pred(#[trigger] ps[i]),
    ensures
        spec_retain(ps, pred) == ps,
    decreases ps.len(),
{
    if ps.len() > 0 {
        assert(pred(ps[0]));
        assert forall|i: int| 0 <= i < ps.drop_first().len() implies pred(
            #[trigger] ps.drop_first()[i],
        ) by {
            assert(ps.drop_first()[i] == ps[i + 1]);
        }
        lemma_retain_all(ps.drop_first(), pred);
        assert(seq![ps[0]] + ps.drop_first() =~= ps);
    }
}

} // verus!
