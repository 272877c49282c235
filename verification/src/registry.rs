//! The tracker's peer registry and its broadcast protocol.
//!
//! The registry owns the table of connected peers, keyed by each peer's
//! advertised listening address: one entry per address, a later
//! registration under the same address silently replacing the earlier one.
//! The registry itself performs no I/O.  Operations that must notify
//! sessions return the exact list of notifications to deliver; the
//! surrounding program writes them out and reports any connection it
//! found closed through [`Context::remove_conn`], which drops that peer
//! and no other, so one dead connection never disturbs the rest of a
//! broadcast.

use vstd::prelude::*;

use crate::duplicate_files;
use crate::server;
use crate::File;
use crate::FileV;
use crate::SockAddr;

verus! {

/// A registered peer: its advertised listening address, its file list,
/// and a plain handle naming its connection.  The surrounding program
/// maps each handle to the transport it stands for.
#[derive(Debug)]
pub struct Peer {
    pub server_addr: SockAddr,
    pub files: Vec<File>,
    pub conn: u64,
}

/// The mathematical value of a [`Peer`].
pub struct PeerV {
    pub server_addr: SockAddr,
    pub files: Seq<FileV>,
    pub conn: u64,
}

impl View for Peer {
    type V = PeerV;

    open spec fn view(&self) -> PeerV {
        PeerV {
            server_addr: self.server_addr,
            files: self.files.deep_view(),
            conn: self.conn,
        }
    }
}

impl DeepView for Peer {
    type V = PeerV;

    open spec fn deep_view(&self) -> PeerV {
        self@
    }
}

impl Peer {
    /// Copies this peer record.
    pub fn duplicate(&self) -> (r: Peer)
        ensures
            r@ == self@,
    {
        Peer {
            server_addr: self.server_addr,
            files: duplicate_files(&self.files),
            conn: self.conn,
        }
    }
}

/// One outbound notification the registry asks its caller to deliver:
/// `msg`, to the session holding connection `conn`.
#[derive(Debug)]
pub struct Notification {
    pub conn: u64,
    pub msg: server::Message,
}

/// The mathematical value of a [`Notification`].
pub struct NotificationV {
    pub conn: u64,
    pub msg: server::MessageV,
}

impl View for Notification {
    type V = NotificationV;

    open spec fn view(&self) -> NotificationV {
        NotificationV { conn: self.conn, msg: self.msg@ }
    }
}

impl DeepView for Notification {
    type V = NotificationV;

    open spec fn deep_view(&self) -> NotificationV {
        self@
    }
}

/// A registry operation was asked about a peer it does not hold.
#[derive(Debug, Clone, Copy, PartialEq, Eq, Structural)]
pub enum RegistryError {
    /// No peer is registered under the given address.
    UnknownPeer,
    /// The message is not one this handler translates into a registry
    /// operation.
    UnexpectedMessage,
}

// ------------------------------------------------------------------
// Peer sequences, as mathematics.
// ------------------------------------------------------------------

/// No two peers share an address.
pub open spec fn addrs_unique(ps: Seq<PeerV>) -> bool {
    forall|i: int, j: int|
        0 <= i < j < ps.len() ==> ps[i].server_addr != ps[j].server_addr
}

/// Some peer has the address `a`.
pub open spec fn addr_in(ps: Seq<PeerV>, a: SockAddr) -> bool {
    exists|i: int| 0 <= i < ps.len() && ps[i].server_addr == a
}

/// Keeps peers whose address is not `a`.
pub open spec fn not_addr(a: SockAddr) -> spec_fn(PeerV) -> bool {
    |p: PeerV| p.server_addr != a
}

/// Keeps peers whose connection handle is not `c`.
pub open spec fn not_conn(c: u64) -> spec_fn(PeerV) -> bool {
    |p: PeerV| p.conn != c
}

/// The subsequence of `ps` whose members satisfy `pred`, in order.
pub open spec fn spec_retain<T>(ps: Seq<T>, pred: spec_fn(T) -> bool) -> Seq<T>
    decreases ps.len(),
{
    if ps.len() == 0 {
        Seq::empty()
    } else if pred(ps[0]) {
        seq![ps[0]] + spec_retain(ps.drop_first(), pred)
    } else {
        spec_retain(ps.drop_first(), pred)
    }
}

/// Every member of the retained sequence satisfies the predicate.
pub proof fn lemma_retain_pred<T>(ps: Seq<T>, pred: spec_fn(T) -> bool)
    ensures
        forall|k: int|
            0 <= k < spec_retain(ps, pred).len() ==> pred(#[trigger] spec_retain(ps, pred)[k]),
    decreases ps.len(),
{
    let r = spec_retain(ps, pred);
    if ps.len() > 0 {
        lemma_retain_pred(ps.drop_first(), pred);
        let tail = spec_retain(ps.drop_first(), pred);
        assert forall|k: int| 0 <= k < r.len() implies pred(r[k]) by {
            if pred(ps[0]) {
                if k == 0 {
                    assert(r[0] == ps[0]);
                } else {
                    assert(r[k] == tail[k - 1]);
                }
            } else {
                assert(r[k] == tail[k]);
            }
        }
    }
}

/// Every member of the retained sequence is a member of the original.
pub proof fn lemma_retain_subset<T>(ps: Seq<T>, pred: spec_fn(T) -> bool)
    ensures
        forall|k: int|
            0 <= k < spec_retain(ps, pred).len() ==> ps.contains(
                #[trigger] spec_retain(ps, pred)[k],
            ),
    decreases ps.len(),
{
    let r = spec_retain(ps, pred);
    if ps.len() > 0 {
        lemma_retain_subset(ps.drop_first(), pred);
        assert forall|k: int| 0 <= k < r.len() implies ps.contains(r[k]) by {
            if pred(ps[0]) && k == 0 {
                assert(r[0] == ps[0]);
                assert(ps[0] == ps[0]);
            } else {
                let tail = spec_retain(ps.drop_first(), pred);
                let kk: int = if pred(ps[0]) {
                    k - 1
                } else {
                    k
                };
                assert(tail[kk] == r[k]);
                assert(ps.drop_first().contains(tail[kk]));
                let j = choose|j: int|
                    0 <= j < ps.drop_first().len() && ps.drop_first()[j] == tail[kk];
                assert(ps[j + 1] == tail[kk]);
            }
        }
    }
}

/// Every member of the original that satisfies the predicate stays in the
/// retained sequence.
pub proof fn lemma_retain_keeps<T>(ps: Seq<T>, pred: spec_fn(T) -> bool)
    ensures
        forall|j: int|
            0 <= j < ps.len() && pred(#[trigger] ps[j]) ==> spec_retain(ps, pred).contains(ps[j]),
    decreases ps.len(),
{
    let r = spec_retain(ps, pred);
    if ps.len() > 0 {
        lemma_retain_keeps(ps.drop_first(), pred);
        assert forall|j: int| 0 <= j < ps.len() && pred(ps[j]) implies r.contains(ps[j]) by {
            if j == 0 {
                assert(r[0] == ps[0]);
            } else {
                assert(ps.drop_first()[j - 1] == ps[j]);
                let tail = spec_retain(ps.drop_first(), pred);
                assert(tail.contains(ps[j]));
                let k = choose|k: int| 0 <= k < tail.len() && tail[k] == ps[j];
                if pred(ps[0]) {
                    assert(r[k + 1] == tail[k]);
                } else {
                    assert(r[k] == tail[k]);
                }
            }
        }
    }
}

// ------------------------------------------------------------------
// The registry.
// ------------------------------------------------------------------

/// Builds the subsequence of `peers` whose address is not `a`.
fn retain_not_addr(peers: &Vec<Peer>, a: SockAddr) -> (r: Vec<Peer>)
    ensures
        r.deep_view() == spec_retain(peers.deep_view(), not_addr(a)),
{
    let ghost full = peers.deep_view();
    let mut r: Vec<Peer> = Vec::new();
    let mut i: usize = 0;
    proof {
        assert(full.skip(0) =~= full);
        assert(r.deep_view() =~= Seq::<PeerV>::empty());
        assert(Seq::<PeerV>::empty() + spec_retain(full, not_addr(a)) =~= spec_retain(
            full,
            not_addr(a),
        ));
    }
    while i < peers.len()
        invariant
            i <= peers.len(),
            full == peers.deep_view(),
            spec_retain(full, not_addr(a)) == r.deep_view() + spec_retain(
                full.skip(i as int),
                not_addr(a),
            ),
        decreases peers.len() - i,
    {
        let ghost pre = r.deep_view();
        if !(peers[i].server_addr == a) {
            r.push(peers[i].duplicate());
        }
        proof {
            assert(full.skip(i as int)[0] == full[i as int]);
            assert(full.skip(i as int).drop_first() =~= full.skip(i + 1 as int));
            if full[i as int].server_addr != a {
                assert(r.deep_view() =~= pre.push(full[i as int]));
                assert(pre + (seq![full[i as int]] + spec_retain(
                    full.skip(i + 1 as int),
                    not_addr(a),
                )) =~= r.deep_view() + spec_retain(full.skip(i + 1 as int), not_addr(a)));
            }
        }
        i = i + 1;
    }
    proof {
        assert(full.skip(full.len() as int) =~= Seq::<PeerV>::empty());
        assert(r.deep_view() + Seq::<PeerV>::empty() =~= r.deep_view());
    }
    r
}

/// Builds the subsequence of `peers` whose connection handle is not `c`.
fn retain_not_conn(peers: &Vec<Peer>, c: u64) -> (r: Vec<Peer>)
    ensures
        r.deep_view() == spec_retain(peers.deep_view(), not_conn(c)),
{
    let ghost full = peers.deep_view();
    let mut r: Vec<Peer> = Vec::new();
    let mut i: usize = 0;
    proof {
        assert(full.skip(0) =~= full);
        assert(r.deep_view() =~= Seq::<PeerV>::empty());
        assert(Seq::<PeerV>::empty() + spec_retain(full, not_conn(c)) =~= spec_retain(
            full,
            not_conn(c),
        ));
    }
    while i < peers.len()
        invariant
            i <= peers.len(),
            full == peers.deep_view(),
            spec_retain(full, not_conn(c)) == r.deep_view() + spec_retain(
                full.skip(i as int),
                not_conn(c),
            ),
        decreases peers.len() - i,
    {
        let ghost pre = r.deep_view();
        if !(peers[i].conn == c) {
            r.push(peers[i].duplicate());
        }
        proof {
            assert(full.skip(i as int)[0] == full[i as int]);
            assert(full.skip(i as int).drop_first() =~= full.skip(i + 1 as int));
            if full[i as int].conn != c {
                assert(r.deep_view() =~= pre.push(full[i as int]));
                assert(pre + (seq![full[i as int]] + spec_retain(
                    full.skip(i + 1 as int),
                    not_conn(c),
                )) =~= r.deep_view() + spec_retain(full.skip(i + 1 as int), not_conn(c)));
            }
        }
        i = i + 1;
    }
    proof {
        assert(full.skip(full.len() as int) =~= Seq::<PeerV>::empty());
        assert(r.deep_view() + Seq::<PeerV>::empty() =~= r.deep_view());
    }
    r
}

/// The tracker's registry of connected peers.
#[derive(Debug)]
pub struct Context {
    peers: Vec<Peer>,
}

impl View for Context {
    type V = Seq<PeerV>;

    closed spec fn view(&self) -> Seq<PeerV> {
        self.peers.deep_view()
    }
}

impl Default for Context {
    /// An empty registry.
    fn default() -> (r: Context)
        ensures
            r@ == Seq::<PeerV>::empty(),
            r.wf(),
    {
        Context::new()
    }
}

impl Context {
    /// The registry holds at most one peer per address.
    pub open spec fn wf(&self) -> bool {
        addrs_unique(self@)
    }

    /// An empty registry.
    pub fn new() -> (r: Context)
        ensures
            r@ == Seq::<PeerV>::empty(),
            r.wf(),
    {
        let r = Context { peers: Vec::new() };
        proof {
            assert(r@ =~= Seq::<PeerV>::empty());
        }
        r
    }

    /// The index of the peer registered under `sock`, if any.
    fn find_peer(&self, sock: SockAddr) -> (r: Option<usize>)
        ensures
            match r {
                Some(i) => i < self@.len() && self@[i as int].server_addr == sock,
                None => !addr_in(self@, sock),
            },
    {
        let mut i: usize = 0;
        while i < self.peers.len()
            invariant
                i <= self.peers.len(),
                forall|j: int| 0 <= j < i ==> self@[j].server_addr != sock,
            decreases self.peers.len() - i,
        {
            if self.peers[i].server_addr == sock {
                return Some(i);
            }
            i = i + 1;
        }
        None
    }

    /// Whether a peer is registered under `sock`.
    pub fn contains_addr(&self, sock: SockAddr) -> (b: bool)
        ensures
            b == addr_in(self@, sock),
    {
        match self.find_peer(sock) {
            Some(_) => true,
            None => false,
        }
    }

    /// How many peers are registered.
    pub fn peer_count(&self) -> (n: usize)
        ensures
            n == self@.len(),
    {
        self.peers.len()
    }

    /// Registers a peer under its advertised address, silently replacing
    /// any earlier entry under the same address.
    pub fn register_peer(&mut self, new_peer: Peer)
        requires
            old(self).wf(),
        ensures
            final(self)@ == spec_retain(old(self)@, not_addr(new_peer@.server_addr)).push(
                new_peer@,
            ),
            final(self).wf(),
    {
        let kept = retain_not_addr(&self.peers, new_peer.server_addr);
        proof {
            lemma_retain_unique(old(self)@, not_addr(new_peer@.server_addr));
            lemma_retain_pred(old(self)@, not_addr(new_peer@.server_addr));
        }
        self.peers = kept;
        self.peers.push(new_peer);
        proof {
            let r = spec_retain(old(self)@, not_addr(new_peer@.server_addr));
            assert(self@ =~= r.push(new_peer@));
            assert forall|i: int, j: int|
                0 <= i < j < self@.len() implies self@[i].server_addr != self@[j].server_addr by {
                if j == r.len() {
                    assert(not_addr(new_peer@.server_addr)(r[i]));
                }
            }
        }
    }

    /// The broadcast a fresh registration owes the present peers: each
    /// one's session is to be told the newcomer's address and file list.
    pub fn broadcast_register(&self, new_peer: &Peer) -> (plan: Vec<Notification>)
        ensures
            plan.deep_view() == Seq::new(
                self@.len(),
                |i: int|
                    NotificationV {
                        conn: self@[i].conn,
                        msg: server::MessageV::RegisterPeer(
                            server::RegisterPeerV {
                                sock: new_peer@.server_addr,
                                file_list: new_peer@.files,
                            },
                        ),
                    },
            ),
    {
        let ghost want = Seq::new(
            self@.len(),
            |i: int|
                NotificationV {
                    conn: self@[i].conn,
                    msg: server::MessageV::RegisterPeer(
                        server::RegisterPeerV {
                            sock: new_peer@.server_addr,
                            file_list: new_peer@.files,
                        },
                    ),
                },
        );
        let mut plan: Vec<Notification> = Vec::new();
        let mut i: usize = 0;
        while i < self.peers.len()
            invariant
                i <= self.peers.len(),
                want == Seq::new(
                    self@.len(),
                    |i: int|
                        NotificationV {
                            conn: self@[i].conn,
                            msg: server::MessageV::RegisterPeer(
                                server::RegisterPeerV {
                                    sock: new_peer@.server_addr,
                                    file_list: new_peer@.files,
                                },
                            ),
                        },
                ),
                plan.deep_view() == want.take(i as int),
            decreases self.peers.len() - i,
        {
            let c = self.peers[i].conn;
            let fl = duplicate_files(&new_peer.files);
            let msg = server::Message::RegisterPeer(
                server::RegisterPeer { sock: new_peer.server_addr, file_list: fl },
            );
            let ghost nv = NotificationV {
                conn: c,
                msg: server::MessageV::RegisterPeer(
                    server::RegisterPeerV {
                        sock: new_peer@.server_addr,
                        file_list: new_peer@.files,
                    },
                ),
            };
            proof {
                assert(msg@ == nv.msg);
            }
            let ghost pre = plan.deep_view();
            plan.push(Notification { conn: c, msg });
            proof {
                assert(plan.deep_view() =~= pre.push(nv));
                assert(want[i as int] == nv);
                assert(want.take(i + 1 as int) =~= want.take(i as int).push(want[i as int]));
            }
            i = i + 1;
        }
        proof {
            assert(plan.deep_view() =~= want);
        }
        plan
    }

    /// The welcome a fresh registration owes the newcomer: its session,
    /// holding connection `to_conn`, is to be told every present peer's
    /// address and file list.
    pub fn roster_messages(&self, to_conn: u64) -> (plan: Vec<Notification>)
        ensures
            plan.deep_view() == Seq::new(
                self@.len(),
                |i: int|
                    NotificationV {
                        conn: to_conn,
                        msg: server::MessageV::RegisterPeer(
                            server::RegisterPeerV {
                                sock: self@[i].server_addr,
                                file_list: self@[i].files,
                            },
                        ),
                    },
            ),
    {
        let ghost want = Seq::new(
            self@.len(),
            |i: int|
                NotificationV {
                    conn: to_conn,
                    msg: server::MessageV::RegisterPeer(
                        server::RegisterPeerV {
                            sock: self@[i].server_addr,
                            file_list: self@[i].files,
                        },
                    ),
                },
        );
        let mut plan: Vec<Notification> = Vec::new();
        let mut i: usize = 0;
        while i < self.peers.len()
            invariant
                i <= self.peers.len(),
                want == Seq::new(
                    self@.len(),
                    |i: int|
                        NotificationV {
                            conn: to_conn,
                            msg: server::MessageV::RegisterPeer(
                                server::RegisterPeerV {
                                    sock: self@[i].server_addr,
                                    file_list: self@[i].files,
                                },
                            ),
                        },
                ),
                plan.deep_view() == want.take(i as int),
            decreases self.peers.len() - i,
        {
            let p = &self.peers[i];
            let fl = duplicate_files(&p.files);
            let msg = server::Message::RegisterPeer(
                server::RegisterPeer { sock: p.server_addr, file_list: fl },
            );
            let ghost nv = NotificationV {
                conn: to_conn,
                msg: server::MessageV::RegisterPeer(
                    server::RegisterPeerV {
                        sock: self@[i as int].server_addr,
                        file_list: self@[i as int].files,
                    },
                ),
            };
            proof {
                assert(msg@ == nv.msg);
            }
            let ghost pre = plan.deep_view();
            plan.push(Notification { conn: to_conn, msg });
            proof {
                assert(plan.deep_view() =~= pre.push(nv));
                assert(want[i as int] == nv);
                assert(want.take(i + 1 as int) =~= want.take(i as int).push(want[i as int]));
            }
            i = i + 1;
        }
        proof {
            assert(plan.deep_view() =~= want);
        }
        plan
    }

    /// Drops every peer reached over connection `c` — the self-healing
    /// step after a write found the connection closed.  No other peer is
    /// touched, so a failed delivery never aborts the rest of a
    /// broadcast.
    pub fn remove_conn(&mut self, c: u64)
        requires
            old(self).wf(),
        ensures
            final(self)@ == spec_retain(old(self)@, not_conn(c)),
            final(self).wf(),
    {
        let kept = retain_not_conn(&self.peers, c);
        proof {
            lemma_retain_unique(old(self)@, not_conn(c));
        }
        self.peers = kept;
    }

    /// Replaces the file list of the peer registered under `sock`.
    /// Unknown addresses are rejected: updating is strict, never an
    /// implicit registration.
    pub fn update_peer(&mut self, sock: SockAddr, files: Vec<File>) -> (r: Result<
        (),
        RegistryError,
    >)
        requires
            old(self).wf(),
        ensures
            final(self).wf(),
            addr_in(old(self)@, sock) ==> r is Ok && final(self)@ == Seq::new(
                old(self)@.len(),
                |i: int|
                    if old(self)@[i].server_addr == sock {
                        PeerV {
                            server_addr: sock,
                            files: files.deep_view(),
                            conn: old(self)@[i].conn,
                        }
                    } else {
                        old(self)@[i]
                    },
            ),
            !addr_in(old(self)@, sock) ==> r == Err::<(), RegistryError>(
                RegistryError::UnknownPeer,
            ) && final(self)@ == old(self)@,
    {
        let i = match self.find_peer(sock) {
            Some(i) => i,
            None => {
                return Err(RegistryError::UnknownPeer);
            },
        };
        let conn = self.peers[i].conn;
        let old_peer = self.peers.remove(i);
        self.peers.insert(i, Peer { server_addr: sock, files, conn });
        proof {
            assert(addr_in(old(self)@, sock)) by {
                assert(old(self)@[i as int].server_addr == sock);
            }
            let want = Seq::new(
                old(self)@.len(),
                |j: int|
                    if old(self)@[j].server_addr == sock {
                        PeerV {
                            server_addr: sock,
                            files: files.deep_view(),
                            conn: old(self)@[j].conn,
                        }
                    } else {
                        old(self)@[j]
                    },
            );
            assert forall|j: int| 0 <= j < want.len() implies self@[j] == want[j] by {
                if j != i {
                    assert(old(self)@[j].server_addr != sock);
                }
            }
            assert(self@ =~= want);
            assert forall|a: int, b: int|
                0 <= a < b < self@.len() implies self@[a].server_addr != self@[b].server_addr by {
                assert(self@[a].server_addr == old(self)@[a].server_addr);
                assert(self@[b].server_addr == old(self)@[b].server_addr);
            }
        }
        Ok(())
    }

    /// Removes and returns the peer registered under `sock`.  Removing an
    /// unknown address is a caller error.
    pub fn remove_peer(&mut self, sock: SockAddr) -> (r: Result<Peer, RegistryError>)
        requires
            old(self).wf(),
        ensures
            final(self).wf(),
            addr_in(old(self)@, sock) ==> (r matches Ok(p) && p@.server_addr == sock && old(
                self,
            )@.contains(p@) && final(self)@ == spec_retain(old(self)@, not_addr(sock))),
            !addr_in(old(self)@, sock) ==> r == Err::<Peer, RegistryError>(
                RegistryError::UnknownPeer,
            ) && final(self)@ == old(self)@,
    {
        let i = match self.find_peer(sock) {
            Some(i) => i,
            None => {
                return Err(RegistryError::UnknownPeer);
            },
        };
        let p = self.peers[i].duplicate();
        let kept = retain_not_addr(&self.peers, sock);
        proof {
            lemma_retain_unique(old(self)@, not_addr(sock));
            assert(addr_in(old(self)@, sock)) by {
                assert(old(self)@[i as int].server_addr == sock);
            }
            assert(old(self)@.contains(p@)) by {
                assert(old(self)@[i as int] == p@);
            }
        }
        self.peers = kept;
        Ok(p)
    }
}

/// Retaining keeps addresses pairwise distinct.
pub proof fn lemma_retain_unique(ps: Seq<PeerV>, pred: spec_fn(PeerV) -> bool)
    requires
        addrs_unique(ps),
    ensures
        addrs_unique(spec_retain(ps, pred)),
    decreases ps.len(),
{
    let r = spec_retain(ps, pred);
    if ps.len() > 0 {
        assert(addrs_unique(ps.drop_first())) by {
            assert forall|i: int, j: int|
                0 <= i < j < ps.drop_first().len() implies #[trigger] ps.drop_first()[i].server_addr
                != #[trigger] ps.drop_first()[j].server_addr by {
                assert(ps.drop_first()[i] == ps[i + 1]);
                assert(ps.drop_first()[j] == ps[j + 1]);
                assert(ps[i + 1].server_addr != ps[j + 1].server_addr);
            }
        }
        lemma_retain_unique(ps.drop_first(), pred);
        let tail = spec_retain(ps.drop_first(), pred);
        if pred(ps[0]) {
            lemma_retain_subset(ps.drop_first(), pred);
            assert forall|i: int, j: int|
                0 <= i < j < r.len() implies r[i].server_addr != r[j].server_addr by {
                if i == 0 {
                    assert(r[j] == tail[j - 1]);
                    assert(ps.drop_first().contains(tail[j - 1]));
                    let k = choose|k: int|
                        0 <= k < ps.drop_first().len() && ps.drop_first()[k] == tail[j - 1];
                    assert(ps[k + 1] == tail[j - 1]);
                    assert(ps[0].server_addr != ps[k + 1].server_addr);
                } else {
                    assert(r[i] == tail[i - 1]);
                    assert(r[j] == tail[j - 1]);
                }
            }
        }
    }
}

// ------------------------------------------------------------------
// The broadcast protocol's guarantees.
// ------------------------------------------------------------------

/// The set of addresses registered in `ps`.
pub open spec fn spec_addrs(ps: Seq<PeerV>) -> Set<SockAddr> {
    Set::new(|a: SockAddr| addr_in(ps, a))
}

/// The addresses peer `i` hears about when the peers of `ps` register
/// one after another: by [`Context::roster_messages`] it is told of every
/// peer registered before it, and by [`Context::broadcast_register`] of
/// every peer registered after it.
pub open spec fn spec_notified(ps: Seq<PeerV>, i: int) -> Set<SockAddr> {
    Set::new(
        |a: SockAddr|
            exists|j: int| 0 <= j < ps.len() && j != i && ps[j].server_addr == a,
    )
}

/// Registry convergence: when the peers of `ps` register one after
/// another, with distinct addresses and no delivery failures, every
/// peer's received notification set is exactly the final registered
/// address set minus its own address.
pub proof fn lemma_registry_convergence(ps: Seq<PeerV>, i: int)
    requires
        addrs_unique(ps),
        0 <= i < ps.len(),
    ensures
        spec_notified(ps, i) =~= spec_addrs(ps).remove(ps[i].server_addr),
{
    assert forall|a: SockAddr|
        spec_notified(ps, i).contains(a) <==> spec_addrs(ps).remove(
            ps[i].server_addr,
        ).contains(a) by {
        if spec_notified(ps, i).contains(a) {
            let j = choose|j: int| 0 <= j < ps.len() && j != i && ps[j].server_addr == a;
            assert(addr_in(ps, a)) by {
                assert(0 <= j < ps.len() && ps[j].server_addr == a);
            }
            assert(a != ps[i].server_addr) by {
                if j < i {
                    assert(ps[j].server_addr != ps[i].server_addr);
                } else {
                    assert(ps[i].server_addr != ps[j].server_addr);
                }
            }
        }
        if spec_addrs(ps).remove(ps[i].server_addr).contains(a) {
            let k = choose|k: int| 0 <= k < ps.len() && ps[k].server_addr == a;
            assert(k != i);
            assert(spec_notified(ps, i).contains(a)) by {
                assert(0 <= k < ps.len() && k != i && ps[k].server_addr == a);
            }
        }
    }
}

/// Broadcast fault isolation: dropping the connection of a peer that
/// could not be written to removes exactly the peers behind that
/// connection; every other registered peer stays.
pub proof fn lemma_fault_isolation(ps: Seq<PeerV>, c: u64)
    ensures
        forall|k: int|
            0 <= k < spec_retain(ps, not_conn(c)).len() ==> #[trigger] spec_retain(
                ps,
                not_conn(c),
            )[k].conn != c,
        forall|j: int|
            0 <= j < ps.len() && (#[trigger] ps[j]).conn != c ==> spec_retain(
                ps,
                not_conn(c),
            ).contains(ps[j]),
{
    lemma_retain_pred(ps, not_conn(c));
    lemma_retain_keeps(ps, not_conn(c));
    assert forall|k: int|
        0 <= k < spec_retain(ps, not_conn(c)).len() implies #[trigger] spec_retain(
        ps,
        not_conn(c),
    )[k].conn != c by {
        assert(not_conn(c)(spec_retain(ps, not_conn(c))[k]));
    }
    assert forall|j: int|
        0 <= j < ps.len() && (#[trigger] ps[j]).conn != c implies spec_retain(
        ps,
        not_conn(c),
    ).contains(ps[j]) by {
        assert(not_conn(c)(ps[j]));
    }
}

} // verus!
