//! The server's session registry: one session per peer address, created
//! lazily on the first datagram from an unknown address and dropped when
//! a session observes a disconnect. The tick-driven broadcast snapshots
//! every session's position and fans a `Refresh` out to all of them.

use vstd::prelude::*;

use crate::packet::{packet_wf, spec_decode, Packet, PacketV};
use crate::proto::{message_wf, spec_encode_message, Message, MessageV};
use crate::session::{reply_matches, spec_after_reply, spec_init, spec_on_packet, Session};

verus! {

/// Peer addresses are pairwise distinct.
pub open spec fn registry_wf(s: Seq<Session>) -> bool {
    forall|i: int, j: int| 0 <= i < j < s.len() ==> s[i].remote != s[j].remote
}

/// Whether some session belongs to `addr`.
pub open spec fn has_session(s: Seq<Session>, addr: u64) -> bool {
    exists|i: int| 0 <= i < s.len() && s[i].remote == addr
}

/// The index of the session that belongs to `addr`.
pub open spec fn index_of(s: Seq<Session>, addr: u64) -> int {
    choose|i: int| 0 <= i < s.len() && s[i].remote == addr
}

/// The session that belongs to `addr`.
pub open spec fn session_for(s: Seq<Session>, addr: u64) -> Session {
    s[index_of(s, addr)]
}

/// The table after the get-or-create step: an unknown address gets a
/// fresh session appended.
pub open spec fn spec_base(s: Seq<Session>, addr: u64) -> Seq<Session> {
    if has_session(s, addr) {
        s
    } else {
        s.push(spec_init(addr))
    }
}

/// One whole inbound step of the registry: get or create the session for
/// `addr`; a datagram that is not a valid packet changes nothing further;
/// otherwise the session takes the packet, and is dropped if it comes out
/// disconnected.
pub open spec fn spec_handle(s: Seq<Session>, addr: u64, datagram: Seq<u8>, nonce: u32) -> (
    Seq<Session>,
    Option<MessageV>,
) {
    let base = spec_base(s, addr);
    let k = index_of(base, addr);
    match spec_decode(datagram) {
        Err(_) => (base, None),
        Ok(p) => {
            let (s2, reply) = spec_on_packet(base[k], p, nonce);
            let s3 = spec_after_reply(s2, reply);
            if s3.disconnected {
                (base.remove(k), reply)
            } else {
                (base.update(k, s3), reply)
            }
        },
    }
}

/// In a well-formed table the index of an address is pinned by any
/// witness.
pub proof fn lemma_index_of_unique(s: Seq<Session>, addr: u64, i: int)
    requires
        registry_wf(s),
        0 <= i < s.len(),
        s[i].remote == addr,
    ensures
        has_session(s, addr),
        index_of(s, addr) == i,
{
    assert(has_session(s, addr));
    let j = index_of(s, addr);
    if i < j {
        assert(s[i].remote != s[j].remote);
    } else if j < i {
        assert(s[j].remote != s[i].remote);
    }
}

/// A session keeps its identity through the inbound step.
proof fn lemma_step_preserves_remote(s: Session, p: PacketV, nonce: u32)
    ensures
        ({
            let (s2, reply) = spec_on_packet(s, p, nonce);
            spec_after_reply(s2, reply).remote == s.remote
        }),
{
}

/// The get-or-create step keeps the table well formed, keeps every other
/// address's session, and puts `addr`'s session at a pinned index.
proof fn lemma_base(s: Seq<Session>, addr: u64)
    requires
        registry_wf(s),
    ensures
        registry_wf(spec_base(s, addr)),
        has_session(spec_base(s, addr), addr),
        spec_base(s, addr)[index_of(spec_base(s, addr), addr)].remote == addr,
        forall|other: u64|
            other != addr ==> #[trigger] has_session(spec_base(s, addr), other) == has_session(
                s,
                other,
            ),
        forall|other: u64|
            other != addr && has_session(s, other) ==> #[trigger] session_for(
                spec_base(s, addr),
                other,
            ) == session_for(s, other),
{
    let base = spec_base(s, addr);
    if has_session(s, addr) {
        assert(base == s);
    } else {
        assert(forall|i: int| 0 <= i < s.len() ==> s[i].remote != addr);
        assert(registry_wf(base));
        assert(base[s.len() as int].remote == addr);
        assert forall|other: u64| other != addr implies #[trigger] has_session(base, other)
            == has_session(s, other) by {
            if has_session(base, other) {
                let i = choose|i: int| 0 <= i < base.len() && base[i].remote == other;
                assert(i < s.len() && s[i].remote == other);
                assert(has_session(s, other));
            }
            if has_session(s, other) {
                let i = choose|i: int| 0 <= i < s.len() && s[i].remote == other;
                assert(base[i].remote == other);
                assert(has_session(base, other));
            }
        }
        assert forall|other: u64| other != addr && has_session(s, other) implies #[trigger]
            session_for(base, other) == session_for(s, other) by {
            let i = index_of(s, other);
            assert(0 <= i < s.len() && s[i].remote == other);
            assert(base[i].remote == other);
            lemma_index_of_unique(base, other, i);
        }
    }
    let k = index_of(base, addr);
    assert(0 <= k < base.len() && base[k].remote == addr);
}

/// The inbound step keeps the table well formed.
pub proof fn lemma_handle_wf(s: Seq<Session>, addr: u64, datagram: Seq<u8>, nonce: u32)
    requires
        registry_wf(s),
    ensures
        registry_wf(spec_handle(s, addr, datagram, nonce).0),
{
    lemma_base(s, addr);
    let base = spec_base(s, addr);
    let k = index_of(base, addr);
    match spec_decode(datagram) {
        Err(_) => {},
        Ok(p) => {
            lemma_step_preserves_remote(base[k], p, nonce);
            let (s2, reply) = spec_on_packet(base[k], p, nonce);
            let s3 = spec_after_reply(s2, reply);
            if s3.disconnected {
                base.remove_ensures(k);
                let r = base.remove(k);
                assert forall|i: int, j: int| 0 <= i < j < r.len() implies r[i].remote
                    != r[j].remote by {
                    let i0 = if i < k {
                        i
                    } else {
                        i + 1
                    };
                    let j0 = if j < k {
                        j
                    } else {
                        j + 1
                    };
                    assert(r[i] == base[i0] && r[j] == base[j0]);
                    assert(base[i0].remote != base[j0].remote);
                }
            } else {
                let r = base.update(k, s3);
                assert(forall|i: int| 0 <= i < r.len() ==> r[i].remote == base[i].remote);
            }
        },
    }
}

/// Session isolation: the inbound step for one peer neither creates,
/// drops, nor alters any other peer's session.
pub proof fn lemma_session_isolation(
    s: Seq<Session>,
    addr: u64,
    datagram: Seq<u8>,
    nonce: u32,
    other: u64,
)
    requires
        registry_wf(s),
        other != addr,
    ensures
        ({
            let r = spec_handle(s, addr, datagram, nonce).0;
            &&& has_session(r, other) == has_session(s, other)
            &&& has_session(s, other) ==> session_for(r, other) == session_for(s, other)
        }),
{
    lemma_base(s, addr);
    let base = spec_base(s, addr);
    let k = index_of(base, addr);
    let r = spec_handle(s, addr, datagram, nonce).0;
    match spec_decode(datagram) {
        Err(_) => {},
        Ok(p) => {
            lemma_step_preserves_remote(base[k], p, nonce);
            let (s2, reply) = spec_on_packet(base[k], p, nonce);
            let s3 = spec_after_reply(s2, reply);
            if s3.disconnected {
                base.remove_ensures(k);
                if has_session(base, other) {
                    let i = index_of(base, other);
                    assert(0 <= i < base.len() && base[i].remote == other);
                    assert(i != k);
                    if i < k {
                        assert(r[i] == base[i]);
                    } else {
                        assert(r[i - 1] == base[i]);
                    }
                    assert(has_session(r, other));
                }
                if has_session(r, other) {
                    let i = choose|i: int| 0 <= i < r.len() && r[i].remote == other;
                    let i0 = if i < k {
                        i
                    } else {
                        i + 1
                    };
                    assert(r[i] == base[i0]);
                    assert(has_session(base, other));
                }
                assert(has_session(r, other) == has_session(base, other));
                if has_session(base, other) {
                    let i = index_of(base, other);
                    assert(0 <= i < base.len() && base[i].remote == other);
                    assert(i != k);
                    lemma_handle_wf(s, addr, datagram, nonce);
                    if i < k {
                        assert(r[i] == base[i]);
                        lemma_index_of_unique(r, other, i);
                    } else {
                        assert(r[i - 1] == base[i]);
                        lemma_index_of_unique(r, other, i - 1);
                    }
                }
            } else {
                assert(forall|i: int| 0 <= i < r.len() ==> r[i].remote == base[i].remote);
                if has_session(base, other) {
                    let i = index_of(base, other);
                    assert(0 <= i < base.len() && base[i].remote == other);
                    assert(i != k);
                    assert(r[i] == base[i]);
                    lemma_handle_wf(s, addr, datagram, nonce);
                    lemma_index_of_unique(r, other, i);
                }
                if has_session(r, other) {
                    let i = choose|i: int| 0 <= i < r.len() && r[i].remote == other;
                    assert(base[i].remote == other);
                    assert(has_session(base, other));
                }
            }
        },
    }
}

/// The snapshot the tick loop broadcasts: every session's position, in
/// table order.
pub open spec fn positions_of(s: Seq<Session>) -> Seq<(i32, i32)> {
    s.map_values(|x: Session| (x.x, x.y))
}

/// The table of live sessions, keyed by peer address.
#[derive(Debug)]
pub struct Registry {
    pub sessions: Vec<Session>,
}

impl Registry {
    /// Peer addresses are pairwise distinct.
    pub open spec fn wf(&self) -> bool {
        registry_wf(self.sessions@)
    }

    /// An empty table.
    pub fn new() -> (r: Registry)
        ensures
            r.wf(),
            r.sessions@ =~= Seq::<Session>::empty(),
    {
        Registry { sessions: Vec::new() }
    }

    /// The index of `addr`'s session, if one exists.
    fn find(&self, addr: u64) -> (r: Option<usize>)
        requires
            self.wf(),
        ensures
            match r {
                Some(i) => i < self.sessions@.len() && self.sessions@[i as int].remote == addr
                    && has_session(self.sessions@, addr) && index_of(self.sessions@, addr)
                    == i as int,
                None => !has_session(self.sessions@, addr),
            },
    {
        let mut i: usize = 0;
        while i < self.sessions.len()
            invariant
                self.wf(),
                i <= self.sessions@.len(),
                forall|j: int| 0 <= j < i ==> self.sessions@[j].remote != addr,
            decreases self.sessions@.len() - i,
        {
            if self.sessions[i].remote == addr {
                proof {
                    lemma_index_of_unique(self.sessions@, addr, i as int);
                }
                return Some(i);
            }
            i = i + 1;
        }
        None
    }

    /// The inbound step with the fresh nonce supplied by the caller:
    /// deterministic, so its outcome is pinned by `spec_handle`.
    pub fn handle_datagram_with(&mut self, addr: u64, datagram: &[u8], fresh_nonce: u32) -> (r:
        Option<Packet>)
        requires
            old(self).wf(),
        ensures
            final(self).wf(),
            ({
                let (s2, reply) = spec_handle(old(self).sessions@, addr, datagram@, fresh_nonce);
                let base = spec_base(old(self).sessions@, addr);
                &&& final(self).sessions@ == s2
                &&& reply_matches(r, reply, session_for(base, addr).server_sequence)
            }),
    {
        proof {
            lemma_base(old(self).sessions@, addr);
            lemma_handle_wf(old(self).sessions@, addr, datagram@, fresh_nonce);
        }
        let k: usize = match self.find(addr) {
            Some(i) => i,
            None => {
                let len = self.sessions.len();
                self.sessions.push(Session::new(addr));
                proof {
                    lemma_index_of_unique(self.sessions@, addr, len as int);
                }
                len
            },
        };
        let ghost base = self.sessions@;
        assert(base == spec_base(old(self).sessions@, addr));
        assert(k as int == index_of(base, addr));
        match Packet::from_bytes(datagram) {
            Err(_) => None,
            Ok(p) => {
                let mut sess = self.sessions[k];
                let reply = sess.on_packet(&p, fresh_nonce);
                if sess.disconnected() {
                    self.sessions.remove(k);
                } else {
                    self.sessions[k] = sess;
                }
                reply
            },
        }
    }

    /// The inbound step as the socket reader calls it: the nonce a new
    /// negotiation would use is drawn fresh, so the outcome holds for
    /// some nonce.
    pub fn handle_datagram(&mut self, addr: u64, datagram: &[u8]) -> (r: Option<Packet>)
        requires
            old(self).wf(),
        ensures
            final(self).wf(),
            exists|nonce: u32|
                {
                    &&& final(self).sessions@ == (#[trigger] spec_handle(
                        old(self).sessions@,
                        addr,
                        datagram@,
                        nonce,
                    )).0
                    &&& reply_matches(
                        r,
                        spec_handle(old(self).sessions@, addr, datagram@, nonce).1,
                        session_for(spec_base(old(self).sessions@, addr), addr).server_sequence,
                    )
                },
    {
        let nonce = fresh_nonce();
        let r = self.handle_datagram_with(addr, datagram, nonce);
        proof {
            let (s2, reply) = spec_handle(old(self).sessions@, addr, datagram@, nonce);
            let base = spec_base(old(self).sessions@, addr);
            assert(final(self).sessions@ == s2 && reply_matches(
                r,
                reply,
                session_for(base, addr).server_sequence,
            ));
        }
        r
    }

    /// Builds one packet carrying `msg` for every session, in table
    /// order; each session's outbound counter advances once.
    pub fn broadcast(&mut self, msg: &Message) -> (r: Vec<(u64, Packet)>)
        requires
            old(self).wf(),
            message_wf(msg@),
        ensures
            final(self).wf(),
            final(self).sessions@.len() == old(self).sessions@.len(),
            forall|i: int|
                0 <= i < old(self).sessions@.len() ==> #[trigger] final(self).sessions@[i] == (
                Session {
                    server_sequence: old(self).sessions@[i].server_sequence.wrapping_add(1),
                    ..old(self).sessions@[i]
                }),
            r@.len() == old(self).sessions@.len(),
            forall|i: int|
                0 <= i < r@.len() ==> {
                    &&& (#[trigger] r@[i]).0 == old(self).sessions@[i].remote
                    &&& r@[i].1.sequence_number == old(self).sessions@[i].server_sequence
                    &&& r@[i].1.message@ == spec_encode_message(msg@)
                    &&& packet_wf(r@[i].1@)
                },
    {
        let mut out: Vec<(u64, Packet)> = Vec::new();
        let mut i: usize = 0;
        while i < self.sessions.len()
            invariant
                message_wf(msg@),
                i <= self.sessions@.len(),
                self.sessions@.len() == old(self).sessions@.len(),
                out@.len() == i,
                forall|j: int|
                    i <= j < self.sessions@.len() ==> #[trigger] self.sessions@[j] == old(
                        self,
                    ).sessions@[j],
                forall|j: int|
                    0 <= j < i ==> #[trigger] self.sessions@[j] == (Session {
                        server_sequence: old(self).sessions@[j].server_sequence.wrapping_add(1),
                        ..old(self).sessions@[j]
                    }),
                forall|j: int|
                    0 <= j < i ==> {
                        &&& (#[trigger] out@[j]).0 == old(self).sessions@[j].remote
                        &&& out@[j].1.sequence_number == old(self).sessions@[j].server_sequence
                        &&& out@[j].1.message@ == spec_encode_message(msg@)
                        &&& packet_wf(out@[j].1@)
                    },
            decreases self.sessions@.len() - i,
        {
            let mut sess = self.sessions[i];
            let packet = sess.send(msg);
            self.sessions[i] = sess;
            out.push((sess.remote, packet));
            i = i + 1;
        }
        proof {
            assert(forall|i: int|
                0 <= i < final(self).sessions@.len() ==> final(self).sessions@[i].remote == old(
                    self,
                ).sessions@[i].remote);
        }
        out
    }

    /// One tick: snapshot every session's position, then fan a `Refresh`
    /// carrying the snapshot out to every session.
    pub fn tick(&mut self) -> (r: Vec<(u64, Packet)>)
        requires
            old(self).wf(),
            old(self).sessions@.len() * 8 + 5 <= 0xFFFFFFFF,
            old(self).sessions@.len() * 8 + 25 <= usize::MAX,
        ensures
            final(self).wf(),
            final(self).sessions@.len() == old(self).sessions@.len(),
            forall|i: int|
                0 <= i < old(self).sessions@.len() ==> #[trigger] final(self).sessions@[i] == (
                Session {
                    server_sequence: old(self).sessions@[i].server_sequence.wrapping_add(1),
                    ..old(self).sessions@[i]
                }),
            r@.len() == old(self).sessions@.len(),
            forall|i: int|
                0 <= i < r@.len() ==> {
                    &&& (#[trigger] r@[i]).0 == old(self).sessions@[i].remote
                    &&& r@[i].1.sequence_number == old(self).sessions@[i].server_sequence
                    &&& r@[i].1.message@ == spec_encode_message(
                        MessageV::Refresh(positions_of(old(self).sessions@)),
                    )
                    &&& packet_wf(r@[i].1@)
                },
    {
        let mut positions: Vec<(i32, i32)> = Vec::new();
        let mut i: usize = 0;
        while i < self.sessions.len()
            invariant
                i <= self.sessions@.len(),
                positions@ =~= positions_of(self.sessions@).take(i as int),
                self == old(self),
            decreases self.sessions@.len() - i,
        {
            positions.push(self.sessions[i].pos());
            proof {
                assert(positions@ =~= positions_of(self.sessions@).take(i + 1));
            }
            i = i + 1;
        }
        proof {
            assert(positions@ =~= positions_of(self.sessions@));
        }
        let msg = Message::Refresh(positions);
        self.broadcast(&msg)
    }
}

/// Relies on `rand::random`: a uniformly drawn nonce. Nothing is promised
/// of its value.
#[verifier::external_body]
fn fresh_nonce() -> u32 {
    rand::random::<u32>()
}

} // verus!
