//! The per-connection protocol of the ingress socket: a handshake that
//! claims a source name unique over live connections, then batches of
//! messages checked for order and validated one by one.

use crate::frame_messages::{
    error_kind_name, utc_now_text, validation_error, dt_filled, ClientMessage, ClientPayload,
    ErrorFrame, FilterAck, SuccessFrame,
};
use crate::internal_messages::InternalMessage;
use vstd::prelude::*;
use vstd::string::*;

verus! {

/// Whether `s` may be admitted as a new source while `live` are connected.
pub open spec fn admits(live: Set<Seq<char>>, s: Seq<char>) -> bool {
    !live.contains(s)
}

/// The names of the sources with a live connection, each once. They are
/// kept in a `Vec` searched by string equality: vstd's specification of
/// `HashSet` proves nothing about `String` elements.
pub struct SourceRegistry {
    names: Vec<String>,
}

impl SourceRegistry {
    pub closed spec fn live(&self) -> Set<Seq<char>> {
        Set::new(|k: Seq<char>| exists|i: int| 0 <= i < self.names@.len() && self.names@[i]@ == k)
    }

    pub closed spec fn wf(&self) -> bool {
        forall|i: int, j: int|
            0 <= i < self.names@.len() && 0 <= j < self.names@.len() && i != j
                ==> #[trigger] self.names@[i]@ != #[trigger] self.names@[j]@
    }

    pub fn new() -> (r: SourceRegistry)
        ensures
            r.wf(),
            r.live() == Set::<Seq<char>>::empty(),
    {
        let r = SourceRegistry { names: Vec::new() };
        assert(r.live() =~= Set::<Seq<char>>::empty());
        r
    }

    fn find(&self, source: &str) -> (r: Option<usize>)
        requires
            self.wf(),
        ensures
            r is None <==> !self.live().contains(source@),
            r matches Some(i) ==> i < self.names@.len() && self.names@[i as int]@ == source@,
    {
        let wanted = String::from_str(source);
        let mut i: usize = 0;
        while i < self.names.len()
            invariant
                wanted@ == source@,
                i <= self.names@.len(),
                forall|j: int| 0 <= j < i ==> #[trigger] self.names@[j]@ != source@,
            decreases self.names@.len() - i,
        {
            if self.names[i] == wanted {
                return Some(i);
            }
            i = i + 1;
        }
        None
    }

    pub fn contains(&self, source: &str) -> (r: bool)
        requires
            self.wf(),
        ensures
            r == self.live().contains(source@),
    {
        self.find(source).is_some()
    }

    /// Claims `source` for a new connection; refused when it is already live.
    pub fn claim(&mut self, source: &str) -> (r: bool)
        requires
            old(self).wf(),
        ensures
            final(self).wf(),
            r == admits(old(self).live(), source@),
            r ==> final(self).live() == old(self).live().insert(source@),
            !r ==> final(self).live() == old(self).live(),
    {
        if self.find(source).is_some() {
            return false;
        }
        let ghost before = self.names@;
        self.names.push(String::from_str(source));
        assert(self.live() =~= old(self).live().insert(source@)) by {
            assert forall|k: Seq<char>| self.live().contains(k) implies old(self).live().insert(source@).contains(k) by {
                let i = choose|i: int| 0 <= i < self.names@.len() && self.names@[i]@ == k;
                if i < before.len() {
                    assert(before[i]@ == k);
                }
            }
            assert forall|k: Seq<char>| old(self).live().insert(source@).contains(k) implies self.live().contains(k) by {
                if k == source@ {
                    assert(self.names@[before.len() as int]@ == k);
                } else {
                    let i = choose|i: int| 0 <= i < before.len() && before[i]@ == k;
                    assert(self.names@[i]@ == k);
                }
            }
        }
        true
    }

    /// Gives `source` up, when it is live.
    pub fn release(&mut self, source: &str)
        requires
            old(self).wf(),
        ensures
            final(self).wf(),
            final(self).live() == old(self).live().remove(source@),
    {
        let i = match self.find(source) {
            None => {
                assert(self.live() =~= old(self).live().remove(source@));
                return;
            },
            Some(i) => i,
        };
        let ghost before = self.names@;
        self.names.remove(i);
        assert forall|a: int, b: int|
            0 <= a < self.names@.len() && 0 <= b < self.names@.len() && a != b
                implies #[trigger] self.names@[a]@ != #[trigger] self.names@[b]@ by {
            let oa = if a < i { a } else { a + 1 };
            let ob = if b < i { b } else { b + 1 };
            assert(self.names@[a] == before[oa]);
            assert(self.names@[b] == before[ob]);
        }
        assert(self.live() =~= old(self).live().remove(source@)) by {
            assert forall|k: Seq<char>| self.live().contains(k) implies old(self).live().remove(source@).contains(k) by {
                let j = choose|j: int| 0 <= j < self.names@.len() && self.names@[j]@ == k;
                let o = if j < i { j } else { j + 1 };
                assert(self.names@[j] == before[o]);
                assert(before[o]@ != before[i as int]@);
            }
            assert forall|k: Seq<char>| old(self).live().remove(source@).contains(k) implies self.live().contains(k) by {
                let o = choose|o: int| 0 <= o < before.len() && before[o]@ == k;
                assert(o != i);
                let j = if o < i { o } else { o - 1 };
                assert(self.names@[j] == before[o]);
            }
        }
    }
}

/// A second connection that claims the name of a live one is refused,
/// whatever else is live: of two handshakes with one source, only the
/// first is admitted.
pub proof fn lemma_source_unique(live: Set<Seq<char>>, s: Seq<char>)
    requires
        admits(live, s),
    ensures
        !admits(live.insert(s), s),
{
}

/// Once the connection holding a source is gone, the source can be
/// claimed again.
pub proof fn lemma_source_readmitted(live: Set<Seq<char>>, s: Seq<char>)
    ensures
        admits(live.insert(s).remove(s), s),
{
}

/// Where a connection stands.
#[derive(Debug, Clone, Copy, PartialEq, Eq, Structural)]
pub enum Phase {
    /// Waiting for the frame that names the source.
    Handshake,
    /// Source admitted; messages flow.
    Ready,
    /// The connection is to be shut down.
    Closed,
}

/// What became of one message of a batch.
#[derive(Debug, Clone)]
pub enum MessageOutcome {
    /// Valid: relay the payload and reply with the frame.
    Accepted(ClientPayload, SuccessFrame),
    /// Invalid payload: reply with the frame; the connection stays open.
    Rejected(ErrorFrame),
    /// The sequence number went backwards: the connection closes and the
    /// rest of the batch is dropped.
    OutOfOrder(u64),
}

/// Whether a message numbered `seq` may follow one numbered `last`:
/// numbers must grow, except that 1 starts the count again.
pub open spec fn in_sequence(last: u64, seq: u64) -> bool {
    seq > last || seq == 1
}

/// The sequence number in force before the message at `i`.
pub open spec fn last_before(init: u64, msgs: Seq<ClientMessage>, i: int) -> u64 {
    if i <= 0 {
        init
    } else {
        msgs[i - 1].seq_number
    }
}

/// Whether `o` is what becomes of the in-order message `m`.
pub open spec fn outcome_of(o: MessageOutcome, m: ClientMessage, now: Seq<char>) -> bool {
    match validation_error(m.payload) {
        Some(e) => o matches MessageOutcome::Rejected(f) && !f.success && f.seq_number
            == m.seq_number && f.error@ == error_kind_name(e),
        None => o matches MessageOutcome::Accepted(q, ack) && dt_filled(m.payload, q, now) && ack
            == (SuccessFrame { success: true, seq_number: m.seq_number }),
    }
}

/// Whether `r` is what a batch `msgs` yields on a connection whose last
/// sequence number was `init`, and `n` the number of messages taken in order.
pub open spec fn batch_outcome(
    init: u64,
    msgs: Seq<ClientMessage>,
    now: Seq<char>,
    r: Seq<MessageOutcome>,
    n: int,
) -> bool {
    &&& 0 <= n <= msgs.len()
    &&& forall|j: int|
        0 <= j < n ==> in_sequence(last_before(init, msgs, j), #[trigger] msgs[j].seq_number)
    &&& forall|j: int| 0 <= j < n ==> outcome_of(#[trigger] r[j], msgs[j], now)
    &&& n == msgs.len() ==> r.len() == n
    &&& n < msgs.len() ==> {
        &&& !in_sequence(last_before(init, msgs, n), msgs[n].seq_number)
        &&& r.len() == n + 1
        &&& r[n] matches MessageOutcome::OutOfOrder(s) && s == msgs[n].seq_number
    }
}

/// A batch whose sequence numbers are all in order leaves the connection
/// open, whatever its payloads: every message is answered, and one whose
/// payload is refused gets an error frame with its number and the name of
/// the error, and its payload is not relayed.
pub proof fn lemma_refused_payload_keeps_connection(
    init: u64,
    msgs: Seq<ClientMessage>,
    now: Seq<char>,
    r: Seq<MessageOutcome>,
    n: int,
)
    requires
        batch_outcome(init, msgs, now, r, n),
        forall|j: int|
            0 <= j < msgs.len() ==> in_sequence(
                last_before(init, msgs, j),
                #[trigger] msgs[j].seq_number,
            ),
    ensures
        n == msgs.len(),
        r.len() == msgs.len(),
        forall|j: int|
            0 <= j < msgs.len() && validation_error(#[trigger] msgs[j].payload) is Some ==> (
            r[j] matches MessageOutcome::Rejected(f) && !f.success && f.seq_number
                == msgs[j].seq_number && f.error@ == error_kind_name(
                validation_error(msgs[j].payload)->Some_0,
            )),
{
    if n < msgs.len() {
        assert(in_sequence(last_before(init, msgs, n), msgs[n].seq_number));
    }
    assert forall|j: int|
        0 <= j < msgs.len() && validation_error(#[trigger] msgs[j].payload) is Some implies (
        r[j] matches MessageOutcome::Rejected(f) && !f.success && f.seq_number
            == msgs[j].seq_number && f.error@ == error_kind_name(
            validation_error(msgs[j].payload)->Some_0,
        )) by {
        assert(outcome_of(r[j], msgs[j], now));
    }
}

/// The state of one ingress connection.
pub struct Session {
    phase: Phase,
    source: Option<String>,
    last_seq_number: u64,
}

impl Session {
    pub closed spec fn phase(&self) -> Phase {
        self.phase
    }

    /// The source this connection holds in the registry, once admitted.
    pub closed spec fn source(&self) -> Option<Seq<char>> {
        match self.source {
            Some(s) => Some(s@),
            None => None,
        }
    }

    pub closed spec fn last_seq(&self) -> u64 {
        self.last_seq_number
    }

    pub closed spec fn wf(&self) -> bool {
        (self.phase == Phase::Ready) ==> self.source is Some
    }

    pub fn new() -> (r: Session)
        ensures
            r.wf(),
            r.phase() == Phase::Handshake,
            r.source() is None,
            r.last_seq() == 0,
    {
        Session { phase: Phase::Handshake, source: None, last_seq_number: 0 }
    }

    pub fn phase_now(&self) -> (r: Phase)
        ensures
            r == self.phase(),
    {
        self.phase
    }

    /// Handles the first frame, which names the source (`None` when it could
    /// not be read as such). Returns whether the connection is admitted; if
    /// so it is Ready and holds the source, else it is Closed and holds none.
    pub fn handshake(&mut self, source: Option<String>, live: &mut SourceRegistry) -> (r: bool)
        requires
            old(self).wf(),
            old(self).phase() == Phase::Handshake,
            old(self).source() is None,
            old(live).wf(),
        ensures
            final(self).wf(),
            final(live).wf(),
            final(self).last_seq() == old(self).last_seq(),
            r == (source matches Some(s) && admits(old(live).live(), s@)),
            r ==> final(self).phase() == Phase::Ready,
            r ==> final(self).source() == Some(source->Some_0@),
            r ==> final(live).live() == old(live).live().insert(source->Some_0@),
            !r ==> final(self).phase() == Phase::Closed,
            !r ==> final(self).source() is None,
            !r ==> final(live).live() == old(live).live(),
    {
        match source {
            None => {
                self.phase = Phase::Closed;
                false
            },
            Some(s) => {
                if live.claim(s.as_str()) {
                    self.source = Some(s);
                    self.phase = Phase::Ready;
                    true
                } else {
                    self.phase = Phase::Closed;
                    false
                }
            },
        }
    }

    /// Handles a frame that read as a filter acknowledgement: forwarded to
    /// the queue when its kind is the acknowledgement kind.
    pub fn forward_filter_ack<R>(&self, ack: FilterAck) -> (r: Option<InternalMessage<R>>)
        ensures
            r is Some <==> ack.kind@ == crate::frame_messages::filter_ack_kind(),
            r matches Some(m) ==> m == InternalMessage::<R>::FilterAck(ack),
    {
        if ack.is_filter_ack() {
            Some(InternalMessage::FilterAck(ack))
        } else {
            None
        }
    }

    /// Handles a batch of messages, validating payloads with `now` as the
    /// collection time where none is given.
    pub fn process_messages(&mut self, messages: Vec<ClientMessage>, now: &str) -> (r: Vec<
        MessageOutcome,
    >)
        requires
            old(self).wf(),
            old(self).phase() == Phase::Ready,
        ensures
            final(self).wf(),
            final(self).source() == old(self).source(),
            exists|n: int|
                {
                    &&& batch_outcome(old(self).last_seq(), messages@, now@, r@, n)
                    &&& final(self).last_seq() == last_before(old(self).last_seq(), messages@, n)
                    &&& final(self).phase() == if n < messages@.len() {
                        Phase::Closed
                    } else {
                        Phase::Ready
                    }
                },
    {
        let ghost msgs = messages@;
        let ghost init = self.last_seq_number;
        let mut out: Vec<MessageOutcome> = Vec::new();
        let mut pending = messages;
        let total = pending.len();
        let mut i: usize = 0;
        while pending.len() > 0
            invariant
                total == msgs.len(),
                msgs == messages@,
                init == old(self).last_seq(),
                self.wf(),
                self.phase == Phase::Ready,
                self.source == old(self).source,
                i + pending@.len() == msgs.len(),
                pending@ == msgs.subrange(i as int, msgs.len() as int),
                out@.len() == i,
                self.last_seq_number == last_before(init, msgs, i as int),
                forall|j: int|
                    0 <= j < i ==> in_sequence(last_before(init, msgs, j), #[trigger] msgs[j].seq_number),
                forall|j: int| 0 <= j < i ==> outcome_of(#[trigger] out@[j], msgs[j], now@),
            decreases pending@.len(),
        {
            let m = pending.remove(0);
            assert(m == msgs[i as int]);
            let seq = m.seq_number;
            if seq <= self.last_seq_number && seq != 1 {
                out.push(MessageOutcome::OutOfOrder(seq));
                self.phase = Phase::Closed;
                assert(batch_outcome(old(self).last_seq(), msgs, now@, out@, i as int));
                assert(self.last_seq() == last_before(old(self).last_seq(), msgs, i as int));
                assert((i as int) < msgs.len());
                assert(exists|n: int|
                    {
                        &&& batch_outcome(old(self).last_seq(), msgs, now@, out@, n)
                        &&& self.last_seq() == last_before(old(self).last_seq(), msgs, n)
                        &&& self.phase() == if n < msgs.len() {
                            Phase::Closed
                        } else {
                            Phase::Ready
                        }
                    }) by {
                    assert(self.phase() == Phase::Closed);
                };
                return out;
            }
            self.last_seq_number = seq;
            let o = match m.payload.validate_at(now) {
                Ok(q) => MessageOutcome::Accepted(q, SuccessFrame { success: true, seq_number: seq }),
                Err(e) => MessageOutcome::Rejected(
                    ErrorFrame { success: false, seq_number: seq, error: e.kind_name() },
                ),
            };
            out.push(o);
            proof {
                assert(pending@ =~= msgs.subrange(i + 1, msgs.len() as int));
                assert(outcome_of(out@[i as int], msgs[i as int], now@));
            }
            i = i + 1;
        }
        assert(batch_outcome(old(self).last_seq(), msgs, now@, out@, i as int));
        assert(self.last_seq() == last_before(old(self).last_seq(), msgs, i as int));
        assert(self.phase() == Phase::Ready);
        out
    }

    /// Handles a batch of messages, validating payloads with the current UTC
    /// time as the collection time where none is given.
    pub fn receive(&mut self, messages: Vec<ClientMessage>) -> (r: Vec<MessageOutcome>)
        requires
            old(self).wf(),
            old(self).phase() == Phase::Ready,
        ensures
            final(self).wf(),
            final(self).source() == old(self).source(),
            exists|n: int, now: Seq<char>|
                {
                    &&& batch_outcome(old(self).last_seq(), messages@, now, r@, n)
                    &&& final(self).last_seq() == last_before(old(self).last_seq(), messages@, n)
                    &&& final(self).phase() == if n < messages@.len() {
                        Phase::Closed
                    } else {
                        Phase::Ready
                    }
                },
    {
        let now = utc_now_text();
        self.process_messages(messages, now.as_str())
    }

    /// Ends the connection, giving up its source if it holds one.
    pub fn close(&mut self, live: &mut SourceRegistry)
        requires
            old(self).wf(),
            old(live).wf(),
        ensures
            final(self).wf(),
            final(self).phase() == Phase::Closed,
            final(self).source() is None,
            final(live).wf(),
            old(self).source() matches Some(s) ==> final(live).live() == old(live).live().remove(s),
            old(self).source() is None ==> final(live).live() == old(live).live(),
    {
        match &self.source {
            Some(s) => live.release(s.as_str()),
            None => {},
        }
        self.source = None;
        self.phase = Phase::Closed;
    }
}

} // verus!
