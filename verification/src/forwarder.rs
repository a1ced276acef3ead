//! The shard event forwarder's logic.
//!
//! Once a connection has identified, the forwarder synthesizes a session
//! bootstrap from the shard's cached state and then relays live events,
//! overwriting each event's embedded sequence number with a dense,
//! connection-local one. Every subscriber gets its own copy of a broadcast
//! record before anything is rewritten: `relay_event` reads the shared
//! record and builds fresh text.

use vstd::prelude::*;
use vstd::string::*;
use crate::scan::{digits_end, digits_val, lemma_dec_rep_round_trip, lemma_digits_end_run, lemma_digits_val_subrange};
use crate::text::{dec_rep, is_digit, render_usize};

verus! {

/// A per-connection monotonically increasing sequence counter. It starts at
/// zero and is owned solely by the connection's forwarder.
pub struct SequenceCounter {
    /// The last sequence label handed out.
    pub value: usize,
}

impl SequenceCounter {
    /// A fresh counter for a new connection.
    pub fn new() -> (c: Self)
        ensures
            c.value == 0,
    {
        SequenceCounter { value: 0 }
    }
}

/// One relayed message: serialized frame text, plus the character span its
/// embedded sequence number occupies when it has one.
pub struct EventRecord {
    /// The frame text as serialized once by the upstream side.
    pub payload: String,
    /// Where in the text the sequence number stands, as a half-open
    /// character range.
    pub span: Option<(usize, usize)>,
}

/// The span, when present, lies within the payload.
pub open spec fn span_ok(e: EventRecord) -> bool {
    match e.span {
        Some(sp) => sp.0 <= sp.1 <= e.payload@.len(),
        None => true,
    }
}

/// The frame text with the span `[a, b)` overwritten, in place, by the
/// decimal digits of `n`; the rest of the text is untouched.
pub open spec fn relabeled(payload: Seq<char>, a: int, b: int, n: nat) -> Seq<char> {
    payload.subrange(0, a) + dec_rep(n) + payload.subrange(b, payload.len() as int)
}

/// What the forwarder emits for one event once the counter stands at `n`:
/// the relabelled text for an event with a span, the untouched text
/// otherwise.
pub open spec fn relay_text(e: EventRecord, n: nat) -> Seq<char> {
    match e.span {
        Some(sp) => relabeled(e.payload@, sp.0 as int, sp.1 as int, n),
        None => e.payload@,
    }
}

/// How many of the first `upto` events carry a sequence span.
pub open spec fn spanned_count(events: Seq<EventRecord>, upto: int) -> nat
    decreases upto when upto >= 0
{
    if upto <= 0 {
        0
    } else {
        spanned_count(events, upto - 1) + (if events[upto - 1].span is Some {
            1nat
        } else {
            0nat
        })
    }
}

/// At most `upto` of the first `upto` events carry a span.
pub proof fn lemma_spanned_count_le(events: Seq<EventRecord>, upto: int)
    requires
        upto >= 0,
    ensures
        spanned_count(events, upto) <= upto,
    decreases upto,
{
    if upto > 0 {
        lemma_spanned_count_le(events, upto - 1);
    }
}

/// Relays one event: an event with a span consumes the next counter value
/// and has exactly that span rewritten; an event without one is forwarded
/// unmodified. The shared record is read, never written: each connection
/// rewrites only its own copy.
pub fn relay_event(counter: &mut SequenceCounter, event: &EventRecord) -> (out: String)
    requires
        span_ok(*event),
        old(counter).value < usize::MAX,
    ensures
        final(counter).value == old(counter).value + (if event.span is Some {
            1int
        } else {
            0int
        }),
        out@ == relay_text(*event, final(counter).value as nat),
{
    match event.span {
        Some((a, b)) => {
            counter.value = counter.value + 1;
            let digits = render_usize(counter.value);
            let len = event.payload.as_str().unicode_len();
            let mut out = event.payload.as_str().substring_char(0, a).to_owned();
            out.append(digits.as_str());
            out.append(event.payload.as_str().substring_char(b, len));
            proof {
                assert(out@ =~= relay_text(*event, counter.value as nat));
            }
            out
        },
        None => event.payload.clone(),
    }
}

/// Relays a run of events in order through one connection's counter.
pub fn relay_all(counter: &mut SequenceCounter, events: &Vec<EventRecord>) -> (out: Vec<String>)
    requires
        forall|i: int| 0 <= i < events@.len() ==> span_ok(events@[i]),
        old(counter).value + events@.len() <= usize::MAX,
    ensures
        out@.len() == events@.len(),
        final(counter).value == old(counter).value + spanned_count(
            events@,
            events@.len() as int,
        ),
        forall|i: int|
            0 <= i < events@.len() ==> out@[i]@ == relay_text(
                events@[i],
                (old(counter).value + spanned_count(events@, i + 1)) as nat,
            ),
{
    let ghost base = counter.value;
    let n = events.len();
    let mut out: Vec<String> = Vec::new();
    let mut i: usize = 0;
    while i < n
        invariant
            n == events@.len(),
            i <= n,
            forall|k: int| 0 <= k < events@.len() ==> span_ok(events@[k]),
            base + n <= usize::MAX,
            counter.value == base + spanned_count(events@, i as int),
            out@.len() == i,
            forall|j: int|
                0 <= j < i ==> out@[j]@ == relay_text(
                    events@[j],
                    (base + spanned_count(events@, j + 1)) as nat,
                ),
        decreases n - i,
    {
        proof {
            lemma_spanned_count_le(events@, i as int);
        }
        let t = relay_event(counter, &events[i]);
        out.push(t);
        i = i + 1;
    }
    out
}

/// For a run of events that all carry a span, the labels a connection
/// writes are dense: event `i` takes exactly the `i + 1`-th value above the
/// counter's starting point, so after `N` events the connection has
/// observed `base+1, base+2, ..., base+N` in order, with no gap or repeat,
/// whatever numbers the upstream source had embedded.
pub proof fn lemma_relay_labels_dense(events: Seq<EventRecord>, i: int)
    requires
        0 <= i < events.len(),
        forall|j: int| 0 <= j < events.len() ==> events[j].span is Some,
    ensures
        spanned_count(events, i + 1) == i + 1,
    decreases i,
{
    assert(events[i].span is Some);
    if i > 0 {
        lemma_relay_labels_dense(events, i - 1);
    } else {
        assert(spanned_count(events, 0) == 0);
    }
}

/// Two connections subscribed to the same broadcast number their copies
/// independently: each one's labels are dense above its own bootstrap
/// count, and what either emits is a pure function of the shared record and
/// its own counter alone.
pub proof fn lemma_relays_independent(
    events: Seq<EventRecord>,
    base1: nat,
    base2: nat,
    i: int,
)
    requires
        0 <= i < events.len(),
        forall|j: int| 0 <= j < events.len() ==> events[j].span is Some,
    ensures
        base1 + spanned_count(events, i + 1) == base1 + i + 1,
        base2 + spanned_count(events, i + 1) == base2 + i + 1,
{
    lemma_relay_labels_dense(events, i);
}

/// A relabelled frame really carries its new sequence number: when the
/// character after the original span is not a digit, reading the digit run
/// at the rewritten position yields exactly the value that was written.
pub proof fn lemma_relabel_read_back(payload: Seq<char>, a: int, b: int, n: nat)
    requires
        0 <= a <= b <= payload.len(),
        b < payload.len() ==> !is_digit(payload[b]),
    ensures
        digits_end(relabeled(payload, a, b, n), a) == a + dec_rep(n).len(),
        digits_val(
            relabeled(payload, a, b, n),
            a,
            a + dec_rep(n).len() as int,
        ) == n,
{
    lemma_dec_rep_round_trip(n);
    let t = relabeled(payload, a, b, n);
    let d = dec_rep(n);
    let e = a + d.len() as int;
    assert(t.len() == a + d.len() + (payload.len() - b));
    assert forall|j: int| 0 <= j < d.len() implies t[a + j] == d[j] by {
        assert(t[a + j] == (payload.subrange(0, a) + d)[a + j]);
    }
    if b < payload.len() {
        assert(t[e] == payload.subrange(b, payload.len() as int)[0]);
    }
    lemma_digits_end_run(t, a, e);
    lemma_digits_val_subrange(t, a, d, d.len() as int);
}

/// Relabelling the same span of the same frame with distinct sequence
/// numbers gives distinct frames: a connection's relabelled stream never
/// repeats a label.
pub proof fn lemma_relabel_injective(payload: Seq<char>, a: int, b: int, m: nat, n: nat)
    requires
        0 <= a <= b <= payload.len(),
        b < payload.len() ==> !is_digit(payload[b]),
        relabeled(payload, a, b, m) == relabeled(payload, a, b, n),
    ensures
        m == n,
{
    lemma_relabel_read_back(payload, a, b, m);
    lemma_relabel_read_back(payload, a, b, n);
}

/// A fresh session's numbering is one dense sequence. The bootstrap frame
/// is labelled 0 and the availability frames 1 ..= n, by construction; the
/// i-th live event with a span then takes label n + i + 1: the live labels
/// continue the bootstrap's with no gap and no repeat.
pub proof fn lemma_session_numbering_dense(
    entities: Seq<Entity>,
    events: Seq<EventRecord>,
    i: int,
)
    requires
        0 <= i < events.len(),
        forall|j: int| 0 <= j < events.len() ==> events[j].span is Some,
    ensures
        entities.len() + spanned_count(events, i + 1) == entities.len() + i + 1,
{
    lemma_relay_labels_dense(events, i);
}

/// One world-state entity of the shard snapshot.
pub struct Entity {
    /// The entity's identifier as it appears in frame text.
    pub id: String,
    /// Whether the entity is currently available.
    pub available: bool,
}

/// Text of the synthesized session-bootstrap frame, always labelled 0.
pub open spec fn ready_frame_text(payload: Seq<char>) -> Seq<char> {
    "{\"t\":\"READY\",\"s\":0,\"op\":0,\"d\":"@ + payload + "}"@
}

/// Text of one synthetic availability frame carrying sequence label `n`.
pub open spec fn entity_frame_text(id: Seq<char>, available: bool, n: nat) -> Seq<char> {
    "{\"t\":\""@ + (if available {
        "ENTITY_AVAILABLE"@
    } else {
        "ENTITY_UNAVAILABLE"@
    }) + "\",\"s\":"@ + dec_rep(n) + ",\"op\":0,\"d\":{\"id\":\""@ + id + "\"}}"@
}

/// The whole bootstrap transcript a fresh client observes: the bootstrap
/// frame labelled 0, then one availability frame per entity, labelled by
/// its position.
pub open spec fn bootstrap_texts(payload: Seq<char>, entities: Seq<Entity>) -> Seq<Seq<char>> {
    Seq::new(
        entities.len() + 1,
        |i: int|
            if i == 0 {
                ready_frame_text(payload)
            } else {
                entity_frame_text(entities[i - 1].id@, entities[i - 1].available, i as nat)
            },
    )
}

/// Builds the bootstrap frame around the cached payload.
pub fn ready_frame(payload: &str) -> (r: String)
    ensures
        r@ == ready_frame_text(payload@),
{
    let mut out = String::from_str("{\"t\":\"READY\",\"s\":0,\"op\":0,\"d\":");
    out.append(payload);
    out.append("}");
    proof {
        assert(out@ =~= ready_frame_text(payload@));
    }
    out
}

/// Builds one synthetic availability frame.
pub fn entity_frame(id: &str, available: bool, n: usize) -> (r: String)
    ensures
        r@ == entity_frame_text(id@, available, n as nat),
{
    let mut out = String::from_str("{\"t\":\"");
    out.append(if available {
        "ENTITY_AVAILABLE"
    } else {
        "ENTITY_UNAVAILABLE"
    });
    out.append("\",\"s\":");
    let digits = render_usize(n);
    out.append(digits.as_str());
    out.append(",\"op\":0,\"d\":{\"id\":\"");
    out.append(id);
    out.append("\"}}");
    proof {
        assert(out@ =~= entity_frame_text(id@, available, n as nat));
    }
    out
}

/// Synthesizes the session bootstrap for a fresh connection: the cached
/// payload labelled 0, then one availability frame per snapshot entity,
/// labelled 1, 2, ... in snapshot order. The counter ends at the number of
/// entities, so relayed live events continue the numbering with no gap.
pub fn bootstrap_frames(
    counter: &mut SequenceCounter,
    payload: &str,
    entities: &Vec<Entity>,
) -> (out: Vec<String>)
    requires
        old(counter).value == 0,
        entities@.len() < usize::MAX,
    ensures
        out@.len() == entities@.len() + 1,
        forall|i: int|
            0 <= i < out@.len() ==> out@[i]@ == bootstrap_texts(payload@, entities@)[i],
        final(counter).value == entities@.len(),
{
    let mut out: Vec<String> = Vec::new();
    out.push(ready_frame(payload));
    let n = entities.len();
    let mut i: usize = 0;
    while i < n
        invariant
            n == entities@.len(),
            n < usize::MAX,
            i <= n,
            counter.value == i,
            out@.len() == i + 1,
            out@[0]@ == ready_frame_text(payload@),
            forall|j: int|
                1 <= j <= i ==> out@[j]@ == entity_frame_text(
                    entities@[j - 1].id@,
                    entities@[j - 1].available,
                    j as nat,
                ),
        decreases n - i,
    {
        counter.value = counter.value + 1;
        let e = &entities[i];
        out.push(entity_frame(e.id.as_str(), e.available, counter.value));
        i = i + 1;
    }
    proof {
        assert forall|k: int|
            0 <= k < out@.len() implies out@[k]@ == bootstrap_texts(payload@, entities@)[k] by {
            if k == 0 {
            } else {
            }
        }
    }
    out
}

} // verus!
