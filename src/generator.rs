//! Per-context generator state and the identifiers it issues.

use crate::clock::current_time_ms;
use crate::clock::generate_random_10bit;
use crate::clock::wait_next_millisecond;
use crate::clock::ClockError;
use crate::encode::base64_encode_u64;
use crate::encode::encoding;
use crate::encode::lemma_encoding_injective;
use crate::encode::lemma_encoding_keeps_order;
use crate::encode::lex_lt;
use crate::layout::lemma_fields_order;
use crate::layout::lemma_unpack_packed;
use crate::layout::pack_id;
use crate::layout::packed;
use crate::layout::sequence_of;
use crate::layout::timestamp_of;
use crate::layout::SEQUENCE_LIMIT;
use vstd::prelude::*;

verus! {

/// The state that one execution context keeps between identifiers: the
/// millisecond of the last one and its sequence number.
#[derive(Clone, Copy, Debug, PartialEq, Eq, Structural)]
pub struct Generator {
    pub last_timestamp_ms: u64,
    pub sequence: u16,
}

/// The state after issuing an identifier at clock reading `now`, or `None`
/// when the sequence of that millisecond is used up.
pub open spec fn after(g: Generator, now: u64) -> Option<Generator> {
    if now != g.last_timestamp_ms {
        Some(Generator { last_timestamp_ms: now, sequence: 0 })
    } else if g.sequence + 1 < 4096 {
        Some(Generator { last_timestamp_ms: now, sequence: (g.sequence + 1) as u16 })
    } else {
        None
    }
}

/// `id` carries the timestamp and sequence of state `g`.
pub open spec fn issued_by(g: Generator, id: u64) -> bool {
    timestamp_of(id) == g.last_timestamp_ms & 0x3FF_FFFF_FFFF && sequence_of(id)
        == g.sequence as u64
}

impl Generator {
    /// The sequence number stays within its twelve bits.
    pub open spec fn wf(&self) -> bool {
        self.sequence < 4096
    }

    /// A fresh state: millisecond 0, sequence 0.
    pub fn new() -> (r: Generator)
        ensures
            r.wf(),
            r.last_timestamp_ms == 0,
            r.sequence == 0,
    {
        Generator { last_timestamp_ms: 0, sequence: 0 }
    }

    /// Takes the next sequence number for clock reading `now`: 0 in a new
    /// millisecond, one more in the same one. When the same millisecond has
    /// used all 4096 numbers, returns `None` and leaves the state as it is.
    pub fn advance(&mut self, now: u64) -> (r: Option<u16>)
        requires
            old(self).wf(),
        ensures
            final(self).wf(),
            r == (match after(*old(self), now) {
                Some(g) => Some(g.sequence),
                None => None::<u16>,
            }),
            after(*old(self), now) is Some ==> Some(*final(self)) == after(*old(self), now),
            after(*old(self), now) is None ==> *final(self) == *old(self),
    {
        if now == self.last_timestamp_ms {
            if self.sequence + 1 < SEQUENCE_LIMIT {
                self.sequence = self.sequence + 1;
                Some(self.sequence)
            } else {
                None
            }
        } else {
            self.last_timestamp_ms = now;
            self.sequence = 0;
            Some(0)
        }
    }

    /// Issues the next identifier value of this context. When the sequence of
    /// the current millisecond is used up, waits for the clock to move on.
    /// Fails, leaving the state as it was, when the clock reads before the
    /// Unix epoch or never moves on.
    pub fn next_id(&mut self) -> (r: Result<u64, ClockError>)
        requires
            old(self).wf(),
        ensures
            final(self).wf(),
            r is Ok ==> after(*old(self), final(self).last_timestamp_ms) == Some(*final(self))
                && issued_by(*final(self), r->Ok_0),
            r is Err ==> *final(self) == *old(self),
    {
        let mut now = current_time_ms()?;
        let mut sequence = self.advance(now);
        if sequence.is_none() {
            now = wait_next_millisecond(now)?;
            sequence = self.advance(now);
        }
        let sequence = sequence.unwrap();
        let random = generate_random_10bit();
        let id = pack_id(now, sequence, random);
        proof {
            assert((now & 0x3FF_FFFF_FFFF) & 0x3FF_FFFF_FFFF == now & 0x3FF_FFFF_FFFF)
                by (bit_vector);
            assert(now & 0x3FF_FFFF_FFFF < 0x400_0000_0000) by (bit_vector);
            assert((sequence as u64) & 0xFFF == sequence as u64) by (bit_vector)
                requires sequence < 4096;
            lemma_unpack_packed(now & 0x3FF_FFFF_FFFF, sequence as u64, random as u64);
        }
        Ok(id)
    }
}

/// Issues the next identifier of the context `generator` and returns its
/// 11-character text.
pub fn generate_tiny64(generator: &mut Generator) -> (r: Result<String, ClockError>)
    requires
        old(generator).wf(),
    ensures
        final(generator).wf(),
        r is Ok ==> after(*old(generator), final(generator).last_timestamp_ms) == Some(
            *final(generator),
        ) && exists|id: u64| issued_by(*final(generator), id) && r->Ok_0@ == encoding(id),
        r is Err ==> *final(generator) == *old(generator),
{
    let id = generator.next_id()?;
    Ok(base64_encode_u64(id))
}


/// Within one context, with the clock not set back and below 2^42 ms, the
/// identifier issued next is strictly greater than the one before it, and its
/// text sorts strictly after.
pub proof fn lemma_next_issue_sorts_after(g1: Generator, g2: Generator, id1: u64, id2: u64)
    requires
        g1.wf(),
        after(g1, g2.last_timestamp_ms) == Some(g2),
        g1.last_timestamp_ms <= g2.last_timestamp_ms < 0x400_0000_0000,
        issued_by(g1, id1),
        issued_by(g2, id2),
    ensures
        id1 < id2,
        lex_lt(encoding(id1), encoding(id2)),
{
    let t1 = g1.last_timestamp_ms;
    let t2 = g2.last_timestamp_ms;
    assert(t1 < 0x400_0000_0000 ==> t1 & 0x3FF_FFFF_FFFF == t1) by (bit_vector);
    assert(t2 < 0x400_0000_0000 ==> t2 & 0x3FF_FFFF_FFFF == t2) by (bit_vector);
    lemma_fields_order(id1, id2);
    lemma_encoding_keeps_order(id1, id2);
}

/// `ids` were issued one after another by one context, `gs[k]` being its
/// state right after issuing `ids[k]`, with the clock never set back and
/// below 2^42 ms.
pub open spec fn is_run(gs: Seq<Generator>, ids: Seq<u64>) -> bool {
    &&& gs.len() == ids.len()
    &&& forall|k: int|
        0 <= k < gs.len() ==> #[trigger] gs[k].wf() && gs[k].last_timestamp_ms < 0x400_0000_0000
            && issued_by(gs[k], ids[k])
    &&& forall|k: int|
        0 <= k < gs.len() - 1 ==> after(#[trigger] gs[k], gs[k + 1].last_timestamp_ms) == Some(
            gs[k + 1],
        ) && gs[k].last_timestamp_ms <= gs[k + 1].last_timestamp_ms
}

proof fn lemma_run_prefix_increasing(gs: Seq<Generator>, ids: Seq<u64>, n: int)
    requires
        is_run(gs, ids),
        0 <= n <= gs.len(),
    ensures
        forall|i: int, j: int| 0 <= i < j < n ==> ids[i] < ids[j],
    decreases n,
{
    if n > 1 {
        lemma_run_prefix_increasing(gs, ids, n - 1);
        let k = n - 2;
        assert(gs[k].wf());
        assert(gs[k + 1].wf());
        lemma_next_issue_sorts_after(gs[k], gs[k + 1], ids[k], ids[k + 1]);
    }
}

/// The identifiers of a run strictly increase, their texts sort in the order
/// of issue, and no two of them are alike.
pub proof fn lemma_run_sorted_and_distinct(gs: Seq<Generator>, ids: Seq<u64>)
    requires
        is_run(gs, ids),
    ensures
        forall|i: int, j: int|
            0 <= i < j < ids.len() ==> ids[i] < ids[j] && lex_lt(
                encoding(#[trigger] ids[i]),
                encoding(#[trigger] ids[j]),
            ) && encoding(ids[i]) != encoding(ids[j]),
{
    lemma_run_prefix_increasing(gs, ids, gs.len() as int);
    assert forall|i: int, j: int| 0 <= i < j < ids.len() implies ids[i] < ids[j] && lex_lt(
        encoding(#[trigger] ids[i]),
        encoding(#[trigger] ids[j]),
    ) && encoding(ids[i]) != encoding(ids[j]) by {
        lemma_encoding_keeps_order(ids[i], ids[j]);
        lemma_encoding_injective(ids[i], ids[j]);
    }
}


/// The state after `n` issues in a row, all at clock reading `now`, starting
/// from `g`; `None` once one of them finds the sequence used up.
pub open spec fn issues_at(g: Generator, now: u64, n: nat) -> Option<Generator>
    decreases n,
{
    if n == 0 {
        Some(g)
    } else {
        match issues_at(g, now, (n - 1) as nat) {
            Some(h) => after(h, now),
            None => None,
        }
    }
}

/// Within one millisecond the sequence counts up by one per issue and never
/// wraps: starting at sequence `s` of that millisecond, the issues up to
/// sequence 4095 go through, and the next one finds the sequence used up
/// (it must wait for another millisecond, where the sequence starts at 0).
pub proof fn lemma_sequence_boundary(g: Generator, n: nat)
    requires
        g.wf(),
        g.sequence + n <= 4096,
    ensures
        g.sequence + n < 4096 ==> issues_at(g, g.last_timestamp_ms, n) == Some(
            Generator { last_timestamp_ms: g.last_timestamp_ms, sequence: (g.sequence + n) as u16 },
        ),
        g.sequence + n == 4096 ==> issues_at(g, g.last_timestamp_ms, n) is None,
        forall|later: u64|
            later != g.last_timestamp_ms ==> after(g, later) == Some(
                Generator { last_timestamp_ms: later, sequence: 0 },
            ),
    decreases n,
{
    if n > 0 {
        lemma_sequence_boundary(g, (n - 1) as nat);
    }
}

} // verus!
