//! Minimization of a failing test's random choices. The shrinker replays
//! the fuzzer from prewritten choice sequences and keeps a candidate only
//! when the test still fails and the sequence got shorter, or no longer at
//! equal length and no larger anywhere it was touched.

use vstd::prelude::*;

use crate::data::{Dat, DataValue};
use crate::prng::{copy_choices, parse_reply, prng_dat, Prng, PrngModel};
use crate::property::PropertyTest;
use crate::vm::{eval_failed, FatalError, VmBridge};

verus! {

/// Strict lexicographic order on choice sequences: a proper prefix is
/// smaller, and otherwise the first differing position decides.
pub open spec fn lex_lt(a: Seq<u32>, b: Seq<u32>) -> bool {
    ||| (a.len() < b.len() && a == b.subrange(0, a.len() as int))
    ||| exists|j: int|
        0 <= j < a.len() && j < b.len() && #[trigger] a.subrange(0, j) == b.subrange(0, j)
            && a[j] < b[j]
}

/// Every position of `a` is at most the same position of `b`.
pub open spec fn pointwise_le(a: Seq<u32>, b: Seq<u32>) -> bool {
    a.len() == b.len() && forall|i: int| 0 <= i < a.len() ==> a[i] <= b[i]
}

/// A choice sequence read as one number, first choice most significant.
pub open spec fn seq_val(s: Seq<u32>) -> nat
    decreases s.len(),
{
    if s.len() == 0 {
        0
    } else {
        (seq_val(s.drop_last()) * 0x1_0000_0000 + s.last()) as nat
    }
}

/// The shrinker never makes a sequence worse: each state is the previous
/// one, strictly shorter, or of equal length and strictly smaller as a
/// number.
pub open spec fn no_worse(pre: Seq<u32>, post: Seq<u32>) -> bool {
    ||| post == pre
    ||| post.len() < pre.len()
    ||| (post.len() == pre.len() && seq_val(post) < seq_val(pre))
}

/// The shrinker's order admits no cycles: two states each no worse than
/// the other are the same state.
pub proof fn lemma_no_worse_antisym(a: Seq<u32>, b: Seq<u32>)
    requires
        no_worse(a, b),
        no_worse(b, a),
    ensures
        a == b,
{
}

pub proof fn lemma_no_worse_trans(a: Seq<u32>, b: Seq<u32>, c: Seq<u32>)
    requires
        no_worse(a, b),
        no_worse(b, c),
    ensures
        no_worse(a, c),
{
}

/// A dominated, different sequence of equal length is smaller as a number.
pub proof fn lemma_pointwise_val_le(a: Seq<u32>, b: Seq<u32>)
    requires
        pointwise_le(a, b),
    ensures
        seq_val(a) <= seq_val(b),
    decreases a.len(),
{
    if a.len() > 0 {
        assert(pointwise_le(a.drop_last(), b.drop_last()));
        lemma_pointwise_val_le(a.drop_last(), b.drop_last());
        assert(a.last() <= b.last());
    }
}

pub proof fn lemma_pointwise_val_lt(a: Seq<u32>, b: Seq<u32>)
    requires
        pointwise_le(a, b),
        a != b,
    ensures
        seq_val(a) < seq_val(b),
    decreases a.len(),
{
    assert(!(a =~= b));
    if a.len() == 0 {
        assert(a =~= b);
    } else {
        let a2 = a.drop_last();
        let b2 = b.drop_last();
        assert(pointwise_le(a2, b2));
        if a.last() == b.last() {
            assert(a2 != b2) by {
                if a2 == b2 {
                    assert forall|i: int| 0 <= i < a.len() implies a[i] == b[i] by {
                        if i < a.len() - 1 {
                            assert(a2[i] == b2[i]);
                        }
                    }
                    assert(a =~= b);
                }
            }
            lemma_pointwise_val_lt(a2, b2);
        } else {
            lemma_pointwise_val_le(a2, b2);
        }
    }
}

/// A dominated, different sequence of equal length is lexicographically
/// smaller.
pub proof fn lemma_pointwise_lex_lt(a: Seq<u32>, b: Seq<u32>)
    requires
        pointwise_le(a, b),
        a != b,
    ensures
        lex_lt(a, b),
    decreases a.len(),
{
    assert(!(a =~= b));
    if a.len() == 0 {
        assert(a =~= b);
    } else if a[0] == b[0] {
        let a2 = a.subrange(1, a.len() as int);
        let b2 = b.subrange(1, b.len() as int);
        assert(pointwise_le(a2, b2));
        assert(a2 != b2) by {
            if a2 == b2 {
                assert forall|i: int| 0 <= i < a.len() implies a[i] == b[i] by {
                    if i > 0 {
                        assert(a2[i - 1] == b2[i - 1]);
                    }
                }
                assert(a =~= b);
            }
        }
        lemma_pointwise_lex_lt(a2, b2);
        if a2.len() < b2.len() {
        } else {
            let j = choose|j: int|
                0 <= j < a2.len() && j < b2.len() && #[trigger] a2.subrange(0, j) == b2.subrange(
                    0,
                    j,
                ) && a2[j] < b2[j];
            assert(a.subrange(0, j + 1) =~= b.subrange(0, j + 1)) by {
                assert forall|i: int| 0 <= i < j + 1 implies #[trigger] a.subrange(0, j + 1)[i]
                    == b.subrange(0, j + 1)[i] by {
                    if i > 0 {
                        assert(a2.subrange(0, j)[i - 1] == b2.subrange(0, j)[i - 1]);
                    }
                }
            }
            assert(a[j + 1] == a2[j] && b[j + 1] == b2[j]);
        }
    } else {
        assert(a.subrange(0, 0) =~= b.subrange(0, 0));
        assert(a[0] < b[0]);
    }
}

/// Apply index-value updates one by one.
pub open spec fn apply_updates(s: Seq<u32>, ivs: Seq<(usize, u32)>) -> Seq<u32>
    decreases ivs.len(),
{
    if ivs.len() == 0 {
        s
    } else {
        apply_updates(s.update(ivs[0].0 as int, ivs[0].1), ivs.subrange(1, ivs.len() as int))
    }
}

/// What the fuzzer answers when replayed from a prewritten choice sequence.
pub open spec fn replay_of<B: VmBridge>(vm: &B, candidate: Seq<u32>) -> Option<Dat> {
    vm.fuzzer_response(prng_dat(PrngModel::Replayed { choices: candidate }))
}

/// A fuzzer that meets its replay contract: every replayed state gets an
/// answer (no machine error) and the answer parses as an optional pair.
/// Under this hypothesis the shrinker cannot hit a fatal fault.
pub open spec fn replays_total<B: VmBridge>(vm: &B) -> bool {
    forall|cs: Seq<u32>|
        match #[trigger] replay_of(vm, cs) {
            Some(d) => parse_reply(d) is Some,
            None => false,
        }
}

/// Whether the shrinker would keep a candidate that differs from the
/// current choices: its replay must generate a value, the test must still
/// fail on it, and the candidate must be no longer than the current
/// sequence or lexicographically smaller.
pub open spec fn would_accept<B: VmBridge>(
    vm: &B,
    can_error: bool,
    cur: Seq<u32>,
    cand: Seq<u32>,
) -> bool {
    match replay_of(vm, cand) {
        Some(d) => match parse_reply(d) {
            Some(Some((_, v))) => eval_failed(vm.test_evaluation(v), can_error) && (cand.len()
                <= cur.len() || lex_lt(cand, cur)),
            _ => false,
        },
        None => false,
    }
}

/// The choice sequence with the chunk `[i, i + k)` deleted.
pub open spec fn remove_chunk(s: Seq<u32>, i: int, k: int) -> Seq<u32> {
    s.subrange(0, i) + s.subrange(i + k, s.len() as int)
}

/// No deletion of a chunk of `1`, `2`, `4` or `8` choices above the given
/// size would be accepted.
pub open spec fn deletion_done_above<B: VmBridge>(
    vm: &B,
    can_error: bool,
    cur: Seq<u32>,
    kmin: int,
) -> bool {
    forall|i: int, k: int|
        (k == 1 || k == 2 || k == 4 || k == 8) && k > kmin && 0 <= i && i + k <= cur.len()
            ==> !would_accept(vm, can_error, cur, #[trigger] remove_chunk(cur, i, k))
}

/// No deletion of a chunk of `1`, `2`, `4` or `8` choices would be
/// accepted: the first shrinking pass is at a fixed point.
pub open spec fn deletion_done<B: VmBridge>(vm: &B, can_error: bool, cur: Seq<u32>) -> bool {
    deletion_done_above(vm, can_error, cur, 0)
}

/// The deletion candidate with the surviving choice before the chunk also
/// decremented, the extra reduction step for length-prefix dependencies.
pub open spec fn decremented_chunk(s: Seq<u32>, i: int, k: int) -> Seq<u32> {
    remove_chunk(s, i, k).update(i - 1, (s[i - 1] - 1) as u32)
}

/// No chunk deletion combined with a decrement of the preceding choice
/// would be accepted, for chunks above the given size.
pub open spec fn decrement_done_above<B: VmBridge>(
    vm: &B,
    can_error: bool,
    cur: Seq<u32>,
    kmin: int,
) -> bool {
    forall|i: int, k: int|
        (k == 1 || k == 2 || k == 4 || k == 8) && k > kmin && 0 < i && i + k <= cur.len()
            && cur[i - 1] > 0 ==> !would_accept(
            vm,
            can_error,
            cur,
            #[trigger] decremented_chunk(cur, i, k),
        )
}

/// No chunk deletion combined with a decrement of the preceding choice
/// would be accepted.
pub open spec fn decrement_done<B: VmBridge>(vm: &B, can_error: bool, cur: Seq<u32>) -> bool {
    decrement_done_above(vm, can_error, cur, 0)
}

/// Whether two choice vectors hold the same sequence.
fn vecs_equal(a: &Vec<u32>, b: &Vec<u32>) -> (r: bool)
    ensures
        r <==> a@ == b@,
{
    if a.len() != b.len() {
        return false;
    }
    let mut i: usize = 0;
    while i < a.len()
        invariant
            a@.len() == b@.len(),
            i <= a@.len(),
            forall|j: int| 0 <= j < i ==> a@[j] == b@[j],
        decreases a@.len() - i,
    {
        if a[i] != b[i] {
            return false;
        }
        i = i + 1;
    }
    proof {
        assert(a@ =~= b@);
    }
    true
}

/// Strict lexicographic comparison of two choice vectors, deciding
/// [`lex_lt`] on their sequences.
fn lex_less(a: &Vec<u32>, b: &Vec<u32>) -> (r: bool)
    ensures
        r == lex_lt(a@, b@),
{
    let shorter: usize = if a.len() < b.len() {
        a.len()
    } else {
        b.len()
    };
    let mut i: usize = 0;
    while i < shorter
        invariant
            shorter <= a@.len(),
            shorter <= b@.len(),
            shorter == a@.len() || shorter == b@.len(),
            i <= shorter,
            forall|j: int| 0 <= j < i ==> a@[j] == b@[j],
        decreases shorter - i,
    {
        if a[i] < b[i] {
            proof {
                assert(a@.subrange(0, i as int) =~= b@.subrange(0, i as int));
            }
            return true;
        }
        if a[i] > b[i] {
            proof {
                assert forall|j: int|
                    0 <= j < a@.len() && j < b@.len() && #[trigger] a@.subrange(0, j)
                        == b@.subrange(0, j) implies !(a@[j] < b@[j]) by {
                    if j > i {
                        assert(a@.subrange(0, j)[i as int] == b@.subrange(0, j)[i as int]);
                    }
                }
                assert(a@.len() < b@.len() && a@ == b@.subrange(0, a@.len() as int)
                    ==> a@[i as int] == b@.subrange(0, a@.len() as int)[i as int]);
            }
            return false;
        }
        i = i + 1;
    }
    if a.len() < b.len() {
        proof {
            assert(a@ =~= b@.subrange(0, a@.len() as int));
        }
        true
    } else {
        proof {
            assert forall|j: int|
                0 <= j < a@.len() && j < b@.len() && #[trigger] a@.subrange(0, j) == b@.subrange(
                    0,
                    j,
                ) implies !(a@[j] < b@[j]) by {}
        }
        false
    }
}

/// The choice sequence with the block `[i, i + k)` replaced by zeroes.
pub open spec fn zero_block(s: Seq<u32>, i: int, k: int) -> Seq<u32> {
    Seq::new(s.len(), |u: int| if i <= u < i + k { 0u32 } else { s[u] })
}

/// The probes the zero-replacement pass makes for one chunk size, when no
/// probe is accepted with a change: from each index the pass steps down
/// past an already-all-zero block by the chunk size, and past a rejected
/// block by one. Holds trivially below index zero.
pub open spec fn zero_pass_done<B: VmBridge>(
    vm: &B,
    can_error: bool,
    cur: Seq<u32>,
    k: int,
    i: int,
) -> bool
    decreases i + k,
{
    if i < 0 || k < 1 {
        true
    } else if zero_block(cur, i, k) == cur {
        zero_pass_done(vm, can_error, cur, k, i - k)
    } else {
        &&& !would_accept(vm, can_error, cur, zero_block(cur, i, k))
        &&& zero_pass_done(vm, can_error, cur, k, i - 1)
    }
}

/// The zero-replacement pass is at a fixed point for each of its chunk
/// sizes, starting from the last full block.
pub open spec fn zero_blocks_done<B: VmBridge>(vm: &B, can_error: bool, cur: Seq<u32>) -> bool {
    forall|k: int|
        (k == 2 || k == 4 || k == 8) ==> #[trigger] zero_pass_done(
            vm,
            can_error,
            cur,
            k,
            cur.len() - k,
        )
}

/// Applying one zero per position of a block, in order, zeroes the block.
pub proof fn lemma_apply_zero_block(s: Seq<u32>, ivs: Seq<(usize, u32)>, i: int, k: int)
    requires
        ivs.len() == k,
        0 <= k,
        0 <= i,
        i + k <= s.len(),
        i + k <= usize::MAX,
        forall|t: int| 0 <= t < k ==> #[trigger] ivs[t] == (((i + t) as usize, 0u32)),
    ensures
        apply_updates(s, ivs) == zero_block(s, i, k),
    decreases k,
{
    if k == 0 {
        assert(zero_block(s, i, 0) =~= s);
    } else {
        let s2 = s.update(i, 0u32);
        let rest = ivs.subrange(1, k);
        assert(ivs[0] == ((i as usize, 0u32)));
        assert forall|t: int| 0 <= t < k - 1 implies #[trigger] rest[t] == (((i + 1 + t) as usize,
            0u32)) by {
            assert(rest[t] == ivs[t + 1]);
        }
        lemma_apply_zero_block(s2, rest, i + 1, k - 1);
        assert(apply_updates(s, ivs) == apply_updates(s2, rest));
        assert(zero_block(s2, i + 1, k - 1) =~= zero_block(s, i, k));
    }
}

/// Every probe a binary search would make between the bounds is rejected:
/// the midpoint's replacement would not be accepted, and the same holds
/// recursively of the upper half, which is where rejection sends the
/// search. Holds trivially once the interval closes.
pub open spec fn lowering_done_from<B: VmBridge>(
    vm: &B,
    can_error: bool,
    cur: Seq<u32>,
    index: int,
    lo: int,
    hi: int,
) -> bool
    decreases hi - lo,
{
    if hi - lo <= 1 {
        true
    } else {
        let mid = lo + (hi - lo) / 2;
        &&& !would_accept(vm, can_error, cur, cur.update(index, mid as u32))
        &&& lowering_done_from(vm, can_error, cur, index, mid, hi)
    }
}

/// The value the halving search settles on, and whether it changed the
/// state: against the current state (the start state, or the start state
/// with the last accepted value at the index) the search probes the
/// midpoint, keeps the lower half on acceptance and the upper half on
/// rejection, and returns the upper bound once the interval closes.
pub open spec fn search_from<B: VmBridge>(
    vm: &B,
    can_error: bool,
    s0: Seq<u32>,
    index: int,
    lo: int,
    hi: int,
    changed: bool,
) -> (int, bool)
    decreases hi - lo,
{
    if hi - lo <= 1 {
        (hi, changed)
    } else {
        let cur = if changed {
            s0.update(index, hi as u32)
        } else {
            s0
        };
        let mid = lo + (hi - lo) / 2;
        if would_accept(vm, can_error, cur, cur.update(index, mid as u32)) {
            search_from(vm, can_error, s0, index, lo, mid, true)
        } else {
            search_from(vm, can_error, s0, index, mid, hi, changed)
        }
    }
}

/// A choice sequence at the shrinker's fixed point: no chunk deletion, no
/// deletion with a decrement, no zero-replacement probe of the block
/// pass's schedule, no single-choice zeroing and no binary-search probe
/// would be accepted.
pub open spec fn fixed_point<B: VmBridge>(vm: &B, can_error: bool, cs: Seq<u32>) -> bool {
    &&& deletion_done(vm, can_error, cs)
    &&& decrement_done(vm, can_error, cs)
    &&& zero_blocks_done(vm, can_error, cs)
    &&& forall|j: int|
        0 <= j < cs.len() && cs[j] != 0 ==> !would_accept(
            vm,
            can_error,
            cs,
            #[trigger] cs.update(j, 0u32),
        )
    &&& forall|j: int|
        0 <= j < cs.len() ==> lowering_done_from(vm, can_error, cs, j, 0, #[trigger] cs[j] as int)
}

/// A sequence with no choices is trivially at the fixed point: every pass
/// is out of candidates.
pub proof fn lemma_fixed_point_empty<B: VmBridge>(vm: &B, can_error: bool, cs: Seq<u32>)
    requires
        cs.len() == 0,
    ensures
        fixed_point(vm, can_error, cs),
{
    assert forall|k: int| (k == 2 || k == 4 || k == 8) implies #[trigger] zero_pass_done(
        vm,
        can_error,
        cs,
        k,
        cs.len() - k,
    ) by {
        assert(cs.len() - k < 0);
    }
}

/// A fully shrunk failing pair: the value is exactly what replaying the
/// choices generates, the test still fails on it, and the choices are at
/// the shrinker's fixed point.
pub open spec fn shrunk_pair<B: VmBridge>(vm: &B, can_error: bool, cs: Seq<u32>, value: Dat) -> bool {
    &&& replays_to(vm, cs, value)
    &&& eval_failed(vm.test_evaluation(value), can_error)
    &&& fixed_point(vm, can_error, cs)
}

/// Rank of a descending index with an explicit underflow flag: underflow
/// is the bottom, and otherwise the rank is one above the index.
pub open spec fn idx_rank(i: usize, underflow: bool) -> int {
    if underflow {
        0
    } else {
        i + 1
    }
}

/// A failing test's generated value together with the random choices that
/// produced it; the shrinker's working state.
#[derive(Debug)]
pub struct Counterexample {
    pub value: DataValue,
    pub choices: Vec<u32>,
}

/// Whether this counterexample's value still makes the test fail.
pub open spec fn fails_with<B: VmBridge>(vm: &B, can_error: bool, c: Counterexample) -> bool {
    eval_failed(vm.test_evaluation(c.value@), can_error)
}

/// Whether replaying the given choices makes the fuzzer generate exactly
/// the given value.
pub open spec fn replays_to<B: VmBridge>(vm: &B, cs: Seq<u32>, value: Dat) -> bool {
    match replay_of(vm, cs) {
        Some(d) => match parse_reply(d) {
            Some(Some((_, v))) => value == v,
            _ => false,
        },
        None => false,
    }
}

/// Whether the counterexample's value is exactly what replaying its own
/// choices generates: the pair the shrinker hands back is self-consistent.
pub open spec fn replay_pair<B: VmBridge>(vm: &B, c: Counterexample) -> bool {
    replays_to(vm, c.choices@, c.value@)
}

/// What every shrinking step guarantees: the choices never get worse, and
/// a failing counterexample keeps failing.
pub open spec fn shrink_inv<B: VmBridge>(
    vm: &B,
    can_error: bool,
    pre: Counterexample,
    cur: Counterexample,
) -> bool {
    &&& no_worse(pre.choices@, cur.choices@)
    &&& (fails_with(vm, can_error, pre) ==> fails_with(vm, can_error, cur))
}

pub proof fn lemma_shrink_inv_trans<B: VmBridge>(
    vm: &B,
    can_error: bool,
    a: Counterexample,
    b: Counterexample,
    c: Counterexample,
)
    requires
        shrink_inv(vm, can_error, a, b),
        shrink_inv(vm, can_error, b, c),
    ensures
        shrink_inv(vm, can_error, a, c),
{
    lemma_no_worse_trans(a.choices@, b.choices@, c.choices@);
}

impl Counterexample {
    /// Decide whether a candidate choice sequence replaces the current one.
    /// The candidate is accepted when it equals the current sequence, or
    /// when replaying it generates a value on which the test still fails
    /// and the candidate is no longer than the current sequence (or
    /// lexicographically smaller). An infeasible replay and a passing test
    /// both reject.
    pub fn consider<B: VmBridge>(
        &mut self,
        property: &PropertyTest,
        vm: &B,
        candidate: &Vec<u32>,
    ) -> (r: Result<bool, FatalError>)
        requires
            candidate@.len() < old(self).choices@.len() || (candidate@.len() == old(
                self,
            ).choices@.len() && pointwise_le(candidate@, old(self).choices@)),
        ensures
            r matches Err(_) ==> *final(self) == *old(self),
            r == Ok::<bool, FatalError>(false) ==> *final(self) == *old(self),
            r == Ok::<bool, FatalError>(true) ==> final(self).choices@ == candidate@,
            fails_with(vm, property.can_error, *old(self)) ==> fails_with(
                vm,
                property.can_error,
                *final(self),
            ),
            r == Ok::<bool, FatalError>(true) && candidate@ != old(self).choices@ ==> fails_with(
                vm,
                property.can_error,
                *final(self),
            ) && (candidate@.len() < old(self).choices@.len() || (candidate@.len() == old(
                self,
            ).choices@.len() && lex_lt(candidate@, old(self).choices@) && seq_val(candidate@)
                < seq_val(old(self).choices@))),
            candidate@ == old(self).choices@ ==> r == Ok::<bool, FatalError>(true) && *final(self) == *old(self),
            r == Ok::<bool, FatalError>(false) && candidate@ != old(self).choices@ ==> !would_accept(
                vm,
                property.can_error,
                old(self).choices@,
                candidate@,
            ),
            r == Ok::<bool, FatalError>(true) && candidate@ != old(self).choices@ ==> replay_pair(
                vm,
                *final(self),
            ),
            final(self).choices@ == old(self).choices@ ==> *final(self) == *old(self),
            replays_total(vm) ==> r is Ok,
            candidate@ != old(self).choices@ ==> match replay_of(vm, candidate@) {
                None => r == Err::<bool, FatalError>(FatalError::FuzzerCrashed),
                Some(d) => match parse_reply(d) {
                    None => r == Err::<bool, FatalError>(FatalError::MalformedFuzzerResult),
                    Some(None) => r == Ok::<bool, FatalError>(false),
                    Some(Some((_, v))) => if eval_failed(
                        vm.test_evaluation(v),
                        property.can_error,
                    ) {
                        r == Ok::<bool, FatalError>(true) && final(self).value@ == v
                    } else {
                        r == Ok::<bool, FatalError>(false)
                    },
                },
            },
    {
        if vecs_equal(candidate, &self.choices) {
            return Ok(true);
        }
        let replay = Prng::from_choices(candidate);
        match replay.sample(vm) {
            Err(e) => Err(e),
            Ok(None) => Ok(false),
            Ok(Some((_, value))) => {
                let result = property.eval(&value, vm);
                if !result.failed(property.can_error) {
                    return Ok(false);
                }
                if candidate.len() <= self.choices.len() || lex_less(candidate, &self.choices) {
                    proof {
                        if candidate@.len() == self.choices@.len() {
                            lemma_pointwise_lex_lt(candidate@, self.choices@);
                            lemma_pointwise_val_lt(candidate@, self.choices@);
                        }
                    }
                    self.value = value;
                    self.choices = copy_choices(candidate);
                    Ok(true)
                } else {
                    Ok(false)
                }
            },
        }
    }

    /// Replace positions of the current choices as the index-value list
    /// says, and consider the result; an index past the end rejects
    /// outright.
    pub fn replace<B: VmBridge>(
        &mut self,
        property: &PropertyTest,
        vm: &B,
        ivs: Vec<(usize, u32)>,
    ) -> (r: Result<bool, FatalError>)
        requires
            forall|t: int|
                0 <= t < ivs@.len() ==> (#[trigger] ivs@[t]).0 < old(self).choices@.len()
                    ==> ivs@[t].1 <= old(self).choices@[ivs@[t].0 as int],
        ensures
            r matches Err(_) ==> *final(self) == *old(self),
            r == Ok::<bool, FatalError>(false) ==> *final(self) == *old(self),
            fails_with(vm, property.can_error, *old(self)) ==> fails_with(
                vm,
                property.can_error,
                *final(self),
            ),
            r == Ok::<bool, FatalError>(true) ==> final(self).choices@.len() == old(self).choices@.len()
                && pointwise_le(final(self).choices@, old(self).choices@) && no_worse(
                old(self).choices@,
                final(self).choices@,
            ),
            r == Ok::<bool, FatalError>(true) && (forall|t: int|
                0 <= t < ivs@.len() ==> (#[trigger] ivs@[t]).0 < old(self).choices@.len())
                ==> final(self).choices@ == apply_updates(old(self).choices@, ivs@),
            r == Ok::<bool, FatalError>(true) && ivs@.len() == 1 && ivs@[0].0 < old(
                self,
            ).choices@.len() ==> final(self).choices@ == old(self).choices@.update(
                ivs@[0].0 as int,
                ivs@[0].1,
            ),
            final(self).choices@ == old(self).choices@ ==> *final(self) == *old(self),
            r == Ok::<bool, FatalError>(false) && ivs@.len() == 1 && ivs@[0].0 < old(
                self,
            ).choices@.len() && old(self).choices@.update(ivs@[0].0 as int, ivs@[0].1) != old(
                self,
            ).choices@ ==> !would_accept(
                vm,
                property.can_error,
                old(self).choices@,
                old(self).choices@.update(ivs@[0].0 as int, ivs@[0].1),
            ),
            (exists|t: int|
                0 <= t < ivs@.len() && (#[trigger] ivs@[t]).0 >= old(self).choices@.len()) ==> r
                == Ok::<bool, FatalError>(false) && *final(self) == *old(self),
            (forall|t: int| 0 <= t < ivs@.len() ==> (#[trigger] ivs@[t]).0 < old(
                self,
            ).choices@.len()) ==> ({
                let cand = apply_updates(old(self).choices@, ivs@);
                if cand == old(self).choices@ {
                    r == Ok::<bool, FatalError>(true) && *final(self) == *old(self)
                } else {
                    match replay_of(vm, cand) {
                        None => r == Err::<bool, FatalError>(FatalError::FuzzerCrashed),
                        Some(d) => match parse_reply(d) {
                            None => r == Err::<bool, FatalError>(
                                FatalError::MalformedFuzzerResult,
                            ),
                            Some(None) => r == Ok::<bool, FatalError>(false),
                            Some(Some((_, v))) => if eval_failed(
                                vm.test_evaluation(v),
                                property.can_error,
                            ) {
                                r == Ok::<bool, FatalError>(true) && final(self).value@ == v
                            } else {
                                r == Ok::<bool, FatalError>(false)
                            },
                        },
                    }
                }
            }),
            *final(self) != *old(self) ==> replay_pair(vm, *final(self)),
            replays_total(vm) ==> r is Ok,
    {
        let mut candidate = copy_choices(&self.choices);
        proof {
            assert(ivs@.subrange(0, ivs@.len() as int) =~= ivs@);
        }
        let mut t: usize = 0;
        while t < ivs.len()
            invariant
                t <= ivs@.len(),
                candidate@.len() == self.choices@.len(),
                pointwise_le(candidate@, self.choices@),
                forall|u: int|
                    0 <= u < ivs@.len() ==> (#[trigger] ivs@[u]).0 < self.choices@.len()
                        ==> ivs@[u].1 <= self.choices@[ivs@[u].0 as int],
                forall|u: int| 0 <= u < t ==> (#[trigger] ivs@[u]).0 < self.choices@.len(),
                apply_updates(self.choices@, ivs@) == apply_updates(
                    candidate@,
                    ivs@.subrange(t as int, ivs@.len() as int),
                ),
            decreases ivs@.len() - t,
        {
            let (idx, v) = ivs[t];
            if idx >= candidate.len() {
                return Ok(false);
            }
            let ghost cand0 = candidate@;
            let ghost rest = ivs@.subrange(t as int, ivs@.len() as int);
            candidate[idx] = v;
            t = t + 1;
            proof {
                assert(rest[0] == ivs@[t - 1]);
                assert(candidate@ == cand0.update(rest[0].0 as int, rest[0].1));
                assert(apply_updates(cand0, rest) == apply_updates(
                    candidate@,
                    rest.subrange(1, rest.len() as int),
                ));
                assert(rest.subrange(1, rest.len() as int) =~= ivs@.subrange(
                    t as int,
                    ivs@.len() as int,
                ));
            }
        }
        proof {
            assert(forall|u: int|
                0 <= u < ivs@.len() ==> (#[trigger] ivs@[u]).0 < self.choices@.len());
            if candidate@ != self.choices@ {
                lemma_pointwise_val_lt(candidate@, self.choices@);
            }
            assert(t == ivs@.len());
            assert(apply_updates(self.choices@, ivs@) == apply_updates(
                candidate@,
                ivs@.subrange(t as int, ivs@.len() as int),
            ));
            assert(ivs@.subrange(t as int, ivs@.len() as int).len() == 0);
            assert(apply_updates(
                candidate@,
                ivs@.subrange(t as int, ivs@.len() as int),
            ) == candidate@);
            assert(candidate@ == apply_updates(self.choices@, ivs@));
            if ivs@.len() == 1 && ivs@[0].0 < self.choices@.len() {
                assert(ivs@.subrange(1, 1).len() == 0);
                assert(apply_updates(
                    self.choices@.update(ivs@[0].0 as int, ivs@[0].1),
                    ivs@.subrange(1, 1),
                ) == self.choices@.update(ivs@[0].0 as int, ivs@[0].1));
                assert(apply_updates(self.choices@, ivs@) == self.choices@.update(
                    ivs@[0].0 as int,
                    ivs@[0].1,
                ));
            }
        }
        self.consider(property, vm, &candidate)
    }

    /// Replace the value at one position with a smaller one by binary
    /// search: try `lo` outright and return it if accepted; otherwise keep
    /// an interval whose low end was rejected and whose high end stands
    /// for the current value, halve it until it closes, and return the
    /// closing high end — the last accepted probe, or `hi` when every
    /// probe was rejected. The searched value is exactly what
    /// [`search_from`] computes from the bridge.
    pub fn binary_search_replace<B: VmBridge>(
        &mut self,
        property: &PropertyTest,
        vm: &B,
        lo: u32,
        hi: u32,
        index: usize,
    ) -> (r: Result<u32, FatalError>)
        requires
            lo <= hi,
            index < old(self).choices@.len() ==> hi <= old(self).choices@[index as int],
        ensures
            final(self).choices@.len() == old(self).choices@.len(),
            shrink_inv(vm, property.can_error, *old(self), *final(self)),
            final(self).choices@ == old(self).choices@ ==> *final(self) == *old(self),
            r matches Ok(v) ==> lo <= v <= hi,
            r matches Ok(v) ==> (*final(self) != *old(self) ==> index < old(
                self,
            ).choices@.len() && final(self).choices@ == old(self).choices@.update(
                index as int,
                v,
            ) && v < old(self).choices@[index as int] && fails_with(
                vm,
                property.can_error,
                *final(self),
            ) && replay_pair(vm, *final(self))),
            r is Ok && *final(self) == *old(self) && index < old(self).choices@.len() && old(
                self,
            ).choices@[index as int] != lo ==> !would_accept(
                vm,
                property.can_error,
                old(self).choices@,
                old(self).choices@.update(index as int, lo),
            ),
            r is Ok && index < old(self).choices@.len() && (old(self).choices@[index as int] == lo
                || would_accept(
                vm,
                property.can_error,
                old(self).choices@,
                old(self).choices@.update(index as int, lo),
            )) ==> r == Ok::<u32, FatalError>(lo),
            r matches Ok(v) ==> (index < old(self).choices@.len() && old(
                self,
            ).choices@[index as int] != lo && !would_accept(
                vm,
                property.can_error,
                old(self).choices@,
                old(self).choices@.update(index as int, lo),
            ) ==> ({
                let (sv, sc) = search_from(
                    vm,
                    property.can_error,
                    old(self).choices@,
                    index as int,
                    lo as int,
                    hi as int,
                    false,
                );
                &&& v as int == sv
                &&& sc == (*final(self) != *old(self))
            })),
            r matches Ok(v) ==> (index >= old(self).choices@.len() ==> v == hi && *final(self)
                == *old(self)),
            r is Ok && *final(self) == *old(self) && index < old(self).choices@.len() && old(
                self,
            ).choices@[index as int] != lo ==> r == Ok::<u32, FatalError>(hi),
            *final(self) != *old(self) ==> fails_with(vm, property.can_error, *final(self))
                && replay_pair(vm, *final(self)),
            r is Ok && *final(self) == *old(self) && index < old(self).choices@.len()
                ==> lowering_done_from(
                vm,
                property.can_error,
                old(self).choices@,
                index as int,
                lo as int,
                hi as int,
            ),
            replays_total(vm) ==> r is Ok,
    {
        let mut first: Vec<(usize, u32)> = Vec::new();
        first.push((index, lo));
        proof {
            assert(first@[0] == (index, lo));
        }
        match self.replace(property, vm, first) {
            Err(e) => {
                return Err(e);
            },
            Ok(true) => {
                proof {
                    if *self != *old(self) {
                        if old(self).choices@[index as int] == lo {
                            assert(old(self).choices@.update(index as int, lo) =~= old(
                                self,
                            ).choices@);
                        }
                    }
                }
                return Ok(lo);
            },
            Ok(false) => {},
        }
        let mut cur_lo = lo;
        let mut cur_hi = hi;
        while cur_hi - cur_lo > 1
            invariant
                lo <= cur_lo <= cur_hi <= hi,
                index < self.choices@.len() ==> cur_hi <= self.choices@[index as int],
                self.choices@.len() == old(self).choices@.len(),
                shrink_inv(vm, property.can_error, *old(self), *self),
                self.choices@ == old(self).choices@ ==> *self == *old(self),
                *self != *old(self) ==> index < old(self).choices@.len() && self.choices@ == old(
                    self,
                ).choices@.update(index as int, cur_hi as u32) && cur_hi < old(
                    self,
                ).choices@[index as int] && fails_with(vm, property.can_error, *self)
                    && replay_pair(vm, *self),
                *self == *old(self) ==> cur_hi == hi && lo <= cur_lo,
                index < old(self).choices@.len() && old(self).choices@[index as int] != lo
                    && !would_accept(
                    vm,
                    property.can_error,
                    old(self).choices@,
                    old(self).choices@.update(index as int, lo),
                ) ==> search_from(
                    vm,
                    property.can_error,
                    old(self).choices@,
                    index as int,
                    cur_lo as int,
                    cur_hi as int,
                    *self != *old(self),
                ) == search_from(
                    vm,
                    property.can_error,
                    old(self).choices@,
                    index as int,
                    lo as int,
                    hi as int,
                    false,
                ),
                *self == *old(self) && index < old(self).choices@.len() ==> (lowering_done_from(
                    vm,
                    property.can_error,
                    old(self).choices@,
                    index as int,
                    cur_lo as int,
                    cur_hi as int,
                ) ==> lowering_done_from(
                    vm,
                    property.can_error,
                    old(self).choices@,
                    index as int,
                    lo as int,
                    hi as int,
                )),
            decreases cur_hi - cur_lo,
        {
            let mid = cur_lo + (cur_hi - cur_lo) / 2;
            let mut ivs: Vec<(usize, u32)> = Vec::new();
            ivs.push((index, mid));
            let ghost upd = ivs@;
            proof {
                assert(upd.len() == 1 && upd[0] == (index, mid));
                if index < self.choices@.len() {
                    assert forall|t: int| 0 <= t < ivs@.len() implies (#[trigger] ivs@[t]).0
                        < self.choices@.len() by {
                        assert(ivs@[t] == (index, mid));
                    }
                }
            }
            let ghost pre = *self;
            match self.replace(property, vm, ivs) {
                Err(e) => {
                    return Err(e);
                },
                Ok(true) => {
                    proof {
                        lemma_shrink_inv_trans(vm, property.can_error, *old(self), pre, *self);
                        if self.choices@ == old(self).choices@ {
                            lemma_no_worse_antisym(old(self).choices@, pre.choices@);
                        }
                        assert(index < pre.choices@.len()) by {
                            if index >= pre.choices@.len() {
                                assert(upd[0].0 >= pre.choices@.len());
                            }
                        }
                        assert(self.choices@ == pre.choices@.update(index as int, mid));
                        if pre != *old(self) {
                            assert(self.choices@ =~= old(self).choices@.update(
                                index as int,
                                mid as u32,
                            ));
                        }
                        if pre.choices@[index as int] == mid {
                            assert(pre.choices@.update(index as int, mid) =~= pre.choices@);
                        }
                        assert(*self != *old(self));
                    }
                    cur_hi = mid;
                },
                Ok(false) => {
                    proof {
                        if *self == *old(self) && index < old(self).choices@.len() {
                            assert(old(self).choices@.update(index as int, mid)[index as int]
                                == mid);
                            assert(old(self).choices@.update(index as int, mid) != old(
                                self,
                            ).choices@);
                        }
                    }
                    cur_lo = mid;
                },
            }
        }
        Ok(cur_hi)
    }

    /// Shrink the counterexample to a fixed point: repeat chunked deletion
    /// (chunks of 8, 4, 2 and 1, with a decrement of the preceding choice
    /// to cope with length-prefix dependencies), replacement of blocks of
    /// 8, 4 and 2 choices by zeroes, and a binary-search reduction of each
    /// single choice, until one full round leaves the choices unchanged.
    /// The choices only ever get shorter, or smaller at equal length; a
    /// failing counterexample keeps failing, and whenever the pair changed
    /// at all, the reported value is exactly what replaying the reported
    /// choices generates. On return no chunk deletion, no deletion with a
    /// decrement, no zero-replacement probe of the block pass's schedule,
    /// no single-choice zeroing and no binary-search probe would be
    /// accepted, and with a fuzzer that answers every replay the result is
    /// never an error.
    pub fn simplify<B: VmBridge>(&mut self, property: &PropertyTest, vm: &B) -> (r: Result<
        (),
        FatalError,
    >)
        ensures
            shrink_inv(vm, property.can_error, *old(self), *final(self)),
            final(self).choices@ == old(self).choices@ ==> *final(self) == *old(self),
            *final(self) != *old(self) ==> replay_pair(vm, *final(self)),
            replays_total(vm) ==> r is Ok,
            old(self).choices@.len() == 0 ==> r is Ok && *final(self) == *old(self),
            r matches Ok(_) ==> forall|j: int|
                0 <= j < final(self).choices@.len() && final(self).choices@[j] != 0
                    ==> !would_accept(
                    vm,
                    property.can_error,
                    final(self).choices@,
                    #[trigger] final(self).choices@.update(j, 0u32),
                ),
            r matches Ok(_) ==> forall|j: int|
                0 <= j < final(self).choices@.len() ==> lowering_done_from(
                    vm,
                    property.can_error,
                    final(self).choices@,
                    j,
                    0,
                    #[trigger] final(self).choices@[j] as int,
                ),
            r matches Ok(_) ==> deletion_done(vm, property.can_error, final(self).choices@),
            r matches Ok(_) ==> decrement_done(vm, property.can_error, final(self).choices@),
            r matches Ok(_) ==> zero_blocks_done(vm, property.can_error, final(self).choices@),
    {
        loop
            invariant
                shrink_inv(vm, property.can_error, *old(self), *self),
                self.choices@ == old(self).choices@ ==> *self == *old(self),
                *self != *old(self) ==> replay_pair(vm, *self),
            ensures
                shrink_inv(vm, property.can_error, *old(self), *self),
                self.choices@ == old(self).choices@ ==> *self == *old(self),
                *self != *old(self) ==> replay_pair(vm, *self),
                forall|j: int|
                    0 <= j < self.choices@.len() && self.choices@[j] != 0 ==> !would_accept(
                        vm,
                        property.can_error,
                        self.choices@,
                        #[trigger] self.choices@.update(j, 0u32),
                    ),
                forall|j: int|
                    0 <= j < self.choices@.len() ==> lowering_done_from(
                        vm,
                        property.can_error,
                        self.choices@,
                        j,
                        0,
                        #[trigger] self.choices@[j] as int,
                    ),
                deletion_done(vm, property.can_error, self.choices@),
                decrement_done(vm, property.can_error, self.choices@),
                zero_blocks_done(vm, property.can_error, self.choices@),
            decreases self.choices@.len(), seq_val(self.choices@),
        {
            let prev = copy_choices(&self.choices);
            let ghost top = *self;

            // Deleting chunks of choices, longest chunks first, so that
            // whole composite elements can disappear at once.
            let mut k: usize = 8;
            while k > 0
                invariant
                    k == 8 || k == 4 || k == 2 || k == 1 || k == 0,
                    shrink_inv(vm, property.can_error, *old(self), *self),
                    shrink_inv(vm, property.can_error, top, *self),
                    self.choices@ == old(self).choices@ ==> *self == *old(self),
                    *self != *old(self) ==> replay_pair(vm, *self),
                    self.choices@ == top.choices@ ==> deletion_done_above(
                        vm,
                        property.can_error,
                        top.choices@,
                        k as int,
                    ),
                    self.choices@ == top.choices@ ==> decrement_done_above(
                        vm,
                        property.can_error,
                        top.choices@,
                        k as int,
                    ),
                decreases k,
            {
                let mut i: usize;
                let mut underflow: bool;
                if self.choices.len() < k {
                    i = 0;
                    underflow = true;
                } else {
                    i = self.choices.len() - k;
                    underflow = false;
                }
                while !underflow
                    invariant
                        k == 8 || k == 4 || k == 2 || k == 1,
                        shrink_inv(vm, property.can_error, *old(self), *self),
                        shrink_inv(vm, property.can_error, top, *self),
                    self.choices@ == old(self).choices@ ==> *self == *old(self),
                    *self != *old(self) ==> replay_pair(vm, *self),
                        self.choices@ == top.choices@ ==> deletion_done_above(
                            vm,
                            property.can_error,
                            top.choices@,
                            k as int,
                        ),
                        self.choices@ == top.choices@ ==> decrement_done_above(
                            vm,
                            property.can_error,
                            top.choices@,
                            k as int,
                        ),
                        self.choices@ == top.choices@ && !underflow ==> i + k
                            <= top.choices@.len(),
                        self.choices@ == top.choices@ ==> forall|i2: int|
                            (if underflow {
                                0
                            } else {
                                i + 1
                            }) <= i2 && i2 + k <= top.choices@.len() ==> !would_accept(
                                vm,
                                property.can_error,
                                top.choices@,
                                #[trigger] remove_chunk(top.choices@, i2, k as int),
                            ),
                        self.choices@ == top.choices@ ==> forall|i2: int|
                            (if underflow {
                                0
                            } else {
                                i + 1
                            }) <= i2 && i2 + k <= top.choices@.len() && 0 < i2
                                && top.choices@[i2 - 1] > 0 ==> !would_accept(
                                vm,
                                property.can_error,
                                top.choices@,
                                #[trigger] decremented_chunk(top.choices@, i2, k as int),
                            ),
                    decreases self.choices@.len(), idx_rank(i, underflow),
                {
                    if i >= self.choices.len() {
                        if i == 0 {
                            underflow = true;
                        } else {
                            i = i - 1;
                        }
                        continue;
                    }
                    let ghost pre_i = i;
                    let mut candidate: Vec<u32> = Vec::new();
                    let mut t: usize = 0;
                    while t < i
                        invariant
                            t <= i,
                            i < self.choices@.len(),
                            candidate@.len() == t,
                            forall|u: int| 0 <= u < t ==> candidate@[u] == self.choices@[u],
                        decreases i - t,
                    {
                        candidate.push(self.choices[t]);
                        t = t + 1;
                    }
                    if let Some(j) = i.checked_add(k) {
                        let mut t2: usize = j;
                        while t2 < self.choices.len()
                            invariant
                                i < self.choices@.len(),
                                j == i + k,
                                1 <= k,
                                j <= t2,
                                t2 <= usize::MAX,
                                t2 >= self.choices@.len() || j <= t2 < self.choices@.len(),
                                t2 <= self.choices@.len() || t2 == j,
                                candidate@.len() == i + (t2 - j) || (candidate@.len() == i && t2
                                    == j),
                                candidate@.len() < self.choices@.len() || candidate@.len() == i,
                                forall|u: int| 0 <= u < i ==> candidate@[u] == self.choices@[u],
                                forall|u: int|
                                    i <= u < candidate@.len() ==> candidate@[u] == self.choices@[u
                                        - i + j],
                            decreases self.choices@.len() - t2,
                        {
                            candidate.push(self.choices[t2]);
                            t2 = t2 + 1;
                        }
                    }
                    proof {
                        assert(candidate@.len() < self.choices@.len());
                        if i + k <= self.choices@.len() {
                            assert(candidate@.len() == self.choices@.len() - k);
                            assert(forall|u: int|
                                0 <= u < i ==> candidate@[u] == self.choices@[u]);
                            assert forall|u: int|
                                i <= u < candidate@.len() implies candidate@[u]
                                == self.choices@[u + k] by {}
                        }
                    }
                    let ghost pre = *self;
                    let ghost cand0 = candidate@;
                    let accepted = match self.consider(property, vm, &candidate) {
                        Err(e) => {
                            proof {
                                lemma_shrink_inv_trans(
                                    vm,
                                    property.can_error,
                                    *old(self),
                                    pre,
                                    *self,
                                );
                            }
                            return Err(e);
                        },
                        Ok(a) => a,
                    };
                    let ghost mid = *self;
                    proof {
                        lemma_shrink_inv_trans(vm, property.can_error, *old(self), pre, *self);
                        lemma_shrink_inv_trans(vm, property.can_error, top, pre, *self);
                        if self.choices@ == old(self).choices@ {
                            lemma_no_worse_antisym(old(self).choices@, pre.choices@);
                        }
                    }
                    if !accepted {
                        if i > 0 && candidate[i - 1] > 0 {
                            let dec = candidate[i - 1] - 1;
                            candidate[i - 1] = dec;
                            let ghost pre2 = *self;
                            let accepted2 = match self.consider(property, vm, &candidate) {
                                Err(e) => {
                                    proof {
                                        lemma_shrink_inv_trans(
                                            vm,
                                            property.can_error,
                                            *old(self),
                                            pre2,
                                            *self,
                                        );
                                    }
                                    return Err(e);
                                },
                                Ok(a) => a,
                            };
                            proof {
                                lemma_shrink_inv_trans(
                                    vm,
                                    property.can_error,
                                    *old(self),
                                    pre2,
                                    *self,
                                );
                                lemma_shrink_inv_trans(vm, property.can_error, top, pre2, *self);
                                if self.choices@ == old(self).choices@ {
                                    lemma_no_worse_antisym(old(self).choices@, pre2.choices@);
                                }
                            }
                            if accepted2 {
                                i = i + 1;
                            }
                        }
                        if i == 0 {
                            underflow = true;
                        } else {
                            i = i - 1;
                        }
                    }
                    proof {
                        if self.choices@ == top.choices@ {
                            lemma_no_worse_trans(pre.choices@, mid.choices@, self.choices@);
                            lemma_no_worse_antisym(top.choices@, pre.choices@);
                            lemma_no_worse_antisym(top.choices@, mid.choices@);
                            let cut = remove_chunk(top.choices@, pre_i as int, k as int);
                            assert(pre.choices@ == top.choices@);
                            assert(pre_i + k <= top.choices@.len());
                            assert(cand0.len() == top.choices@.len() - k);
                            assert forall|u: int| 0 <= u < cand0.len() implies cand0[u] == cut[u]
                                by {
                                if u < pre_i {
                                    assert(cand0[u] == pre.choices@[u]);
                                    assert(cut[u] == top.choices@.subrange(0, pre_i as int)[u]);
                                } else {
                                    assert(cand0[u] == pre.choices@[u - pre_i + (pre_i + k)]);
                                    assert(cut[u] == top.choices@.subrange(
                                        pre_i + k,
                                        top.choices@.len() as int,
                                    )[u - pre_i]);
                                }
                            }
                            assert(cand0 =~= cut);
                            if pre_i > 0 && top.choices@[pre_i - 1] > 0 {
                                assert(cand0[pre_i - 1] == top.choices@[pre_i - 1]);
                                assert(!would_accept(
                                    vm,
                                    property.can_error,
                                    top.choices@,
                                    decremented_chunk(top.choices@, pre_i as int, k as int),
                                ));
                            }
                        }
                    }
                }
                proof {
                    if self.choices@ == top.choices@ {
                        assert forall|i2: int, k2: int|
                            (k2 == 1 || k2 == 2 || k2 == 4 || k2 == 8) && k2 > k / 2 && 0 <= i2
                                && i2 + k2 <= top.choices@.len() implies !would_accept(
                            vm,
                            property.can_error,
                            top.choices@,
                            #[trigger] remove_chunk(top.choices@, i2, k2),
                        ) by {
                            if k2 == k {
                                assert(!would_accept(
                                    vm,
                                    property.can_error,
                                    top.choices@,
                                    remove_chunk(top.choices@, i2, k as int),
                                ));
                            }
                        }
                        assert forall|i2: int, k2: int|
                            (k2 == 1 || k2 == 2 || k2 == 4 || k2 == 8) && k2 > k / 2 && 0 < i2
                                && i2 + k2 <= top.choices@.len() && top.choices@[i2 - 1] > 0
                            implies !would_accept(
                            vm,
                            property.can_error,
                            top.choices@,
                            #[trigger] decremented_chunk(top.choices@, i2, k2),
                        ) by {
                            if k2 == k {
                                assert(!would_accept(
                                    vm,
                                    property.can_error,
                                    top.choices@,
                                    decremented_chunk(top.choices@, i2, k as int),
                                ));
                            }
                        }
                    }
                }
                k = k / 2;
            }

            // Replacing blocks of choices with zeroes; single positions are
            // left to the binary-search reduction below.
            let mut k2: usize = 8;
            while k2 > 1
                invariant
                    k2 == 8 || k2 == 4 || k2 == 2 || k2 == 1,
                    shrink_inv(vm, property.can_error, *old(self), *self),
                    shrink_inv(vm, property.can_error, top, *self),
                    self.choices@ == old(self).choices@ ==> *self == *old(self),
                    *self != *old(self) ==> replay_pair(vm, *self),
                    self.choices@ == top.choices@ ==> deletion_done(
                        vm,
                        property.can_error,
                        top.choices@,
                    ),
                    self.choices@ == top.choices@ ==> decrement_done(
                        vm,
                        property.can_error,
                        top.choices@,
                    ),
                    self.choices@ == top.choices@ ==> forall|k3: int|
                        (k3 == 2 || k3 == 4 || k3 == 8) && k3 > k2 ==> #[trigger] zero_pass_done(
                            vm,
                            property.can_error,
                            top.choices@,
                            k3,
                            top.choices@.len() - k3,
                        ),
                decreases k2,
            {
                if self.choices.len() >= k2 {
                    let ghost len2 = self.choices@.len();
                    let mut i: usize = self.choices.len() - k2;
                    let mut underflow2: bool = false;
                    let ghost mut vi: int = i as int;
                    while !underflow2
                        invariant
                            2 <= k2 <= 8,
                            i + k2 <= usize::MAX,
                            self.choices@.len() == len2,
                            k2 <= len2,
                            !underflow2 ==> vi == i as int && i + k2 <= len2,
                            underflow2 ==> vi < 0,
                            shrink_inv(vm, property.can_error, *old(self), *self),
                            shrink_inv(vm, property.can_error, top, *self),
                            self.choices@ == old(self).choices@ ==> *self == *old(self),
                            *self != *old(self) ==> replay_pair(vm, *self),
                            self.choices@ == top.choices@ ==> deletion_done(
                                vm,
                                property.can_error,
                                top.choices@,
                            ),
                            self.choices@ == top.choices@ ==> decrement_done(
                                vm,
                                property.can_error,
                                top.choices@,
                            ),
                            self.choices@ == top.choices@ ==> forall|k3: int|
                                (k3 == 2 || k3 == 4 || k3 == 8) && k3 > k2
                                    ==> #[trigger] zero_pass_done(
                                    vm,
                                    property.can_error,
                                    top.choices@,
                                    k3,
                                    top.choices@.len() - k3,
                                ),
                            self.choices@ == top.choices@ ==> (zero_pass_done(
                                vm,
                                property.can_error,
                                top.choices@,
                                k2 as int,
                                vi,
                            ) ==> zero_pass_done(
                                vm,
                                property.can_error,
                                top.choices@,
                                k2 as int,
                                top.choices@.len() - k2,
                            )),
                        decreases idx_rank(i, underflow2),
                    {
                        let mut ivs: Vec<(usize, u32)> = Vec::new();
                        let mut t: usize = 0;
                        while t < k2
                            invariant
                                t <= k2,
                                i + k2 <= usize::MAX,
                                k2 <= 8,
                                ivs@.len() == t,
                                forall|u: int|
                                    0 <= u < t ==> (#[trigger] ivs@[u]) == ((i + u) as usize,
                                    0u32),
                            decreases k2 - t,
                        {
                            ivs.push((i + t, 0u32));
                            t = t + 1;
                        }
                        let ghost upd = ivs@;
                        proof {
                            if i + k2 <= self.choices@.len() {
                                assert forall|u: int| 0 <= u < ivs@.len() implies (
                                #[trigger] ivs@[u]).0 < self.choices@.len() by {
                                    assert(ivs@[u] == ((i + u) as usize, 0u32));
                                }
                            }
                        }
                        let ghost pre = *self;
                        let accepted = match self.replace(property, vm, ivs) {
                            Err(e) => {
                                proof {
                                    lemma_shrink_inv_trans(
                                        vm,
                                        property.can_error,
                                        *old(self),
                                        pre,
                                        *self,
                                    );
                                    if self.choices@ == old(self).choices@ {
                                        lemma_no_worse_antisym(old(self).choices@, pre.choices@);
                                    }
                                }
                                return Err(e);
                            },
                            Ok(a) => a,
                        };
                        proof {
                            lemma_shrink_inv_trans(vm, property.can_error, *old(self), pre, *self);
                            lemma_shrink_inv_trans(vm, property.can_error, top, pre, *self);
                            if self.choices@ == top.choices@ {
                                lemma_no_worse_antisym(top.choices@, pre.choices@);
                                lemma_apply_zero_block(pre.choices@, upd, i as int, k2 as int);
                                let blk = zero_block(top.choices@, i as int, k2 as int);
                                if accepted {
                                    assert(blk == top.choices@);
                                    assert(zero_pass_done(
                                        vm,
                                        property.can_error,
                                        top.choices@,
                                        k2 as int,
                                        vi,
                                    ) == zero_pass_done(
                                        vm,
                                        property.can_error,
                                        top.choices@,
                                        k2 as int,
                                        vi - k2,
                                    ));
                                } else {
                                    assert(blk != top.choices@);
                                    assert(!would_accept(vm, property.can_error, top.choices@, blk));
                                    assert(zero_pass_done(
                                        vm,
                                        property.can_error,
                                        top.choices@,
                                        k2 as int,
                                        vi,
                                    ) == (!would_accept(vm, property.can_error, top.choices@, blk)
                                        && zero_pass_done(
                                        vm,
                                        property.can_error,
                                        top.choices@,
                                        k2 as int,
                                        vi - 1,
                                    )));
                                }
                            }
                            if self.choices@ == old(self).choices@ {
                                lemma_no_worse_antisym(old(self).choices@, pre.choices@);
                            }
                        }
                        if accepted {
                            proof {
                                vi = vi - k2;
                            }
                            if i >= k2 {
                                i = i - k2;
                            } else {
                                underflow2 = true;
                            }
                        } else {
                            proof {
                                vi = vi - 1;
                            }
                            if i == 0 {
                                underflow2 = true;
                            } else {
                                i = i - 1;
                            }
                        }
                    }
                    proof {
                        if self.choices@ == top.choices@ {
                            assert(zero_pass_done(
                                vm,
                                property.can_error,
                                top.choices@,
                                k2 as int,
                                vi,
                            ));
                        }
                    }
                } else {
                    proof {
                        if self.choices@ == top.choices@ {
                            assert(top.choices@.len() - k2 < 0);
                            assert(zero_pass_done(
                                vm,
                                property.can_error,
                                top.choices@,
                                k2 as int,
                                top.choices@.len() - k2,
                            ));
                        }
                    }
                }
                proof {
                    if self.choices@ == top.choices@ {
                        assert forall|k3: int| (k3 == 2 || k3 == 4 || k3 == 8) && k3 > k2 / 2
                            implies #[trigger] zero_pass_done(
                            vm,
                            property.can_error,
                            top.choices@,
                            k3,
                            top.choices@.len() - k3,
                        ) by {
                            if k3 == k2 {
                                assert(zero_pass_done(
                                    vm,
                                    property.can_error,
                                    top.choices@,
                                    k2 as int,
                                    top.choices@.len() - k2,
                                ));
                            }
                        }
                    }
                }
                k2 = k2 / 2;
            }

            // Binary-search reduction of single choices, last one first.
            let mut i3: usize;
            let mut underflow3: bool;
            if self.choices.len() == 0 {
                i3 = 0;
                underflow3 = true;
            } else {
                i3 = self.choices.len() - 1;
                underflow3 = false;
            }
            let ghost len3 = self.choices@.len();
            let ghost start3 = self.choices@;
            while !underflow3
                invariant
                    self.choices@.len() == len3,
                    !underflow3 ==> i3 < len3,
                    shrink_inv(vm, property.can_error, *old(self), *self),
                    shrink_inv(vm, property.can_error, top, *self),
                    self.choices@ == old(self).choices@ ==> *self == *old(self),
                    *self != *old(self) ==> replay_pair(vm, *self),
                    no_worse(start3, self.choices@),
                    self.choices@ == top.choices@ ==> deletion_done(
                        vm,
                        property.can_error,
                        top.choices@,
                    ),
                    self.choices@ == top.choices@ ==> decrement_done(
                        vm,
                        property.can_error,
                        top.choices@,
                    ),
                    self.choices@ == top.choices@ ==> zero_blocks_done(
                        vm,
                        property.can_error,
                        top.choices@,
                    ),
                    self.choices@ == start3 ==> forall|j: int|
                        (if underflow3 {
                            0
                        } else {
                            i3 + 1
                        }) <= j < len3 && start3[j] != 0 ==> !would_accept(
                            vm,
                            property.can_error,
                            start3,
                            #[trigger] start3.update(j, 0u32),
                        ),
                    self.choices@ == start3 ==> forall|j: int|
                        (if underflow3 {
                            0
                        } else {
                            i3 + 1
                        }) <= j < len3 ==> lowering_done_from(
                            vm,
                            property.can_error,
                            start3,
                            j,
                            0,
                            #[trigger] start3[j] as int,
                        ),
                decreases idx_rank(i3, underflow3),
            {
                let hi = self.choices[i3];
                let ghost pre = *self;
                match self.binary_search_replace(property, vm, 0, hi, i3) {
                    Err(e) => {
                        proof {
                            lemma_shrink_inv_trans(vm, property.can_error, *old(self), pre, *self);
                            if self.choices@ == old(self).choices@ {
                                lemma_no_worse_antisym(old(self).choices@, pre.choices@);
                            }
                        }
                        return Err(e);
                    },
                    Ok(_) => {},
                }
                proof {
                    lemma_shrink_inv_trans(vm, property.can_error, *old(self), pre, *self);
                    lemma_shrink_inv_trans(vm, property.can_error, top, pre, *self);
                    lemma_no_worse_trans(start3, pre.choices@, self.choices@);
                    if self.choices@ == start3 {
                        lemma_no_worse_antisym(start3, pre.choices@);
                    }
                    if self.choices@ == top.choices@ {
                        lemma_no_worse_antisym(top.choices@, pre.choices@);
                    }
                    if self.choices@ == old(self).choices@ {
                        lemma_no_worse_antisym(old(self).choices@, pre.choices@);
                    }
                }
                if i3 == 0 {
                    underflow3 = true;
                } else {
                    i3 = i3 - 1;
                }
            }

            if vecs_equal(&prev, &self.choices) {
                proof {
                    lemma_no_worse_antisym(start3, self.choices@);
                }
                break;
            }
        }
        Ok(())
    }
}

} // verus!
