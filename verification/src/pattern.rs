//! Beat-aligned group traversals: the step orders each pattern type
//! derives from a group's ordered member list, and the cycle timing that
//! the pattern renderer follows.

use vstd::prelude::*;
use crate::rng::shuffle;

verus! {

/// The traversal shapes a pattern preset can name.
#[derive(Debug, Clone, Copy, PartialEq, Eq, Structural)]
pub enum PatternType {
    /// One board per step, in member order.
    Wave,
    /// One board per step, in reverse member order.
    WaveReverse,
    /// Two steps: the even-indexed members, then the odd-indexed ones.
    Alternate,
    /// Pairs from both ends collapsing towards the centre.
    OutsideIn,
    /// The reverse of `OutsideIn`.
    CenterOut,
    /// Wave steps, with the traversal direction alternating per cycle.
    PingPong,
    /// Wave steps in a random order, re-rolled once per start.
    Random,
}

/// One step of a pattern: the boards lit together.
#[derive(Debug, Clone)]
pub struct PatternStep {
    /// Boards lit during this step.
    pub board_ids: Vec<String>,
}

/// A fully derived pattern: its steps and the duration of one cycle.
#[derive(Debug, Clone)]
pub struct PatternSequence {
    /// The steps of one cycle, in traversal order.
    pub steps: Vec<PatternStep>,
    /// Length of one cycle in milliseconds.
    pub total_duration_ms: u64,
}

/// The step list seen abstractly: each step as the sequence of its boards.
pub open spec fn steps_view(steps: Seq<Vec<String>>) -> Seq<Seq<String>> {
    steps.map_values(|v: Vec<String>| v@)
}

/// Wave: one singleton step per member, in order.
pub open spec fn spec_wave(members: Seq<String>) -> Seq<Seq<String>> {
    Seq::new(members.len(), |i: int| seq![members[i]])
}

/// Alternate: the members at even indices, then those at odd indices.
pub open spec fn spec_alternate(members: Seq<String>) -> Seq<Seq<String>> {
    seq![
        Seq::new((members.len() + 1) / 2, |i: int| members[2 * i]),
        Seq::new(members.len() / 2, |i: int| members[2 * i + 1]),
    ]
}

/// OutsideIn: step `i` pairs member `i` with member `n-1-i`; the middle
/// member of an odd-length list stands alone.
pub open spec fn spec_outside_in(members: Seq<String>) -> Seq<Seq<String>> {
    let n = members.len() as int;
    Seq::new(((n + 1) / 2) as nat, |i: int|
        if i == n - 1 - i {
            seq![members[i]]
        } else {
            seq![members[i], members[n - 1 - i]]
        })
}

/// The derived step order for every pattern type.  `Random` is listed with
/// the wave order here; the executable derivation shuffles it, so only the
/// multiset of its steps is pinned there.
pub open spec fn spec_steps(members: Seq<String>, pattern: PatternType) -> Seq<Seq<String>> {
    match pattern {
        PatternType::Wave => spec_wave(members),
        PatternType::WaveReverse => spec_wave(members).reverse(),
        PatternType::Alternate => spec_alternate(members),
        PatternType::OutsideIn => spec_outside_in(members),
        PatternType::CenterOut => spec_outside_in(members).reverse(),
        PatternType::PingPong => spec_wave(members),
        PatternType::Random => spec_wave(members),
    }
}

/// The reversed wave lists the members back to front, one per step.
///
/// Law: the WaveReverse order is exactly the reverse of the Wave order,
/// for every member list.
pub proof fn lemma_wave_reverse_is_reverse(members: Seq<String>)
    ensures
        spec_steps(members, PatternType::WaveReverse)
            == spec_steps(members, PatternType::Wave).reverse(),
{
}

/// Law: the CenterOut order is exactly the reverse of the OutsideIn order,
/// for every member list.
pub proof fn lemma_center_out_is_reverse(members: Seq<String>)
    ensures
        spec_steps(members, PatternType::CenterOut)
            == spec_steps(members, PatternType::OutsideIn).reverse(),
{
}

/// Derive the step order of a pattern over a group's ordered members.
///
/// For every type but `Random` the result is the exact order
/// [`spec_steps`] gives; for `Random` it is a permutation of the wave
/// steps.
pub fn transform_board_order(members: &Vec<String>, pattern: &PatternType)
    -> (r: Vec<Vec<String>>)
    ensures
        *pattern != PatternType::Random ==> steps_view(r@) == spec_steps(members@, *pattern),
        *pattern == PatternType::Random ==>
            steps_view(r@).to_multiset() == spec_wave(members@).to_multiset(),
        *pattern == PatternType::Random ==> r@.len() == members@.len(),
{
    let n = members.len();
    match pattern {
        PatternType::Wave | PatternType::PingPong => wave_order(members),
        PatternType::WaveReverse => {
            let mut r: Vec<Vec<String>> = Vec::new();
            let mut i: usize = 0;
            while i < n
                invariant
                    i <= n,
                    n == members@.len(),
                    r@.len() == i,
                    forall|j: int| 0 <= j < i ==> #[trigger] r@[j]@ == seq![members@[n - 1 - j]],
                decreases n - i,
            {
                let back = n - 1 - i;
                let step = vec![members[back].clone()];
                r.push(step);
                i = i + 1;
            }
            assert(steps_view(r@) =~= spec_wave(members@).reverse());
            r
        },
        PatternType::Alternate => {
            let half_up = n / 2 + n % 2;
            let half_down = n / 2;
            let mut evens: Vec<String> = Vec::new();
            let mut j: usize = 0;
            while j < half_up
                invariant
                    n == members@.len(),
                    half_up == (n + 1) / 2,
                    j <= half_up,
                    evens@.len() == j,
                    forall|t: int| 0 <= t < j ==> #[trigger] evens@[t] == members@[2 * t],
                decreases half_up - j,
            {
                evens.push(members[2 * j].clone());
                j = j + 1;
            }
            let mut odds: Vec<String> = Vec::new();
            let mut k: usize = 0;
            while k < half_down
                invariant
                    n == members@.len(),
                    half_down == n / 2,
                    k <= half_down,
                    odds@.len() == k,
                    forall|t: int| 0 <= t < k ==> #[trigger] odds@[t] == members@[2 * t + 1],
                decreases half_down - k,
            {
                odds.push(members[2 * k + 1].clone());
                k = k + 1;
            }
            assert(evens@ =~= spec_alternate(members@)[0]);
            assert(odds@ =~= spec_alternate(members@)[1]);
            let mut r: Vec<Vec<String>> = Vec::new();
            r.push(evens);
            r.push(odds);
            assert(steps_view(r@) =~= spec_alternate(members@));
            r
        },
        PatternType::OutsideIn => outside_in_order(members),
        PatternType::CenterOut => {
            let inner = outside_in_order(members);
            let m = inner.len();
            let mut r: Vec<Vec<String>> = Vec::new();
            let mut i: usize = 0;
            while i < m
                invariant
                    i <= m,
                    m == inner@.len(),
                    steps_view(inner@) == spec_outside_in(members@),
                    r@.len() == i,
                    forall|j: int| 0 <= j < i ==> #[trigger] r@[j]@ == inner@[m - 1 - j]@,
                decreases m - i,
            {
                r.push(clone_string_vec(&inner[m - 1 - i]));
                i = i + 1;
            }
            assert(steps_view(r@) =~= spec_outside_in(members@).reverse());
            r
        },
        PatternType::Random => {
            let mut r = wave_order(members);
            let ghost w = r@;
            shuffle(&mut r);
            proof {
                lemma_map_values_multiset(r@, w, |v: Vec<String>| v@);
            }
            r
        },
    }
}

/// Sequences with equal multisets keep equal multisets under a value map:
/// shuffling a step list shuffles its step views and nothing more.
proof fn lemma_map_values_multiset<A, B>(a: Seq<A>, b: Seq<A>, f: spec_fn(A) -> B)
    requires
        a.to_multiset() == b.to_multiset(),
    ensures
        a.map_values(f).to_multiset() == b.map_values(f).to_multiset(),
    decreases a.len(),
{
    broadcast use vstd::seq_lib::group_to_multiset_ensures;
    broadcast use vstd::multiset::group_multiset_axioms;

    if a.len() == 0 {
        assert(a.to_multiset().len() == a.len());
        assert(b.to_multiset().len() == b.len());
        assert(b.len() == 0);
        assert(a.map_values(f) =~= b.map_values(f));
    } else {
        let x = a[0];
        assert(a.contains(x));
        assert(a.to_multiset().count(x) > 0);
        assert(b.contains(x));
        let j = choose|j: int| 0 <= j < b.len() && b[j] == x;
        let a1 = a.remove(0);
        let b1 = b.remove(j);
        assert(a1.to_multiset() == a.to_multiset().remove(x));
        assert(b1.to_multiset() == b.to_multiset().remove(x));
        lemma_map_values_multiset(a1, b1, f);

        let ma = a.map_values(f);
        let mb = b.map_values(f);
        assert(ma.remove(0) =~= a1.map_values(f));
        assert(mb.remove(j) =~= b1.map_values(f));
        assert(ma.remove(0).to_multiset() == ma.to_multiset().remove(ma[0]));
        assert(mb.remove(j).to_multiset() == mb.to_multiset().remove(mb[j]));
        assert(ma[0] == f(x));
        assert(mb[j] == f(x));
        assert(ma.contains(ma[0]));
        assert(ma.to_multiset().count(f(x)) > 0);
        assert(mb.contains(mb[j]));
        assert(mb.to_multiset().count(f(x)) > 0);
        assert forall|e: B| ma.to_multiset().count(e) == mb.to_multiset().count(e) by {
            if e == f(x) {
                assert(ma.to_multiset().remove(f(x)).count(e) + 1 == ma.to_multiset().count(e));
                assert(mb.to_multiset().remove(f(x)).count(e) + 1 == mb.to_multiset().count(e));
            } else {
                assert(ma.to_multiset().remove(f(x)).count(e) == ma.to_multiset().count(e));
                assert(mb.to_multiset().remove(f(x)).count(e) == mb.to_multiset().count(e));
            }
        }
        assert(ma.to_multiset() =~= mb.to_multiset());
    }
}

/// The wave order: one singleton step per member.
fn wave_order(members: &Vec<String>) -> (r: Vec<Vec<String>>)
    ensures
        steps_view(r@) == spec_wave(members@),
        r@.len() == members@.len(),
{
    let n = members.len();
    let mut r: Vec<Vec<String>> = Vec::new();
    let mut i: usize = 0;
    while i < n
        invariant
            i <= n,
            n == members@.len(),
            r@.len() == i,
            forall|j: int| 0 <= j < i ==> #[trigger] r@[j]@ == seq![members@[j]],
        decreases n - i,
    {
        let step = vec![members[i].clone()];
        r.push(step);
        i = i + 1;
    }
    assert(steps_view(r@) =~= spec_wave(members@));
    r
}

/// The OutsideIn order: pairs from both ends collapsing to the centre.
fn outside_in_order(members: &Vec<String>) -> (r: Vec<Vec<String>>)
    ensures
        steps_view(r@) == spec_outside_in(members@),
{
    let n = members.len();
    let half = n / 2 + n % 2;
    let mut r: Vec<Vec<String>> = Vec::new();
    let mut i: usize = 0;
    while i < half
        invariant
            i <= half,
            half == (n + 1) / 2,
            n == members@.len(),
            r@.len() == i,
            forall|j: int| 0 <= j < i ==> #[trigger] r@[j]@ == spec_outside_in(members@)[j],
        decreases half - i,
    {
        let mut step = vec![members[i].clone()];
        if i != n - 1 - i {
            step.push(members[n - 1 - i].clone());
        }
        r.push(step);
        i = i + 1;
    }
    assert(steps_view(r@) =~= spec_outside_in(members@));
    r
}

/// Copy a list of identifiers.
pub fn clone_string_vec(v: &Vec<String>) -> (r: Vec<String>)
    ensures
        r@ == v@,
{
    let mut r: Vec<String> = Vec::new();
    let mut i: usize = 0;
    while i < v.len()
        invariant
            i <= v@.len(),
            r@ == v@.subrange(0, i as int),
        decreases v@.len() - i,
    {
        r.push(v[i].clone());
        assert(v@.subrange(0, i + 1 as int)
            =~= v@.subrange(0, i as int) + seq![v@[i as int]]);
        i = i + 1;
    }
    assert(v@.subrange(0, v@.len() as int) =~= v@);
    r
}

/// The length of one pattern cycle: the beat period divided by the cue's
/// sync rate (given in thousandths).  A zero BPM or zero sync rate has no
/// beat to divide, so the cycle length is the no-beat sentinel, the
/// largest duration.
pub open spec fn spec_total_duration_ms(bpm: u32, sync_rate_milli: u32) -> u64 {
    if bpm == 0 || sync_rate_milli == 0 {
        u64::MAX
    } else {
        (60_000_000u64 / ((bpm * sync_rate_milli) as u64)) as u64
    }
}

/// Derive the full pattern sequence for a cue: step order plus cycle
/// duration.
pub fn generate_sequence(
    members: &Vec<String>,
    pattern: &PatternType,
    bpm: u32,
    sync_rate_milli: u32,
) -> (r: PatternSequence)
    ensures
        r.total_duration_ms == spec_total_duration_ms(bpm, sync_rate_milli),
        *pattern != PatternType::Random ==>
            r.steps@.map_values(|s: PatternStep| s.board_ids@)
                == spec_steps(members@, *pattern),
        *pattern == PatternType::Random ==>
            r.steps@.map_values(|s: PatternStep| s.board_ids@).to_multiset()
                == spec_wave(members@).to_multiset(),
{
    let order = transform_board_order(members, pattern);
    let mut steps: Vec<PatternStep> = Vec::new();
    let mut i: usize = 0;
    while i < order.len()
        invariant
            i <= order@.len(),
            steps@.len() == i,
            forall|j: int| 0 <= j < i ==>
                #[trigger] steps@[j].board_ids@ == order@[j]@,
        decreases order@.len() - i,
    {
        let mut ids: Vec<String> = Vec::new();
        let step = &order[i];
        let mut k: usize = 0;
        while k < step.len()
            invariant
                k <= step@.len(),
                step@ == order@[i as int]@,
                i < order@.len(),
                ids@ == step@.subrange(0, k as int),
            decreases step@.len() - k,
        {
            ids.push(step[k].clone());
            assert(step@.subrange(0, k + 1 as int)
                =~= step@.subrange(0, k as int) + seq![step@[k as int]]);
            k = k + 1;
        }
        assert(step@.subrange(0, step@.len() as int) =~= step@);
        steps.push(PatternStep { board_ids: ids });
        i = i + 1;
    }
    let total = total_duration_ms(bpm, sync_rate_milli);
    proof {
        let sv = steps@.map_values(|s: PatternStep| s.board_ids@);
        let ov = steps_view(order@);
        assert(sv =~= ov);
    }
    PatternSequence { steps, total_duration_ms: total }
}

/// Compute the cycle length for a BPM and sync rate.
pub fn total_duration_ms(bpm: u32, sync_rate_milli: u32) -> (r: u64)
    ensures
        r == spec_total_duration_ms(bpm, sync_rate_milli),
{
    if bpm == 0 || sync_rate_milli == 0 {
        u64::MAX
    } else {
        proof {
            assert(bpm as int * sync_rate_milli as int <= 0xffff_ffff * 0xffff_ffff)
                by (nonlinear_arith)
                requires bpm <= 0xffff_ffffu32 && sync_rate_milli <= 0xffff_ffffu32;
            assert(bpm as int * sync_rate_milli as int > 0) by (nonlinear_arith)
                requires bpm > 0 && sync_rate_milli > 0;
        }
        let denom: u64 = (bpm as u64) * (sync_rate_milli as u64);
        60_000_000u64 / denom
    }
}

/// Repeated halving of the step interval until the whole wave fits the
/// allowed portion of the cycle.
pub open spec fn spec_halve_to(sub: u64, max_step: u64) -> u64
    decreases sub,
{
    if sub > max_step && sub > 1 {
        spec_halve_to(sub / 2, max_step)
    } else {
        sub
    }
}

/// The interval between step starts inside one cycle: the cycle length
/// halved until the last step starts no later than half the cycle.
/// Single-step patterns have no interval.
pub open spec fn spec_step_interval_ms(total_ms: u64, num_steps: usize) -> u64 {
    if num_steps <= 1 {
        0
    } else {
        spec_halve_to(total_ms, (total_ms / 2) as u64 / ((num_steps - 1) as u64))
    }
}

/// Compute the step interval of a cycle.
pub fn step_interval_ms(total_ms: u64, num_steps: usize) -> (r: u64)
    ensures
        r == spec_step_interval_ms(total_ms, num_steps),
{
    if num_steps <= 1 {
        return 0;
    }
    let max_step: u64 = (total_ms / 2) / ((num_steps - 1) as u64);
    let mut sub: u64 = total_ms;
    while sub > max_step && sub > 1
        invariant
            spec_halve_to(sub, max_step) == spec_step_interval_ms(total_ms, num_steps),
        decreases sub,
    {
        sub = sub / 2;
    }
    sub
}

} // verus!
