//! The pattern renderer's command surface and cycle planner: each cycle
//! of a pattern becomes a timed list of frame operations that ends dark,
//! and the loop that paces them on the wire lives outside the library.

use vstd::prelude::*;
use crate::pattern::{clone_string_vec, PatternSequence, PatternStep};
use crate::rng::rand_below;

verus! {

/// Addressing of one board a pattern renders to.
#[derive(Debug, Clone)]
pub struct BoardInfo {
    /// IPv4 literal of the board.
    pub ip: String,
    /// E1.31 universe of the board.
    pub universe: u16,
    /// LEDs on the board.
    pub led_count: usize,
}

impl BoardInfo {
    /// Copy a board address.
    pub fn clone_info(&self) -> (r: BoardInfo)
        ensures
            r == *self,
    {
        BoardInfo { ip: self.ip.clone(), universe: self.universe, led_count: self.led_count }
    }
}

/// Copy a board addressing table.
pub fn clone_board_infos(v: &Vec<(String, BoardInfo)>) -> (r: Vec<(String, BoardInfo)>)
    ensures
        r@ == v@,
{
    let mut r: Vec<(String, BoardInfo)> = Vec::new();
    let mut i: usize = 0;
    while i < v.len()
        invariant
            i <= v@.len(),
            r@ == v@.subrange(0, i as int),
        decreases v@.len() - i,
    {
        let entry = &v[i];
        r.push((entry.0.clone(), entry.1.clone_info()));
        assert(v@.subrange(0, i + 1 as int)
            =~= v@.subrange(0, i as int) + seq![v@[i as int]]);
        i = i + 1;
    }
    assert(v@.subrange(0, v@.len() as int) =~= v@);
    r
}

/// What the pattern renderer is told over its command queue.
#[derive(Debug)]
pub enum PatternCommand {
    /// Run this sequence until told otherwise.
    Start {
        /// Steps and cycle duration.
        sequence: PatternSequence,
        /// Render colour.
        color: [u8; 3],
        /// Addressing of every board the steps name.
        boards: Vec<(String, BoardInfo)>,
        /// One random board per beat instead of the step order.
        is_random: bool,
        /// Reverse the traversal on every odd cycle.
        is_ping_pong: bool,
    },
    /// Blackout every board and go idle.
    Stop,
}

/// One timed frame operation of a cycle: these boards show this colour
/// at this offset from the cycle start.
#[derive(Debug, Clone)]
pub struct FrameOp {
    /// Offset from the cycle start in milliseconds.
    pub at_ms: u64,
    /// Boards the frame goes to.
    pub board_ids: Vec<String>,
    /// The colour they show.
    pub rgb: [u8; 3],
}

/// The longest cycle the planner's millisecond arithmetic covers: one
/// day.  The no-beat sentinel cycle lies beyond it; the runner holds
/// the boards dark instead of planning such a cycle.
pub const MAX_CYCLE_MS: u64 = 86_400_000;

/// The most steps one cycle can carry.
pub const MAX_CYCLE_STEPS: usize = 10_000;

/// One planned cycle: its operations in time order and its total length.
#[derive(Debug)]
pub struct CyclePlan {
    /// Frame operations, times non-decreasing.
    pub ops: Vec<FrameOp>,
    /// Cycle length to pad to.
    pub total_ms: u64,
}

/// The steps of a sequence as plain board-id lists.
pub open spec fn steps_of(seq: PatternSequence) -> Seq<Seq<String>> {
    seq.steps@.map_values(|s: PatternStep| s.board_ids@)
}

/// The traversal order of a cycle: the step order, reversed on odd
/// ping-pong cycles.
pub open spec fn spec_traversal(steps: Seq<Seq<String>>, cycle_count: u64,
    is_ping_pong: bool) -> Seq<Seq<String>> {
    if is_ping_pong && cycle_count % 2 == 1 {
        steps.reverse()
    } else {
        steps
    }
}

/// The trail multiplier of trail position `j` in thousandths.
pub open spec fn spec_trail_mult(j: int) -> u32 {
    if j == 0 {
        1000
    } else if j == 1 {
        400
    } else {
        100
    }
}

/// A colour scaled by a thousandths multiplier.
pub open spec fn spec_scale_rgb(color: [u8; 3], mult: u32) -> [u8; 3] {
    [
        crate::effects::spec_level_channel(color[0], mult),
        crate::effects::spec_level_channel(color[1], mult),
        crate::effects::spec_level_channel(color[2], mult),
    ]
}

/// Scale a colour by a thousandths multiplier.
pub fn scale_rgb(color: [u8; 3], mult: u32) -> (r: [u8; 3])
    requires
        mult <= 1500,
    ensures
        r == spec_scale_rgb(color, mult),
{
    [
        crate::effects::level_channel(color[0], mult),
        crate::effects::level_channel(color[1], mult),
        crate::effects::level_channel(color[2], mult),
    ]
}


/// The fade factor of pass `f` of three, in thousandths: six tenths
/// compounded.
pub open spec fn spec_fade_mult(f: int) -> u32 {
    if f == 1 {
        600
    } else if f == 2 {
        360
    } else {
        216
    }
}

/// The level of trail position `j` during fade pass `f`, in thousandths.
pub open spec fn spec_fade_level(j: int, f: int) -> u32 {
    ((spec_trail_mult(j) * spec_fade_mult(f)) / 1000) as u32
}

/// The operations fired with step `k`: the full-colour head, then the
/// one- and two-step trail entries at their thousandths levels.
pub open spec fn spec_step_block(order: Seq<Seq<String>>, color: [u8; 3], interval: u64,
    k: int) -> Seq<(int, Seq<String>, [u8; 3])> {
    seq![(k * interval, order[k], color)]
        + (if k >= 1 {
            seq![(k * interval, order[k - 1], spec_scale_rgb(color, spec_trail_mult(1)))]
        } else {
            Seq::empty()
        })
        + (if k >= 2 {
            seq![(k * interval, order[k - 2], spec_scale_rgb(color, spec_trail_mult(2)))]
        } else {
            Seq::empty()
        })
}

/// The operations of the first `upto` steps, in firing order.
pub open spec fn spec_wave_ops(order: Seq<Seq<String>>, color: [u8; 3], interval: u64,
    upto: int) -> Seq<(int, Seq<String>, [u8; 3])>
    decreases upto,
{
    if upto <= 0 {
        Seq::empty()
    } else {
        spec_wave_ops(order, color, interval, upto - 1)
            + spec_step_block(order, color, interval, upto - 1)
    }
}

/// The operations of fade pass `f`: the last three steps' boards at
/// their faded trail levels, thirty milliseconds per pass after the
/// last step.
pub open spec fn spec_fade_block(order: Seq<Seq<String>>, color: [u8; 3], n: int,
    last_at: int, f: int) -> Seq<(int, Seq<String>, [u8; 3])> {
    (if n >= 1 {
        seq![(last_at + 30 * f, order[n - 1], spec_scale_rgb(color, spec_fade_level(0, f)))]
    } else {
        Seq::empty()
    })
        + (if n >= 2 {
            seq![(last_at + 30 * f, order[n - 2],
                spec_scale_rgb(color, spec_fade_level(1, f)))]
        } else {
            Seq::empty()
        })
        + (if n >= 3 {
            seq![(last_at + 30 * f, order[n - 3],
                spec_scale_rgb(color, spec_fade_level(2, f)))]
        } else {
            Seq::empty()
        })
}

/// The operations of the first `upto` fade passes, in order.
pub open spec fn spec_fade_ops(order: Seq<Seq<String>>, color: [u8; 3], n: int,
    last_at: int, upto: int) -> Seq<(int, Seq<String>, [u8; 3])>
    decreases upto,
{
    if upto <= 0 {
        Seq::empty()
    } else {
        spec_fade_ops(order, color, n, last_at, upto - 1)
            + spec_fade_block(order, color, n, last_at, upto)
    }
}

/// When the last step of a cycle fires, relative to the cycle start.
pub open spec fn spec_last_step_at(n: int, interval: u64) -> int {
    if n > 0 {
        (n - 1) * interval
    } else {
        0
    }
}

/// The whole operation list of one cycle: the wave with its trails,
/// three fade passes, and one blackout over every board.
pub open spec fn spec_cycle_ops(order: Seq<Seq<String>>, color: [u8; 3], interval: u64,
    n: int, all_boards: Seq<String>) -> Seq<(int, Seq<String>, [u8; 3])> {
    let last_at = spec_last_step_at(n, interval);
    spec_wave_ops(order, color, interval, n)
        + spec_fade_ops(order, color, n, last_at, 3)
        + seq![(last_at + 120, all_boards, [0u8, 0u8, 0u8])]
}

/// Some operation of the plan shows exactly these boards this colour at
/// this instant.
pub open spec fn has_op_at(ops: Seq<FrameOp>, at: int, boards: Seq<String>,
    color: [u8; 3]) -> bool {
    exists|i: int|
        0 <= i < ops.len()
        && (#[trigger] ops[i]).at_ms == at
        && ops[i].board_ids@ == boards
        && ops[i].rgb == color
}


/// One frame operation seen abstractly: instant, boards, colour.
pub open spec fn ops_view(ops: Seq<FrameOp>) -> Seq<(int, Seq<String>, [u8; 3])> {
    ops.map_values(|op: FrameOp| (op.at_ms as int, op.board_ids@, op.rgb))
}

/// The fade level of random-beat frame `f` of six, in thousandths.
pub open spec fn spec_random_fade_level(f: int) -> u32 {
    (1000 - f * 1000 / 6) as u32
}

/// The whole operation list of one random beat: black out everyone,
/// flash the chosen board, fade it over six frames twenty milliseconds
/// apart, and end the beat dark.
pub open spec fn spec_random_beat_ops(all: Seq<String>, chosen: String, color: [u8; 3])
    -> Seq<(int, Seq<String>, [u8; 3])> {
    seq![
        (0int, all, [0u8, 0u8, 0u8]),
        (0int, seq![chosen], color),
    ] + Seq::new(6, |k: int| (
        (k + 1) * 20,
        seq![chosen],
        spec_scale_rgb(color, spec_random_fade_level(k + 1)),
    )) + seq![(140int, all, [0u8, 0u8, 0u8])]
}

/// Times of a plan never decrease.
pub open spec fn ops_sorted(ops: Seq<FrameOp>) -> bool {
    forall|i: int, j: int| 0 <= i < j < ops.len()
        ==> #[trigger] ops[i].at_ms <= #[trigger] ops[j].at_ms
}

/// Plan one cycle of a non-random pattern.
///
/// Step `k` of the traversal fires at `k` times the step interval with
/// the full colour, dragging a three-step trail behind it at the
/// 1000/400/100 thousandths levels; after the last step three fade
/// passes at thirty-millisecond spacing scale those levels by six
/// tenths compounded; the plan ends with one blackout covering every
/// board of the cycle.  The operation list is pinned exactly.
#[verifier::rlimit(100)]
#[verifier::spinoff_prover]
pub fn plan_cycle(sequence: &PatternSequence, color: [u8; 3], cycle_count: u64,
    is_ping_pong: bool) -> (r: CyclePlan)
    requires
        sequence.steps@.len() <= MAX_CYCLE_STEPS,
        1 <= sequence.total_duration_ms <= MAX_CYCLE_MS,
    ensures
        r.total_ms == sequence.total_duration_ms,
        ops_sorted(r.ops@),
        r.ops@.len() > 0,
        ({
            let order = spec_traversal(steps_of(*sequence), cycle_count, is_ping_pong);
            let interval = crate::pattern::spec_step_interval_ms(
                sequence.total_duration_ms, sequence.steps@.len() as usize);
            let n = sequence.steps@.len() as int;
            &&& ops_view(r.ops@) == spec_cycle_ops(order, color, interval, n,
                    steps_of(*sequence).flatten())
            &&& forall|k: int| #![trigger order[k]] 0 <= k < order.len()
                    ==> has_op_at(r.ops@, k * interval, order[k], color)
        }),
        r.ops@.last().rgb == [0u8, 0u8, 0u8],
        r.ops@.last().board_ids@ == steps_of(*sequence).flatten(),
{
    let n = sequence.steps.len();
    let interval = crate::pattern::step_interval_ms(sequence.total_duration_ms, n);
    proof {
        assert(interval <= sequence.total_duration_ms) by {
            lemma_halve_le(sequence.total_duration_ms,
                (sequence.total_duration_ms / 2) as u64 / (if n as int - 1 >= 1 {
                    (n - 1) as u64
                } else {
                    1u64
                }));
        }
    }

    // Traversal order for this cycle.
    let reverse = is_ping_pong && cycle_count % 2 == 1;
    let mut order: Vec<Vec<String>> = Vec::new();
    let mut k: usize = 0;
    while k < n
        invariant
            k <= n,
            n == sequence.steps@.len(),
            order@.len() == k,
            forall|j: int| 0 <= j < k ==> #[trigger] order@[j]@
                == spec_traversal(steps_of(*sequence), cycle_count, is_ping_pong)[j],
            reverse == (is_ping_pong && cycle_count % 2 == 1),
        decreases n - k,
    {
        let src: usize = if reverse { n - 1 - k } else { k };
        order.push(clone_string_vec(&sequence.steps[src].board_ids));
        k = k + 1;
    }

    let ghost spec_order = spec_traversal(steps_of(*sequence), cycle_count, is_ping_pong);
    proof {
        assert(spec_order.len() == n);
    }

    let mut ops: Vec<FrameOp> = Vec::new();
    let ghost mut positions: Seq<int> = Seq::empty();
    let mut step: usize = 0;
    while step < n
        invariant
            step <= n,
            n == sequence.steps@.len(),
            n <= 10_000,
            order@.len() == n,
            spec_order.len() == n,
            interval <= sequence.total_duration_ms,
            sequence.total_duration_ms <= 86_400_000,
            forall|j: int| 0 <= j < n ==> #[trigger] order@[j]@ == spec_order[j],
            ops_sorted(ops@),
            step == 0 ==> ops@.len() == 0,
            forall|i: int| 0 <= i < ops@.len()
                ==> (#[trigger] ops@[i]).at_ms <= (step - 1) * interval,
            ops_view(ops@) == spec_wave_ops(spec_order, color, interval, step as int),
            positions.len() == step,
            forall|kk: int| 0 <= kk < step ==> {
                &&& 0 <= #[trigger] positions[kk] < ops@.len()
                &&& ops@[positions[kk]].at_ms == kk * interval
                &&& ops@[positions[kk]].board_ids@ == spec_order[kk]
                &&& ops@[positions[kk]].rgb == color
            },
        decreases n - step,
    {
        proof {
            assert(step as int * interval as int <= 10_000 * 86_400_000)
                by (nonlinear_arith)
                requires 0 <= step <= 10_000 && 0 <= interval <= 86_400_000;
            assert((step + 1) as int * interval as int
                == step as int * interval as int + interval as int)
                by (nonlinear_arith);
            assert(step as int * interval as int
                == (step as int - 1) * interval as int + interval as int)
                by (nonlinear_arith);
        }
        let at: u64 = (step as u64) * interval;
        let ghost before_step = ops@;
        let ghost head_idx = ops@.len() as int;
        ops.push(FrameOp {
            at_ms: at,
            board_ids: clone_string_vec(&order[step]),
            rgb: color,
        });
        proof {
            positions = positions.push(head_idx);
        }
        if step >= 1 {
            ops.push(FrameOp {
                at_ms: at,
                board_ids: clone_string_vec(&order[step - 1]),
                rgb: scale_rgb(color, 400),
            });
        }
        if step >= 2 {
            ops.push(FrameOp {
                at_ms: at,
                board_ids: clone_string_vec(&order[step - 2]),
                rgb: scale_rgb(color, 100),
            });
        }
        proof {
            assert(ops_view(ops@) =~= ops_view(before_step)
                + spec_step_block(spec_order, color, interval, step as int));
            assert(ops_view(ops@)
                =~= spec_wave_ops(spec_order, color, interval, step + 1));
        }
        step = step + 1;
    }

    // Fade passes after the last step.
    let last_at: u64 = if n > 0 {
        proof {
            assert((n - 1) as int * interval as int <= 10_000 * 86_400_000)
                by (nonlinear_arith)
                requires 1 <= n <= 10_000 && 0 <= interval <= 86_400_000;
        }
        ((n - 1) as u64) * interval
    } else {
        0
    };
    proof {
        assert(last_at == spec_last_step_at(n as int, interval));
        assert forall|i: int| 0 <= i < ops@.len()
            implies (#[trigger] ops@[i]).at_ms <= last_at by {
            assert(n > 0);
            assert(ops@[i].at_ms <= (n - 1) * interval);
        }
    }
    let mut fade: u64 = 1;
    while fade <= 3
        invariant
            1 <= fade <= 4,
            n == sequence.steps@.len(),
            n <= 10_000,
            order@.len() == n,
            spec_order.len() == n,
            last_at == spec_last_step_at(n as int, interval),
            last_at <= 10_000int * 86_400_000,
            interval <= sequence.total_duration_ms,
            sequence.total_duration_ms <= 86_400_000,
            forall|jj: int| 0 <= jj < n ==> #[trigger] order@[jj]@ == spec_order[jj],
            ops_sorted(ops@),
            forall|i: int| 0 <= i < ops@.len()
                ==> (#[trigger] ops@[i]).at_ms <= last_at + 30 * (fade - 1),
            ops_view(ops@) == spec_wave_ops(spec_order, color, interval, n as int)
                + spec_fade_ops(spec_order, color, n as int, last_at as int,
                    fade as int - 1),
            positions.len() == n,
            forall|kk: int| 0 <= kk < n ==> {
                &&& 0 <= #[trigger] positions[kk] < ops@.len()
                &&& ops@[positions[kk]].at_ms == kk * interval
                &&& ops@[positions[kk]].board_ids@ == spec_order[kk]
                &&& ops@[positions[kk]].rgb == color
            },
        decreases 4 - fade,
    {
        let mult: u32 = if fade == 1 { 600 } else if fade == 2 { 360 } else { 216 };
        proof {
            assert(mult == spec_fade_mult(fade as int));
        }
        let at = last_at + 30 * fade;
        let ghost before_fade = ops@;
        if n >= 1 {
            proof {
                assert(1000 * mult <= 1000 * 1000) by (nonlinear_arith)
                    requires mult <= 1000;
            }
            let level: u32 = (1000 * mult) / 1000;
            ops.push(FrameOp {
                at_ms: at,
                board_ids: clone_string_vec(&order[n - 1]),
                rgb: scale_rgb(color, level),
            });
        }
        if n >= 2 {
            proof {
                assert(400 * mult <= 1000 * 1000) by (nonlinear_arith)
                    requires mult <= 1000;
            }
            let level: u32 = (400 * mult) / 1000;
            ops.push(FrameOp {
                at_ms: at,
                board_ids: clone_string_vec(&order[n - 2]),
                rgb: scale_rgb(color, level),
            });
        }
        if n >= 3 {
            proof {
                assert(100 * mult <= 1000 * 1000) by (nonlinear_arith)
                    requires mult <= 1000;
            }
            let level: u32 = (100 * mult) / 1000;
            ops.push(FrameOp {
                at_ms: at,
                board_ids: clone_string_vec(&order[n - 3]),
                rgb: scale_rgb(color, level),
            });
        }
        proof {
            assert(ops_view(ops@) =~= ops_view(before_fade)
                + spec_fade_block(spec_order, color, n as int, last_at as int,
                    fade as int));
            assert(ops_view(ops@)
                =~= spec_wave_ops(spec_order, color, interval, n as int)
                    + spec_fade_ops(spec_order, color, n as int, last_at as int,
                        fade as int));
        }
        fade = fade + 1;
    }

    // One blackout over every board of the cycle.
    let mut all: Vec<String> = Vec::new();
    let mut b: usize = 0;
    while b < n
        invariant
            b <= n,
            n == sequence.steps@.len(),
            all@ == steps_of(*sequence).subrange(0, b as int).flatten(),
        decreases n - b,
    {
        let ghost pre = steps_of(*sequence).subrange(0, b as int);
        let ids = clone_string_vec(&sequence.steps[b].board_ids);
        let ghost added = ids@;
        proof {
            let s1 = steps_of(*sequence).subrange(0, b + 1 as int);
            assert(s1.drop_last() =~= pre);
            assert(s1.last() == steps_of(*sequence)[b as int]);
            pre.lemma_flatten_and_flatten_alt_are_equivalent();
            s1.lemma_flatten_and_flatten_alt_are_equivalent();
            assert(s1.flatten_alt() == pre.flatten_alt() + s1.last());
        }
        let mut t: usize = 0;
        while t < ids.len()
            invariant
                t <= ids@.len(),
                ids@ == added,
                all@ == steps_of(*sequence).subrange(0, b as int).flatten()
                    + added.subrange(0, t as int),
            decreases ids@.len() - t,
        {
            all.push(ids[t].clone());
            assert(added.subrange(0, t + 1 as int)
                =~= added.subrange(0, t as int) + seq![added[t as int]]);
            t = t + 1;
        }
        proof {
            assert(added.subrange(0, added.len() as int) =~= added);
            assert(all@ =~= steps_of(*sequence).subrange(0, b + 1 as int).flatten());
        }
        b = b + 1;
    }
    proof {
        assert(steps_of(*sequence).subrange(0, steps_of(*sequence).len() as int)
            =~= steps_of(*sequence));
    }

    let ghost before_black = ops@;
    let black_at: u64 = last_at + 120;
    ops.push(FrameOp { at_ms: black_at, board_ids: all, rgb: [0u8, 0u8, 0u8] });

    proof {
        assert(interval == crate::pattern::spec_step_interval_ms(
            sequence.total_duration_ms, sequence.steps@.len() as usize));
        assert(ops_view(ops@) =~= ops_view(before_black)
            + seq![(black_at as int, steps_of(*sequence).flatten(), [0u8, 0u8, 0u8])]);
        assert(ops_view(ops@) =~= spec_cycle_ops(spec_order, color, interval, n as int,
            steps_of(*sequence).flatten()));
        lemma_positions_witness(ops@, positions, spec_order, interval, color);
    }

    CyclePlan { ops, total_ms: sequence.total_duration_ms }
}

/// Recorded witness indices yield the existence of a head frame per
/// traversal step.
proof fn lemma_positions_witness(ops: Seq<FrameOp>, positions: Seq<int>,
    order: Seq<Seq<String>>, interval: u64, color: [u8; 3])
    requires
        positions.len() == order.len(),
        forall|kk: int| 0 <= kk < order.len() ==> {
            &&& 0 <= #[trigger] positions[kk] < ops.len()
            &&& ops[positions[kk]].at_ms == kk * interval
            &&& ops[positions[kk]].board_ids@ == order[kk]
            &&& ops[positions[kk]].rgb == color
        },
    ensures
        forall|k: int| #![trigger order[k]] 0 <= k < order.len()
            ==> has_op_at(ops, k * interval, order[k], color),
{
    assert forall|k: int| #![trigger order[k]] 0 <= k < order.len()
        implies has_op_at(ops, k * interval, order[k], color) by {
        let w = positions[k];
        assert(0 <= w < ops.len()
            && ops[w].at_ms == k * interval
            && ops[w].board_ids@ == order[k]
            && ops[w].rgb == color);
    }
}

/// Halving never grows the interval.
proof fn lemma_halve_le(sub: u64, max_step: u64)
    ensures
        crate::pattern::spec_halve_to(sub, max_step) <= sub,
    decreases sub,
{
    if sub > max_step && sub > 1 {
        lemma_halve_le(sub / 2, max_step);
    }
}

/// Plan one beat of the random pattern: pick one board, not the one
/// picked last time when there is a choice; black the others out, flash
/// the chosen board, fade it over six frames, and end the beat dark.
pub fn plan_random_beat(sequence: &PatternSequence, color: [u8; 3],
    board_ids: &Vec<String>, prev: Option<usize>) -> (r: (CyclePlan, usize))
    requires
        board_ids@.len() > 0,
        prev is Some ==> prev->0 < board_ids@.len(),
    ensures
        r.1 < board_ids@.len(),
        board_ids@.len() > 1 && prev is Some ==> r.1 != prev->0,
        r.0.total_ms == sequence.total_duration_ms,
        ops_sorted(r.0.ops@),
        ops_view(r.0.ops@) == spec_random_beat_ops(board_ids@,
            board_ids@[r.1 as int], color),
{
    let n = board_ids.len();
    let chosen: usize = match prev {
        Some(p) if n > 1 => {
            let pick = rand_below(n - 1);
            if pick >= p {
                pick + 1
            } else {
                pick
            }
        },
        _ => rand_below(n),
    };

    let mut ops: Vec<FrameOp> = Vec::new();
    ops.push(FrameOp {
        at_ms: 0,
        board_ids: clone_string_vec(board_ids),
        rgb: [0u8, 0u8, 0u8],
    });
    let mut one: Vec<String> = Vec::new();
    one.push(board_ids[chosen].clone());
    ops.push(FrameOp { at_ms: 0, board_ids: one, rgb: color });
    proof {
        let full = spec_random_beat_ops(board_ids@, board_ids@[chosen as int], color);
        assert(ops_view(ops@) =~= full.take(2));
    }

    let mut f: u64 = 1;
    while f <= 6
        invariant
            1 <= f <= 7,
            chosen < board_ids@.len(),
            ops@.len() == 1 + f,
            ops_sorted(ops@),
            forall|i: int| 0 <= i < ops@.len()
                ==> (#[trigger] ops@[i]).at_ms <= (f - 1) * 20,
            ops_view(ops@) == spec_random_beat_ops(board_ids@,
                board_ids@[chosen as int], color).take(1 + f),
        decreases 7 - f,
    {
        let level: u32 = (1000 - (f as u32) * 1000 / 6) as u32;
        let mut one2: Vec<String> = Vec::new();
        one2.push(board_ids[chosen].clone());
        let ghost before = ops@;
        ops.push(FrameOp { at_ms: f * 20, board_ids: one2, rgb: scale_rgb(color, level) });
        proof {
            let full = spec_random_beat_ops(board_ids@, board_ids@[chosen as int], color);
            assert(ops_view(ops@) =~= ops_view(before)
                + seq![(f * 20, seq![board_ids@[chosen as int]],
                    spec_scale_rgb(color, level))]);
            assert(level == spec_random_fade_level(f as int));
            assert(full[1 + f] == ((f * 20) as int, seq![board_ids@[chosen as int]],
                spec_scale_rgb(color, spec_random_fade_level(f as int))));
            assert(ops_view(ops@) =~= full.take(1 + f + 1));
        }
        f = f + 1;
    }
    let all = clone_string_vec(board_ids);
    let ghost before_black = ops@;
    ops.push(FrameOp { at_ms: 140, board_ids: all, rgb: [0u8, 0u8, 0u8] });
    proof {
        let full = spec_random_beat_ops(board_ids@, board_ids@[chosen as int], color);
        assert(ops_view(ops@) =~= ops_view(before_black)
            + seq![(140int, board_ids@, [0u8, 0u8, 0u8])]);
        assert(full[8] == (140int, board_ids@, [0u8, 0u8, 0u8]));
        assert(ops_view(ops@) =~= full);
    }

    (CyclePlan { ops, total_ms: sequence.total_duration_ms }, chosen)
}

} // verus!
