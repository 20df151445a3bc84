//! The cue scheduler: sorting a resolved cue list, the sleep ladder of
//! the dispatch loop, the engine hand-off each cue fires, and the
//! universe-ownership discipline that hand-off keeps.

use vstd::prelude::*;
use crate::effects_engine::{clone_targets, BoardTarget, EffectConfig, EngineCommand};
use crate::pattern::{generate_sequence, PatternType};
use crate::pattern_engine::{clone_board_infos, BoardInfo, PatternCommand};

verus! {

/// A pattern cue, fully resolved at schedule time.
#[derive(Debug, Clone)]
pub struct PatternCueConfig {
    /// Traversal shape.
    pub pattern_type: PatternType,
    /// Render colour.
    pub color: [u8; 3],
    /// Online member ids in group order.
    pub member_ids: Vec<String>,
    /// Addressing of each member.
    pub board_info: Vec<(String, BoardInfo)>,
    /// Program tempo.
    pub bpm: u32,
    /// Cue sync rate in thousandths.
    pub sync_rate_milli: u32,
}

/// What a cue starts when it fires.
#[derive(Debug, Clone)]
pub enum CueType {
    /// An effect over a set of boards.
    Effect {
        /// The effect to start.
        config: EffectConfig,
        /// The boards it covers.
        boards: Vec<BoardTarget>,
    },
    /// A pattern over a group.
    Pattern(PatternCueConfig),
}

/// One cue, resolved and anchored: fire this much after the anchor.
#[derive(Debug, Clone)]
pub struct ScheduledCue {
    /// Offset from the playback anchor in milliseconds.
    pub fire_at_ms: u64,
    /// Label for the log.
    pub label: String,
    /// What fires.
    pub cue_type: CueType,
}

/// A cue list in non-decreasing fire order.
pub open spec fn cues_sorted(cues: Seq<ScheduledCue>) -> bool {
    forall|i: int, j: int| 0 <= i < j < cues.len()
        ==> #[trigger] cues[i].fire_at_ms <= #[trigger] cues[j].fire_at_ms
}

/// Sort a cue list by fire offset, keeping the multiset of cues.
pub fn sort_cues(cues: Vec<ScheduledCue>) -> (r: Vec<ScheduledCue>)
    ensures
        cues_sorted(r@),
        r@.to_multiset() == cues@.to_multiset(),
        r@.len() == cues@.len(),
{
    let mut sorted: Vec<ScheduledCue> = Vec::new();
    let mut rest = cues;
    let ghost total = rest@.to_multiset();
    proof {
        broadcast use vstd::multiset::group_multiset_axioms;
        sorted@.to_multiset_ensures();
        vstd::multiset::lemma_multiset_empty_len(sorted@.to_multiset());
        assert(sorted@.to_multiset() =~= vstd::multiset::Multiset::<ScheduledCue>::empty());
        assert(sorted@.to_multiset().add(rest@.to_multiset()) =~= total);
    }
    while rest.len() > 0
        invariant
            cues_sorted(sorted@),
            sorted@.to_multiset().add(rest@.to_multiset()) =~= total,
            total == cues@.to_multiset(),
            sorted@.len() + rest@.len() == cues@.len(),
            forall|i: int, j: int| 0 <= i < sorted@.len() && 0 <= j < rest@.len()
                ==> #[trigger] sorted@[i].fire_at_ms <= #[trigger] rest@[j].fire_at_ms,
        decreases rest@.len(),
    {
        let mut min_idx: usize = 0;
        let mut k: usize = 1;
        while k < rest.len()
            invariant
                min_idx < rest@.len(),
                k <= rest@.len(),
                rest@.len() > 0,
                forall|j: int| 0 <= j < k
                    ==> rest@[min_idx as int].fire_at_ms <= #[trigger] rest@[j].fire_at_ms,
            decreases rest@.len() - k,
        {
            if rest[k].fire_at_ms < rest[min_idx].fire_at_ms {
                min_idx = k;
            }
            k = k + 1;
        }
        let ghost old_sorted = sorted@;
        let ghost old_rest = rest@;
        let picked = rest.swap_remove(min_idx);
        proof {
            broadcast use vstd::seq_lib::group_to_multiset_ensures;
            broadcast use vstd::multiset::group_multiset_axioms;
            old_rest.to_multiset_ensures();
            assert(old_rest.contains(picked)) by {
                assert(old_rest[min_idx as int] == picked);
            }
            assert(old_rest.to_multiset().count(picked) > 0);
            lemma_swap_remove_multiset(old_rest, min_idx as int);
            assert(rest@ =~= old_rest.update(min_idx as int, old_rest.last()).drop_last());
            assert(rest@.to_multiset() =~= old_rest.to_multiset().remove(picked));
            assert forall|j: int| 0 <= j < rest@.len()
                implies picked.fire_at_ms <= (#[trigger] rest@[j]).fire_at_ms by {
                assert(rest@ =~= old_rest.update(min_idx as int, old_rest.last())
                    .drop_last());
            }
        }
        sorted.push(picked);
        proof {
            broadcast use vstd::seq_lib::group_to_multiset_ensures;
            broadcast use vstd::multiset::group_multiset_axioms;
            old_sorted.to_multiset_ensures();
            old_rest.to_multiset_ensures();
            assert(sorted@ == old_sorted.push(picked));
            assert(old_sorted.push(picked).to_multiset()
                =~= old_sorted.to_multiset().insert(picked));
            assert(sorted@.to_multiset() =~= old_sorted.to_multiset().insert(picked));
            assert forall|x: ScheduledCue|
                sorted@.to_multiset().add(rest@.to_multiset()).count(x)
                    == total.count(x) by {
                assert(old_rest.to_multiset().count(picked) > 0);
                assert(sorted@.to_multiset().count(x)
                    == old_sorted.to_multiset().insert(picked).count(x));
                assert(rest@.to_multiset().count(x)
                    == old_rest.to_multiset().remove(picked).count(x));
                assert(old_sorted.to_multiset().add(old_rest.to_multiset()).count(x)
                    == total.count(x));
            }
            assert(sorted@.to_multiset().add(rest@.to_multiset()) =~= total);
        }
    }
    proof {
        broadcast use vstd::multiset::group_multiset_axioms;
        rest@.to_multiset_ensures();
        vstd::multiset::lemma_multiset_empty_len(rest@.to_multiset());
        assert(rest@.to_multiset() =~= vstd::multiset::Multiset::<ScheduledCue>::empty());
        assert(sorted@.to_multiset() =~= total);
    }
    sorted
}

/// Removing via the swap trick removes exactly one copy of the picked
/// element from the multiset.
proof fn lemma_swap_remove_multiset(s: Seq<ScheduledCue>, i: int)
    requires
        0 <= i < s.len(),
    ensures
        s.update(i, s.last()).drop_last().to_multiset()
            =~= s.to_multiset().remove(s[i]),
{
    broadcast use vstd::seq_lib::group_to_multiset_ensures;
    broadcast use vstd::multiset::group_multiset_axioms;

    if i == s.len() - 1 {
        let t = s.update(i, s.last()).drop_last();
        assert(s.update(i, s.last()) =~= s);
        assert(t =~= s.remove(s.len() - 1));
        assert(s.remove(s.len() - 1).to_multiset() =~= s.to_multiset().remove(s[i]));
    } else {
        let u = s.update(i, s.last());
        let t = u.drop_last();
        lemma_multiset_update(s, i, s.last());
        assert(t =~= u.remove(u.len() - 1));
        assert(u.remove(u.len() - 1).to_multiset()
            =~= u.to_multiset().remove(u[u.len() - 1]));
        assert(u[u.len() - 1] == s.last());
        // Cancel the inserted copy of the last element.
        assert(u.to_multiset().count(s.last())
            == s.to_multiset().remove(s[i]).count(s.last()) + 1);
        assert forall|x: ScheduledCue| t.to_multiset().count(x)
            == s.to_multiset().remove(s[i]).count(x) by {
            assert(t.to_multiset() == u.to_multiset().remove(s.last()));
            assert(u.to_multiset() == s.to_multiset().remove(s[i]).insert(s.last()));
        }
        assert(t.to_multiset() =~= s.to_multiset().remove(s[i]));
    }
}

/// Updating one slot exchanges exactly that element in the multiset.
proof fn lemma_multiset_update(s: Seq<ScheduledCue>, i: int, v: ScheduledCue)
    requires
        0 <= i < s.len(),
    ensures
        s.update(i, v).to_multiset() == s.to_multiset().remove(s[i]).insert(v),
{
    broadcast use vstd::seq_lib::group_to_multiset_ensures;
    broadcast use vstd::multiset::group_multiset_axioms;

    let u = s.update(i, v);
    assert(u.remove(i) =~= s.remove(i));
    assert(u.remove(i).to_multiset() =~= u.to_multiset().remove(u[i]));
    assert(u[i] == v);
    assert(s.remove(i).to_multiset() =~= s.to_multiset().remove(s[i]));
    assert(u.contains(v)) by {
        assert(u[i] == v);
    }
    assert(u.to_multiset().count(v) > 0);
    assert(s.contains(s[i]));
    assert(s.to_multiset().count(s[i]) > 0);
    assert forall|x: ScheduledCue| u.to_multiset().count(x)
        == s.to_multiset().remove(s[i]).insert(v).count(x) by {
        assert(u.to_multiset().remove(v).count(x)
            == s.to_multiset().remove(s[i]).count(x));
        if x == v {
            assert(u.to_multiset().remove(v).count(v) == u.to_multiset().count(v) - 1);
        } else {
            assert(u.to_multiset().remove(v).count(x) == u.to_multiset().count(x));
        }
    }
    assert(u.to_multiset() =~= s.to_multiset().remove(s[i]).insert(v));
}

/// Law: a sorted cue list fires in order.  For any two positions, the
/// earlier one carries the smaller or equal fire offset.
pub proof fn lemma_sorted_fire_order(cues: Seq<ScheduledCue>, i: int, j: int)
    requires
        cues_sorted(cues),
        0 <= i < j < cues.len(),
    ensures
        cues[i].fire_at_ms <= cues[j].fire_at_ms,
{
}

/// The instants a sequential dispatcher fires a cue list at: each cue
/// waits until its own target and cannot fire before the one before it.
pub open spec fn spec_dispatch_times(anchor: int, cues: Seq<ScheduledCue>) -> Seq<int>
    decreases cues.len(),
{
    if cues.len() == 0 {
        Seq::empty()
    } else {
        let prev = spec_dispatch_times(anchor, cues.drop_last());
        let floor = anchor + cues.last().fire_at_ms;
        let at = if prev.len() > 0 && prev.last() > floor {
            prev.last()
        } else {
            floor
        };
        prev.push(at)
    }
}

/// Law: dispatch instants never decrease — for every sorted cue list,
/// any earlier cue is dispatched no later than any later one.
pub proof fn lemma_dispatch_monotone(anchor: int, cues: Seq<ScheduledCue>, i: int, j: int)
    requires
        0 <= i <= j < cues.len(),
    ensures
        spec_dispatch_times(anchor, cues)[i] <= spec_dispatch_times(anchor, cues)[j],
    decreases cues.len(),
{
    let d = spec_dispatch_times(anchor, cues);
    lemma_dispatch_len(anchor, cues);
    if j < cues.len() - 1 {
        lemma_dispatch_monotone(anchor, cues.drop_last(), i, j);
        lemma_dispatch_prefix(anchor, cues);
    } else if i < j {
        lemma_dispatch_prefix(anchor, cues);
        let prev = spec_dispatch_times(anchor, cues.drop_last());
        lemma_dispatch_len(anchor, cues.drop_last());
        assert(d[j] >= prev.last());
        lemma_dispatch_monotone(anchor, cues.drop_last(), i, j - 1);
    }
}

/// Each cue fires at or after its own target instant.
pub proof fn lemma_dispatch_after_target(anchor: int, cues: Seq<ScheduledCue>, i: int)
    requires
        0 <= i < cues.len(),
    ensures
        spec_dispatch_times(anchor, cues)[i] >= anchor + cues[i].fire_at_ms,
    decreases cues.len(),
{
    lemma_dispatch_len(anchor, cues);
    if i < cues.len() - 1 {
        lemma_dispatch_prefix(anchor, cues);
        lemma_dispatch_len(anchor, cues.drop_last());
        lemma_dispatch_after_target(anchor, cues.drop_last(), i);
    }
}

/// Dispatch instants of a prefix agree with the whole.
proof fn lemma_dispatch_prefix(anchor: int, cues: Seq<ScheduledCue>)
    requires
        cues.len() > 0,
    ensures
        forall|k: int| 0 <= k < cues.len() - 1
            ==> spec_dispatch_times(anchor, cues)[k]
                == spec_dispatch_times(anchor, cues.drop_last())[k],
{
    lemma_dispatch_len(anchor, cues.drop_last());
}

/// One dispatch instant per cue.
proof fn lemma_dispatch_len(anchor: int, cues: Seq<ScheduledCue>)
    ensures
        spec_dispatch_times(anchor, cues).len() == cues.len(),
    decreases cues.len(),
{
    if cues.len() > 0 {
        lemma_dispatch_len(anchor, cues.drop_last());
    }
}

/// How long the dispatch loop sleeps before re-checking the clock.
#[derive(Debug, Clone, Copy, PartialEq, Eq, Structural)]
pub enum SleepAction {
    /// More than 100 ms remain: sleep 50 ms.
    Coarse,
    /// More than 10 ms remain: sleep 5 ms.
    Fine,
    /// The last stretch is busy-spun for sub-millisecond fire.
    Spin,
}

/// Pick the sleep for the time remaining to a cue: coarse above 100 ms,
/// fine above 10 ms, a busy spin below.
pub fn sleep_action(remaining_ms: u64) -> (r: SleepAction)
    ensures
        remaining_ms > 100 ==> r == SleepAction::Coarse,
        10 < remaining_ms <= 100 ==> r == SleepAction::Fine,
        remaining_ms <= 10 ==> r == SleepAction::Spin,
{
    if remaining_ms > 100 {
        SleepAction::Coarse
    } else if remaining_ms > 10 {
        SleepAction::Fine
    } else {
        SleepAction::Spin
    }
}

/// The milliseconds each sleep action takes.
pub fn sleep_duration_ms(action: SleepAction) -> (r: u64)
    ensures
        action == SleepAction::Coarse ==> r == 50,
        action == SleepAction::Fine ==> r == 5,
        action == SleepAction::Spin ==> r == 0,
{
    match action {
        SleepAction::Coarse => 50,
        SleepAction::Fine => 5,
        SleepAction::Spin => 0,
    }
}

/// One command to one of the two renderers.
#[derive(Debug)]
pub enum EngineDirective {
    /// A command for the effects renderer.
    Effects(EngineCommand),
    /// A command for the pattern renderer.
    Pattern(PatternCommand),
}

/// Whether a directive stops the pattern renderer.
pub open spec fn is_pattern_stop(d: EngineDirective) -> bool {
    d matches EngineDirective::Pattern(PatternCommand::Stop)
}

/// Whether a directive stops the effects renderer.
pub open spec fn is_effects_stop(d: EngineDirective) -> bool {
    d matches EngineDirective::Effects(EngineCommand::Stop)
}

/// The hand-off a firing cue performs: stop the other renderer first,
/// then start its own.  This order holds on every cue, and is what keeps
/// the two renderers off each other's universes.
pub fn dispatch_directives(cue: &ScheduledCue) -> (r: Vec<EngineDirective>)
    ensures
        r@.len() == 2,
        cue.cue_type is Pattern ==> is_effects_stop(r@[0]),
        cue.cue_type is Pattern ==> (r@[1] matches EngineDirective::Pattern(c)
            && c is Start),
        cue.cue_type is Effect ==> is_pattern_stop(r@[0]),
        cue.cue_type is Effect ==> (r@[1] matches EngineDirective::Effects(c)
            && (c matches EngineCommand::Start { config, boards }
                && config == cue.cue_type->Effect_config
                && boards@ == cue.cue_type->Effect_boards@)),
{
    let mut r: Vec<EngineDirective> = Vec::new();
    match &cue.cue_type {
        CueType::Pattern(pcfg) => {
            r.push(EngineDirective::Effects(EngineCommand::Stop));
            let sequence = generate_sequence(
                &pcfg.member_ids,
                &pcfg.pattern_type,
                pcfg.bpm,
                pcfg.sync_rate_milli,
            );
            let is_random = matches!(pcfg.pattern_type, PatternType::Random);
            let is_ping_pong = matches!(pcfg.pattern_type, PatternType::PingPong);
            r.push(EngineDirective::Pattern(PatternCommand::Start {
                sequence,
                color: pcfg.color,
                boards: clone_board_infos(&pcfg.board_info),
                is_random,
                is_ping_pong,
            }));
        },
        CueType::Effect { config, boards } => {
            r.push(EngineDirective::Pattern(PatternCommand::Stop));
            r.push(EngineDirective::Effects(EngineCommand::Start {
                config: config.clone_config(),
                boards: clone_targets(boards),
            }));
        },
    }
    r
}

/// Who owns which universes: the model of the per-universe exclusivity
/// discipline.  Only spec-level proofs speak of it.
pub struct OwnershipModel {
    /// Universes the effects renderer writes.
    pub effects: Set<u16>,
    /// Universes the pattern renderer writes.
    pub pattern: Set<u16>,
}

/// The exclusivity invariant: no universe has two writers.
pub open spec fn ownership_disjoint(m: OwnershipModel) -> bool {
    m.effects.disjoint(m.pattern)
}

/// What a fired cue does to ownership: the stopped renderer loses every
/// universe, the started one takes exactly the cue's universes.
pub open spec fn spec_apply_dispatch(m: OwnershipModel, cue_universes: Set<u16>,
    is_pattern: bool) -> OwnershipModel {
    if is_pattern {
        OwnershipModel { effects: Set::empty(), pattern: cue_universes }
    } else {
        OwnershipModel { effects: cue_universes, pattern: Set::empty() }
    }
}

/// Law: the stop-then-start hand-off keeps the written universe sets of
/// the two renderers disjoint across every cue, whatever state it finds.
pub proof fn lemma_dispatch_keeps_exclusivity(m: OwnershipModel, cue_universes: Set<u16>,
    is_pattern: bool)
    ensures
        ownership_disjoint(spec_apply_dispatch(m, cue_universes, is_pattern)),
{
    let m2 = spec_apply_dispatch(m, cue_universes, is_pattern);
    if is_pattern {
        assert(m2.effects.disjoint(m2.pattern)) by {
            assert(forall|u: u16| !Set::<u16>::empty().contains(u));
        }
    } else {
        assert(m2.pattern.disjoint(m2.effects)) by {
            assert(forall|u: u16| !Set::<u16>::empty().contains(u));
        }
        assert(m2.effects.disjoint(m2.pattern));
    }
}

/// Law: a playback that starts idle and fires any sequence of cues keeps
/// exclusivity at every step.
pub proof fn lemma_playback_keeps_exclusivity(cues: Seq<(Set<u16>, bool)>)
    ensures
        ownership_disjoint(cues.fold_left(
            OwnershipModel { effects: Set::empty(), pattern: Set::empty() },
            |m: OwnershipModel, c: (Set<u16>, bool)| spec_apply_dispatch(m, c.0, c.1),
        )),
    decreases cues.len(),
{
    let f = |m: OwnershipModel, c: (Set<u16>, bool)| spec_apply_dispatch(m, c.0, c.1);
    let start = OwnershipModel { effects: Set::empty(), pattern: Set::empty() };
    if cues.len() == 0 {
        assert(cues.fold_left(start, f) == start);
        assert(forall|u: u16| !Set::<u16>::empty().contains(u));
    } else {
        lemma_playback_keeps_exclusivity(cues.drop_last());
        assert(cues.fold_left(start, f) == f(cues.drop_last().fold_left(start, f),
            cues.last()));
        lemma_dispatch_keeps_exclusivity(cues.drop_last().fold_left(start, f),
            cues.last().0, cues.last().1);
    }
}

} // verus!
