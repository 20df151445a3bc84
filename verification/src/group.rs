//! The group command fast path: preset, power and brightness commands to
//! a group become a single broadcast frame on the group's universe plus
//! silent cache syncs, and only colour and effect fall back to per-board
//! fan-out.

use vstd::prelude::*;
use crate::board::{BoardCommand, GroupCommand};
use crate::e131::{frame_solid_color, spec_raw_frame, spec_scale, spec_zero_frame,
    DMX_PAYLOAD_LEN, MAX_LEDS};

verus! {

/// How a group command is carried out.
pub enum GroupPlan {
    /// One broadcast frame on the group universe, then one cache sync
    /// per member.  No WebSocket traffic.
    Fast {
        /// The single DMX payload to broadcast.
        frame: Vec<u8>,
        /// One silent cache sync per member, in member order.
        syncs: Vec<(String, BoardCommand)>,
    },
    /// One WebSocket command per member, in member order.
    PerBoard(Vec<(String, BoardCommand)>),
}

/// The cache sync a fast-path command owes each member.
pub open spec fn spec_sync_of(cmd: GroupCommand) -> BoardCommand {
    match cmd {
        GroupCommand::SetPreset(ps, _) => BoardCommand::SyncPresetState(ps),
        GroupCommand::SetPower(on, _) => BoardCommand::SyncPowerState(on),
        GroupCommand::SetBrightness(b, _) => BoardCommand::SyncBrightnessState(b),
        GroupCommand::SetColor { r, g, b, transition } =>
            BoardCommand::SetColor { r, g, b, transition },
        GroupCommand::SetEffect(fx, tt) => BoardCommand::SetEffect(fx, tt),
    }
}

/// Whether a command can ride the fast path at all.
pub open spec fn spec_is_fast(cmd: GroupCommand) -> bool {
    cmd is SetPreset || cmd is SetPower || cmd is SetBrightness
}

/// The payload the fast path broadcasts: the current colour scaled by
/// the commanded brightness over 128 slots, or darkness on power-off.
pub open spec fn spec_fast_frame(cmd: GroupCommand, color: [u8; 3], brightness: u8)
    -> Seq<u8> {
    match cmd {
        GroupCommand::SetPreset(_, _) => spec_raw_frame(
            MAX_LEDS,
            spec_scale(color[0], brightness),
            spec_scale(color[1], brightness),
            spec_scale(color[2], brightness),
        ),
        GroupCommand::SetPower(on, _) => if on {
            spec_raw_frame(
                MAX_LEDS,
                spec_scale(color[0], 255),
                spec_scale(color[1], 255),
                spec_scale(color[2], 255),
            )
        } else {
            spec_zero_frame()
        },
        GroupCommand::SetBrightness(b, _) => spec_raw_frame(
            MAX_LEDS,
            spec_scale(color[0], b),
            spec_scale(color[1], b),
            spec_scale(color[2], b),
        ),
        _ => spec_zero_frame(),
    }
}

/// Plan a group command.
///
/// Preset, power and brightness become exactly one broadcast frame —
/// one UDP packet per invocation, however many members the group has —
/// followed by one silent cache sync per member.  Colour and effect
/// cannot be encoded in the direct-LED mode and fan out per member.
/// `color` and `brightness` are the render state of the preset the
/// group last showed.
pub fn plan_group_command(cmd: &GroupCommand, members: &Vec<String>, color: [u8; 3],
    brightness: u8) -> (r: GroupPlan)
    ensures
        spec_is_fast(*cmd) ==> (r matches GroupPlan::Fast { frame, syncs } && {
            &&& frame@ == spec_fast_frame(*cmd, color, brightness)
            &&& frame@.len() == DMX_PAYLOAD_LEN
            &&& syncs@.len() == members@.len()
            &&& forall|i: int| 0 <= i < members@.len() ==> {
                &&& (#[trigger] syncs@[i]).0 == members@[i]
                &&& syncs@[i].1 == spec_sync_of(*cmd)
            }
        }),
        !spec_is_fast(*cmd) ==> (r matches GroupPlan::PerBoard(cmds) && {
            &&& cmds@.len() == members@.len()
            &&& forall|i: int| 0 <= i < members@.len() ==> {
                &&& (#[trigger] cmds@[i]).0 == members@[i]
                &&& cmds@[i].1 == spec_sync_of(*cmd)
            }
        }),
{
    match cmd {
        GroupCommand::SetPreset(ps, _) => {
            let frame = frame_solid_color(MAX_LEDS, color[0], color[1], color[2], brightness);
            let syncs = member_commands(members, &BoardCommand::SyncPresetState(*ps));
            GroupPlan::Fast { frame, syncs }
        },
        GroupCommand::SetPower(on, _) => {
            let frame = if *on {
                frame_solid_color(MAX_LEDS, color[0], color[1], color[2], 255)
            } else {
                let f = crate::e131::frame_blackout(MAX_LEDS);
                f
            };
            let syncs = member_commands(members, &BoardCommand::SyncPowerState(*on));
            GroupPlan::Fast { frame, syncs }
        },
        GroupCommand::SetBrightness(b, _) => {
            let frame = frame_solid_color(MAX_LEDS, color[0], color[1], color[2], *b);
            let syncs = member_commands(members, &BoardCommand::SyncBrightnessState(*b));
            GroupPlan::Fast { frame, syncs }
        },
        GroupCommand::SetColor { r, g, b, transition } => {
            let cmds = member_commands(members, &BoardCommand::SetColor {
                r: *r,
                g: *g,
                b: *b,
                transition: *transition,
            });
            GroupPlan::PerBoard(cmds)
        },
        GroupCommand::SetEffect(fx, tt) => {
            let cmds = member_commands(members, &BoardCommand::SetEffect(*fx, *tt));
            GroupPlan::PerBoard(cmds)
        },
    }
}

/// One copy of a command per member, in member order.
fn member_commands(members: &Vec<String>, cmd: &BoardCommand)
    -> (r: Vec<(String, BoardCommand)>)
    ensures
        r@.len() == members@.len(),
        forall|i: int| 0 <= i < members@.len() ==> {
            &&& (#[trigger] r@[i]).0 == members@[i]
            &&& r@[i].1 == *cmd
        },
{
    let mut r: Vec<(String, BoardCommand)> = Vec::new();
    let mut i: usize = 0;
    while i < members.len()
        invariant
            i <= members@.len(),
            r@.len() == i,
            forall|j: int| 0 <= j < i ==> {
                &&& (#[trigger] r@[j]).0 == members@[j]
                &&& r@[j].1 == *cmd
            },
        decreases members@.len() - i,
    {
        r.push((members[i].clone(), *cmd));
        i = i + 1;
    }
    r
}

/// Law: a fast-path invocation broadcasts exactly one frame, whatever
/// the member count — the frame field is a single payload, never one
/// per member.
pub proof fn lemma_fast_path_one_packet(cmd: GroupCommand, color: [u8; 3], brightness: u8)
    requires
        spec_is_fast(cmd),
    ensures
        spec_fast_frame(cmd, color, brightness).len() == DMX_PAYLOAD_LEN,
{
}

} // verus!
