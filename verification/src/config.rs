//! The persisted configuration document: boards, groups, the audio-host
//! endpoint, and the effect and pattern preset tables, with symbolic
//! target resolution.  Reading and writing the document on disk happens
//! outside the library.

use vstd::prelude::*;
use crate::lookup::{lemma_first_occurrence_at, lemma_no_occurrence};
use crate::pattern::{clone_string_vec, PatternType};
use crate::types::string_eq;

verus! {

/// Where the stores live on disk, as plain path strings.
#[derive(Debug, Clone)]
pub struct StoragePaths {
    /// Directory of program documents.
    pub programs: String,
    /// Directory of audio blobs.
    pub audio: String,
    /// Directory of the preset table.
    pub presets: String,
}

/// The audio playback host endpoint and the lights/audio offset.
#[derive(Debug, Clone)]
pub struct LoopyProConfig {
    /// IPv4 literal of the audio host.
    pub ip: String,
    /// UDP port of the audio host.
    pub port: u16,
    /// Signed offset: positive delays audio, negative delays lights.
    pub audio_sync_delay_ms: i64,
}

/// The audio host address used when the document names none.
pub fn default_loopy_ip() -> (r: String)
    ensures
        r@ == "192.168.1.242"@,
{
    String::from_str("192.168.1.242")
}

/// The audio host port used when the document names none.
pub fn default_loopy_port() -> (r: u16)
    ensures
        r == 9595,
{
    9595
}

impl Default for LoopyProConfig {
    /// The endpoint used when the document has no `loopy_pro` table.
    fn default() -> (r: LoopyProConfig)
        ensures
            r.ip@ == "192.168.1.242"@,
            r.port == 9595,
            r.audio_sync_delay_ms == 0,
    {
        LoopyProConfig { ip: default_loopy_ip(), port: default_loopy_port(), audio_sync_delay_ms: 0 }
    }
}

/// One board as configured: identity, address, universe and size.
#[derive(Debug, Clone)]
pub struct BoardConfig {
    /// Board identifier.
    pub id: String,
    /// IPv4 literal.
    pub ip: String,
    /// E1.31 universe the board listens on, when configured.
    pub universe: Option<u16>,
    /// LEDs on the board, when configured.
    pub led_count: Option<u16>,
    /// Default transition in 100 ms units, when configured.
    pub transition: Option<u8>,
}

impl BoardConfig {
    /// Copy a board entry.
    pub fn clone_board(&self) -> (r: BoardConfig)
        ensures
            r == *self,
    {
        BoardConfig {
            id: self.id.clone(),
            ip: self.ip.clone(),
            universe: self.universe,
            led_count: self.led_count,
            transition: self.transition,
        }
    }
}

/// One group as configured: identity, ordered members, and the universe
/// its fast-path transport broadcasts on.
#[derive(Debug, Clone)]
pub struct GroupConfig {
    /// Group identifier.
    pub id: String,
    /// Ordered member board ids.
    pub members: Vec<String>,
    /// Universe of the group's fast-path transport, when configured.
    pub universe: Option<u16>,
}

impl GroupConfig {
    /// Copy a group entry.
    pub fn clone_group(&self) -> (r: GroupConfig)
        ensures
            r.id == self.id,
            r.members@ == self.members@,
            r.universe == self.universe,
    {
        GroupConfig {
            id: self.id.clone(),
            members: clone_string_vec(&self.members),
            universe: self.universe,
        }
    }
}

/// An effect preset: a name bound to an effect type and colour.
#[derive(Debug, Clone)]
pub struct EffectPreset {
    /// Name cues refer to.
    pub name: String,
    /// Effect type, as spelled in the document.
    pub effect_type: String,
    /// Render colour.
    pub color: [u8; 3],
}

/// A pattern preset: a name bound to a pattern type and colour.
#[derive(Debug, Clone)]
pub struct PatternPreset {
    /// Name cues refer to.
    pub name: String,
    /// Traversal shape.
    pub pattern: PatternType,
    /// Render colour.
    pub colour: [u8; 3],
}

/// The whole configuration document.
#[derive(Debug, Clone)]
pub struct Config {
    /// Configured boards.
    pub boards: Vec<BoardConfig>,
    /// Configured groups.
    pub groups: Vec<GroupConfig>,
    /// Audio host endpoint.
    pub loopy_pro: LoopyProConfig,
    /// Effect preset table.
    pub effect_presets: Vec<EffectPreset>,
    /// Pattern preset table.
    pub pattern_presets: Vec<PatternPreset>,
}

/// The board identities, in order.
pub open spec fn board_ids(boards: Seq<BoardConfig>) -> Seq<Seq<char>> {
    boards.map_values(|b: BoardConfig| b.id@)
}

/// The group identities, in order.
pub open spec fn group_ids(groups: Seq<GroupConfig>) -> Seq<Seq<char>> {
    groups.map_values(|g: GroupConfig| g.id@)
}

/// The identities of a member list, in order.
pub open spec fn member_keys_of(members: Seq<String>) -> Seq<Seq<char>> {
    members.map_values(|m: String| m@)
}

/// The members of a group resolved against the board table, keeping the
/// member order and dropping ids that name no board.
pub open spec fn spec_resolve_members(boards: Seq<BoardConfig>, members: Seq<Seq<char>>)
    -> Seq<BoardConfig>
    decreases members.len(),
{
    if members.len() == 0 {
        Seq::empty()
    } else {
        let rest = spec_resolve_members(boards, members.drop_last());
        match board_ids(boards).index_of_first(members.last()) {
            Some(k) => rest.push(boards[k]),
            None => rest,
        }
    }
}

/// What a target id resolves to: the board of that name, else the
/// resolved members of the group of that name, else nothing.
pub open spec fn spec_target_boards(cfg: Config, target: Seq<char>) -> Seq<BoardConfig> {
    match board_ids(cfg.boards@).index_of_first(target) {
        Some(k) => seq![cfg.boards@[k]],
        None => match group_ids(cfg.groups@).index_of_first(target) {
            Some(g) => spec_resolve_members(cfg.boards@, member_keys_of(cfg.groups@[g].members@)),
            None => Seq::empty(),
        },
    }
}

impl Config {
    /// Find a board by identity.
    pub fn find_board(&self, id: &String) -> (r: Option<BoardConfig>)
        ensures
            match board_ids(self.boards@).index_of_first(id@) {
                Some(k) => r == Some(self.boards@[k]),
                None => r is None,
            },
    {
        find_board_in(&self.boards, id)
    }

    /// Find a group by identity.
    pub fn find_group(&self, id: &String) -> (r: Option<GroupConfig>)
        ensures
            match group_ids(self.groups@).index_of_first(id@) {
                Some(g) => r is Some && r->0.id == self.groups@[g].id
                    && r->0.members@ == self.groups@[g].members@
                    && r->0.universe == self.groups@[g].universe,
                None => r is None,
            },
    {
        let mut i: usize = 0;
        while i < self.groups.len()
            invariant
                i <= self.groups@.len(),
                forall|j: int| 0 <= j < i ==> #[trigger] self.groups@[j].id@ != id@,
            decreases self.groups@.len() - i,
        {
            let entry = &self.groups[i];
            if string_eq(&entry.id, id) {
                proof {
                    lemma_first_occurrence_at(group_ids(self.groups@), id@, i as int);
                }
                return Some(entry.clone_group());
            }
            i = i + 1;
        }
        proof {
            lemma_group_miss(self.groups@, id@);
        }
        None
    }

    /// Resolve a target id to its boards: the board of that name, else
    /// the members of the group of that name in order, else nothing.
    pub fn get_target_boards(&self, target: &String) -> (r: Vec<BoardConfig>)
        ensures
            r@ == spec_target_boards(*self, target@),
    {
        if let Some(b) = self.find_board(target) {
            let mut r: Vec<BoardConfig> = Vec::new();
            r.push(b);
            assert(r@ =~= spec_target_boards(*self, target@));
            return r;
        }
        if let Some(g) = self.find_group(target) {
            let mut r: Vec<BoardConfig> = Vec::new();
            let ghost member_keys = member_keys_of(g.members@);
            let mut i: usize = 0;
            while i < g.members.len()
                invariant
                    i <= g.members@.len(),
                    member_keys == member_keys_of(g.members@),
                    r@ == spec_resolve_members(self.boards@, member_keys.subrange(0, i as int)),
                decreases g.members@.len() - i,
            {
                let ghost prefix = member_keys.subrange(0, i as int);
                let ghost prefix1 = member_keys.subrange(0, i + 1 as int);
                proof {
                    assert(prefix1.drop_last() =~= prefix);
                    assert(prefix1.last() == member_keys[i as int]);
                }
                if let Some(b) = find_board_in(&self.boards, &g.members[i]) {
                    r.push(b);
                }
                i = i + 1;
            }
            proof {
                assert(member_keys.subrange(0, member_keys.len() as int) =~= member_keys);
            }
            return r;
        }
        let r: Vec<BoardConfig> = Vec::new();
        assert(r@ =~= spec_target_boards(*self, target@));
        r
    }
}

/// Find a board by identity in a board table.
pub fn find_board_in(boards: &Vec<BoardConfig>, id: &String) -> (r: Option<BoardConfig>)
    ensures
        match board_ids(boards@).index_of_first(id@) {
            Some(k) => r == Some(boards@[k]),
            None => r is None,
        },
{
    let mut i: usize = 0;
    while i < boards.len()
        invariant
            i <= boards@.len(),
            forall|j: int| 0 <= j < i ==> #[trigger] boards@[j].id@ != id@,
        decreases boards@.len() - i,
    {
        let entry = &boards[i];
        if string_eq(&entry.id, id) {
            proof {
                lemma_first_occurrence_at(board_ids(boards@), id@, i as int);
            }
            return Some(entry.clone_board());
        }
        i = i + 1;
    }
    proof {
        lemma_board_miss(boards@, id@);
    }
    None
}

/// No board carries the identity, so the key sequence has no occurrence.
proof fn lemma_board_miss(boards: Seq<BoardConfig>, id: Seq<char>)
    requires
        forall|j: int| 0 <= j < boards.len() ==> #[trigger] boards[j].id@ != id,
    ensures
        board_ids(boards).index_of_first(id) is None,
{
    let keys = board_ids(boards);
    assert forall|j: int| 0 <= j < keys.len() implies keys[j] != id by {
        assert(boards[j].id@ != id);
    }
    lemma_no_occurrence(keys, id);
}

/// No group carries the identity, so the key sequence has no occurrence.
proof fn lemma_group_miss(groups: Seq<GroupConfig>, id: Seq<char>)
    requires
        forall|j: int| 0 <= j < groups.len() ==> #[trigger] groups[j].id@ != id,
    ensures
        group_ids(groups).index_of_first(id) is None,
{
    let keys = group_ids(groups);
    assert forall|j: int| 0 <= j < keys.len() implies keys[j] != id by {
        assert(groups[j].id@ != id);
    }
    lemma_no_occurrence(keys, id);
}

} // verus!
