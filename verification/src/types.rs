//! Request, response and preset records exchanged with the HTTP edge.
//! The edge parses its JSON outside the library and hands these plain
//! values in.

use vstd::prelude::*;
use crate::board::BoardState;

verus! {

/// Register a new board.
#[derive(Debug, Clone)]
pub struct RegisterBoardRequest {
    /// Identifier the board will be known by.
    pub id: String,
    /// IPv4 literal of the board.
    pub ip: String,
}

/// Rename a board or move it to another address.
#[derive(Debug, Clone)]
pub struct UpdateBoardRequest {
    /// New identifier, when renaming.
    pub new_id: Option<String>,
    /// New address, when moving.
    pub new_ip: Option<String>,
}

/// Send one OSC message to the audio host.
#[derive(Debug, Clone)]
pub struct OscRequest {
    /// OSC address to send.
    pub address: String,
}

/// Create a group.
#[derive(Debug, Clone)]
pub struct CreateGroupRequest {
    /// Group identifier.
    pub id: String,
    /// Ordered member board ids.
    pub members: Vec<String>,
}

/// Replace a group's identity or members.
#[derive(Debug, Clone)]
pub struct UpdateGroupRequest {
    /// New group identifier.
    pub id: String,
    /// New ordered member list.
    pub members: Vec<String>,
}

/// Power request for one board.
#[derive(Debug, Clone)]
pub struct PowerRequest {
    /// Desired power state.
    pub on: bool,
    /// Transition time in 100 ms units.
    pub transition: u8,
}

/// Outcome of a group operation over its members.
#[derive(Debug, Clone)]
pub struct GroupOperationResult {
    /// The group operated on.
    pub group_id: String,
    /// Members whose command was delivered.
    pub successful_members: Vec<String>,
    /// Members that failed, with the failure text.
    pub failed_members: Vec<(String, String)>,
    /// Member states, when they were queried.
    pub member_states: Vec<BoardState>,
}

/// Brightness request for a group.
#[derive(Debug, Clone)]
pub struct GroupBrightnessRequest {
    /// Master brightness.
    pub brightness: u8,
    /// Transition time in 100 ms units.
    pub transition: u8,
}

/// Colour request for a group.
#[derive(Debug, Clone)]
pub struct GroupColorRequest {
    /// Red channel.
    pub r: u8,
    /// Green channel.
    pub g: u8,
    /// Blue channel.
    pub b: u8,
    /// Transition time in 100 ms units.
    pub transition: u8,
}

/// Effect request for a group.
#[derive(Debug, Clone)]
pub struct GroupEffectRequest {
    /// Firmware effect index.
    pub effect: u8,
    /// Transition time in 100 ms units.
    pub transition: u8,
}

/// Preset request for a group.
#[derive(Debug, Clone)]
pub struct GroupPresetRequest {
    /// Firmware preset slot.
    pub preset: u8,
    /// Transition time in 100 ms units.
    pub transition: u8,
}

/// The default transition for requests that leave it out.
pub fn default_transition() -> (t: u8)
    ensures
        t == 0,
{
    0
}

/// Upload an audio blob given as a data URL.
#[derive(Debug, Clone)]
pub struct UploadAudioRequest {
    /// The data URL carrying the audio bytes.
    pub data_url: String,
}

/// Name of the stored audio file.
#[derive(Debug, Clone)]
pub struct UploadAudioResponse {
    /// Stored filename, id plus extension.
    pub audio_file: String,
}

/// Create or update a preset.
#[derive(Debug, Clone)]
pub struct SavePresetRequest {
    /// Display name.
    pub name: String,
    /// Requested slot, or zero to auto-assign.
    pub wled_slot: u8,
    /// Optional description.
    pub description: Option<String>,
    /// Stored render state; a default is used when absent.
    pub state: Option<PresetState>,
}

/// A stored preset: identity, slot and render state.
#[derive(Debug, Clone)]
pub struct WledPreset {
    /// Stable identifier.
    pub id: String,
    /// Display name.
    pub name: String,
    /// Board-side slot, 1..=250, unique across presets.
    pub wled_slot: u8,
    /// Optional description.
    pub description: Option<String>,
    /// Render state saved into the slot.
    pub state: PresetState,
    /// Creation timestamp.
    pub created_at: String,
}

/// The render state a preset stores.
#[derive(Debug, Clone, Copy)]
pub struct PresetState {
    /// Power state.
    pub on: bool,
    /// Master brightness.
    pub brightness: u8,
    /// Solid colour.
    pub color: [u8; 3],
    /// Firmware effect index.
    pub effect: u8,
    /// Effect speed.
    pub speed: u8,
    /// Effect intensity.
    pub intensity: u8,
    /// Optional transition time in 100 ms units.
    pub transition: Option<u8>,
}

/// Exact equality of two identifiers.
pub fn string_eq(a: &String, b: &String) -> (r: bool)
    ensures
        r == (a@ == b@),
{
    a.eq(b)
}

/// Copy an optional string.
pub fn clone_opt_string(v: &Option<String>) -> (r: Option<String>)
    ensures
        r == *v,
{
    match v {
        Some(s) => Some(s.clone()),
        None => None,
    }
}

impl WledPreset {
    /// Copy a preset record.
    pub fn clone_preset(&self) -> (r: WledPreset)
        ensures
            r == *self,
    {
        WledPreset {
            id: self.id.clone(),
            name: self.name.clone(),
            wled_slot: self.wled_slot,
            description: clone_opt_string(&self.description),
            state: self.state,
            created_at: self.created_at.clone(),
        }
    }
}

} // verus!
