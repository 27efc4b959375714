use vstd::prelude::*;
use crate::types::{Position, TileId};
use crate::value::Value;
use crate::region::{GameRegionData, TileEntry};
use crate::ids::new_uuid;

verus! {

/// The kind of a message shown to a player.
#[derive(PartialEq, Eq, Structural, Clone, Copy, Debug)]
pub enum MessageType {
    Status,
    Debug,
    Error,
}

/// A message shown to a player.
pub struct MessageData {
    pub message_type: MessageType,
    pub message: String,
    pub from: String,
    pub right: Option<String>,
    pub center: Option<String>,
    pub buffer: Option<String>,
}

/// A light in a region.
pub struct Light {
    pub position: (isize, isize),
    pub intensity: usize,
}

/// The values of a script scope, by name.
pub struct ScopeBuffer {
    pub values: Vec<(String, Value)>,
}

impl ScopeBuffer {
    /// An empty buffer.
    pub fn new() -> (b: Self)
        ensures
            b.values@.len() == 0,
    {
        ScopeBuffer { values: Vec::new() }
    }
}

/// What a client draws of a character.
pub struct CharacterData {
    pub position: Position,
    pub old_position: Option<Position>,
    pub max_transition_time: usize,
    pub curr_transition_time: usize,
    pub tile: TileId,
    pub name: String,
    pub id: u128,
    pub index: usize,
    pub effects: Vec<TileId>,
}

/// The update the server sends to a player's client.
pub struct GameUpdate {
    pub id: u128,
    pub position: Option<Position>,
    pub old_position: Option<Position>,
    pub max_transition_time: usize,
    pub curr_transition_time: usize,
    pub tile: Option<(usize, usize, usize)>,
    /// The script for the current screen, which handles the drawing.
    pub screen: Option<String>,
    /// A region.
    pub region: Option<GameRegionData>,
    /// Current lights in the region.
    pub lights: Vec<Light>,
    /// Tile displacements of the region.
    pub displacements: Vec<TileEntry>,
    /// Character information.
    pub characters: Vec<CharacterData>,
    /// Messages.
    pub messages: Vec<MessageData>,
    /// Audio files to play.
    pub audio: Vec<String>,
    /// Scope.
    pub scope_buffer: ScopeBuffer,
}

impl GameUpdate {
    /// An empty update with a fresh random id.
    pub fn new() -> (u: Self)
        ensures
            crate::ids::is_v4_id(u.id),
            u.position is None,
            u.old_position is None,
            u.max_transition_time == 0,
            u.curr_transition_time == 0,
            u.tile is None,
            u.screen is None,
            u.region is None,
            u.lights@.len() == 0,
            u.displacements@.len() == 0,
            u.characters@.len() == 0,
            u.messages@.len() == 0,
            u.audio@.len() == 0,
            u.scope_buffer.values@.len() == 0,
    {
        GameUpdate {
            id: new_uuid(),
            position: None,
            old_position: None,
            max_transition_time: 0,
            curr_transition_time: 0,
            tile: None,
            screen: None,
            region: None,
            lights: Vec::new(),
            displacements: Vec::new(),
            characters: Vec::new(),
            messages: Vec::new(),
            audio: Vec::new(),
            scope_buffer: ScopeBuffer::new(),
        }
    }
}

} // verus!
