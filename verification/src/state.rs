//! The state of the game that a script reads and changes.
use crate::inventory::Inventory;
use crate::tag::{TextEffect, ID};
use crate::vars::{ValView, Vars};
use vstd::prelude::*;

verus! {

/// The state of the game.
#[derive(Debug)]
pub struct State {
    /// The room that the player is in.
    pub room: ID,
    /// The player's column in the room.
    pub pos_x: u8,
    /// The player's row in the room.
    pub pos_y: u8,
    /// The sprite that the avatar is drawn with.
    pub avatar: ID,
    /// The palette of the room.
    pub palette: ID,
    /// Whether the game has ended.
    pub end: bool,
    /// What the player holds.
    pub inventory: Inventory,
    /// The variables of the scripts.
    pub vars: Vars,
    /// The style in which text is drawn at this point of the script.
    pub effect: TextEffect,
}

/// What a [`State`] holds, with each string as its characters and each
/// store as a map.
pub struct StateView {
    pub room: Seq<char>,
    pub pos_x: u8,
    pub pos_y: u8,
    pub avatar: Seq<char>,
    pub palette: Seq<char>,
    pub end: bool,
    pub inventory: Map<Seq<char>, u16>,
    pub vars: Map<Seq<char>, ValView>,
    pub effect: TextEffect,
}

impl View for State {
    type V = StateView;

    open spec fn view(&self) -> StateView {
        StateView {
            room: self.room@,
            pos_x: self.pos_x,
            pos_y: self.pos_y,
            avatar: self.avatar@,
            palette: self.palette@,
            end: self.end,
            inventory: self.inventory@,
            vars: self.vars@,
            effect: self.effect,
        }
    }
}

/// The state in which a game begins: no room, no avatar, no palette, the
/// position 0, 0, nothing held, no variable set, and plain text.
pub open spec fn initial_state() -> StateView {
    StateView {
        room: Seq::<char>::empty(),
        pos_x: 0,
        pos_y: 0,
        avatar: Seq::<char>::empty(),
        palette: Seq::<char>::empty(),
        end: false,
        inventory: Map::empty(),
        vars: Map::empty(),
        effect: TextEffect::Plain,
    }
}

impl Default for State {
    fn default() -> (state: State)
        ensures
            state@ == initial_state(),
    {
        State {
            room: String::new(),
            pos_x: 0,
            pos_y: 0,
            avatar: String::new(),
            palette: String::new(),
            end: false,
            inventory: Inventory::new(),
            vars: Vars::new(),
            effect: TextEffect::Plain,
        }
    }
}

impl Clone for State {
    fn clone(&self) -> (state: State)
        ensures
            state@ == self@,
    {
        State {
            room: self.room.clone(),
            pos_x: self.pos_x,
            pos_y: self.pos_y,
            avatar: self.avatar.clone(),
            palette: self.palette.clone(),
            end: self.end,
            inventory: self.inventory.clone(),
            vars: self.vars.clone(),
            effect: self.effect,
        }
    }
}

} // verus!
