use vstd::prelude::*;

verus! {

/// A position inside a region: the region's id and a tile coordinate.
#[derive(PartialEq, Eq, Structural, Clone, Copy, Debug)]
pub struct Position {
    pub region: u128,
    pub x: isize,
    pub y: isize,
}

impl Position {
    pub fn new(region: u128, x: isize, y: isize) -> (p: Self)
        ensures
            p.region == region,
            p.x == x,
            p.y == y,
    {
        Position { region, x, y }
    }
}

/// What a tile is used for; movement is blocked by `EnvBlocking` and `Water`.
#[derive(PartialEq, Eq, Structural, Clone, Copy, Debug)]
pub enum TileUsage {
    Environment,
    EnvRoad,
    EnvBlocking,
    Character,
    UtilityTile,
    Water,
    Effect,
    Icon,
}

/// Identifies a tile inside a tilemap.
#[derive(PartialEq, Eq, Structural, Clone, Copy, Debug)]
pub struct TileId {
    pub tilemap: u128,
    pub x_off: u16,
    pub y_off: u16,
}

impl TileId {
    pub fn new(tilemap: u128, x_off: u16, y_off: u16) -> (t: Self)
        ensures
            t.tilemap == tilemap,
            t.x_off == x_off,
            t.y_off == y_off,
    {
        TileId { tilemap, x_off, y_off }
    }
}

/// A placed tile: its tilemap coordinates and its usage.
#[derive(PartialEq, Eq, Structural, Clone, Copy, Debug)]
pub struct TileData {
    pub tilemap: u128,
    pub x_off: u16,
    pub y_off: u16,
    pub usage: TileUsage,
}

/// An in-game date.
#[derive(PartialEq, Eq, Structural, Clone, Copy, Debug)]
pub struct Date {
    pub day: u32,
    pub hours: u32,
    pub minutes: u32,
}

/// An amount of money in gold and silver coins.
#[derive(PartialEq, Eq, Structural, Clone, Copy, Debug)]
pub struct Currency {
    pub gold: i32,
    pub silver: i32,
}

impl Currency {
    pub fn new(gold: i32, silver: i32) -> (c: Self)
        ensures
            c.gold == gold,
            c.silver == silver,
    {
        Currency { gold, silver }
    }
}

} // verus!
