//! The value types that the registry stores and is queried with.

use vstd::prelude::*;

verus! {

/// The category of a lifeform. Only players and monsters are listed by room.
#[derive(Clone, Copy, Debug, PartialEq, Eq, Structural)]
pub enum LifeformType {
    Player,
    Monster,
    Other,
}

/// A network endpoint as plain integers: an IPv4 or an IPv6 socket address.
///
/// Two addresses are equal when they are of the same family and all their
/// parts are equal.
#[derive(Clone, Copy, Debug, PartialEq, Eq, Structural)]
pub enum Address {
    V4 { octets: u32, port: u16 },
    V6 { segments: u128, port: u16, flowinfo: u32, scope_id: u32 },
}

/// A point in space. Each coordinate is a 32-bit code chosen by the caller;
/// two positions are equal exactly when their three codes are equal.
#[derive(Clone, Copy, Debug, PartialEq, Eq, Structural)]
pub struct Position {
    pub x: u32,
    pub y: u32,
    pub z: u32,
}

/// A tracked game entity.
#[derive(Debug, PartialEq, Eq)]
pub struct LifeformComponent {
    pub id: u64,
    pub kind: LifeformType,
    pub ip: Option<Address>,
    pub room: String,
    pub position: Position,
}

/// What a lifeform is, with its room name as a sequence of characters.
pub struct LifeformView {
    pub id: u64,
    pub kind: LifeformType,
    pub ip: Option<Address>,
    pub room: Seq<char>,
    pub position: Position,
}

impl View for LifeformComponent {
    type V = LifeformView;

    open spec fn view(&self) -> LifeformView {
        LifeformView {
            id: self.id,
            kind: self.kind,
            ip: self.ip,
            room: self.room@,
            position: self.position,
        }
    }
}

impl Clone for LifeformComponent {
    fn clone(&self) -> (copy: Self)
        ensures
            copy@ == self@,
    {
        LifeformComponent {
            id: self.id,
            kind: self.kind,
            ip: self.ip,
            room: self.room.clone(),
            position: self.position,
        }
    }
}

/// The view of a slot: of the lifeform in it, if there is one.
pub open spec fn slot_view(slot: Option<LifeformComponent>) -> Option<LifeformView> {
    match slot {
        Some(lifeform) => Some(lifeform@),
        None => None,
    }
}

} // verus!
