//! Boat kinds and the mapping from item identifiers to them.

use vstd::prelude::*;

verus! {

/// The kinds of boat entities a player can place, one per item.
#[derive(Debug, Clone, Copy, PartialEq, Eq, Structural)]
pub enum BoatType {
    Oak,
    OakChestBoat,
    Spruce,
    SpruceChestBoat,
    Birch,
    BirchChestBoat,
    Jungle,
    JungleChestBoat,
    Acacia,
    AcaciaChestBoat,
    DarkOak,
    DarkOakChestBoat,
    Mangrove,
    MangroveChestBoat,
    Bamboo,
    BambooChestRaft,
    Cherry,
    CherryChestBoat,
}

/// The boat kind sold under a given item identifier, if any.
pub open spec fn boat_of_item(item_id: i32) -> Option<BoatType> {
    match item_id {
        803 => Some(BoatType::Oak),
        804 => Some(BoatType::OakChestBoat),
        805 => Some(BoatType::Spruce),
        806 => Some(BoatType::SpruceChestBoat),
        807 => Some(BoatType::Birch),
        808 => Some(BoatType::BirchChestBoat),
        809 => Some(BoatType::Jungle),
        810 => Some(BoatType::JungleChestBoat),
        811 => Some(BoatType::Acacia),
        812 => Some(BoatType::AcaciaChestBoat),
        813 => Some(BoatType::Cherry),
        814 => Some(BoatType::CherryChestBoat),
        815 => Some(BoatType::DarkOak),
        816 => Some(BoatType::DarkOakChestBoat),
        819 => Some(BoatType::Mangrove),
        820 => Some(BoatType::MangroveChestBoat),
        821 => Some(BoatType::Bamboo),
        822 => Some(BoatType::BambooChestRaft),
        _ => None,
    }
}

impl BoatType {
    /// Looks up the boat kind for an item identifier; `None` for any other item.
    pub fn from_item_id(item_id: i32) -> (r: Option<BoatType>)
        ensures
            r == boat_of_item(item_id),
    {
        match item_id {
            803 => Some(BoatType::Oak),
            804 => Some(BoatType::OakChestBoat),
            805 => Some(BoatType::Spruce),
            806 => Some(BoatType::SpruceChestBoat),
            807 => Some(BoatType::Birch),
            808 => Some(BoatType::BirchChestBoat),
            809 => Some(BoatType::Jungle),
            810 => Some(BoatType::JungleChestBoat),
            811 => Some(BoatType::Acacia),
            812 => Some(BoatType::AcaciaChestBoat),
            813 => Some(BoatType::Cherry),
            814 => Some(BoatType::CherryChestBoat),
            815 => Some(BoatType::DarkOak),
            816 => Some(BoatType::DarkOakChestBoat),
            819 => Some(BoatType::Mangrove),
            820 => Some(BoatType::MangroveChestBoat),
            821 => Some(BoatType::Bamboo),
            822 => Some(BoatType::BambooChestRaft),
            _ => None,
        }
    }
}

} // verus!
