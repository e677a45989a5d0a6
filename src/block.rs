use vstd::prelude::*;

use crate::shape::BlockType;

verus! {

/// The effect a block may carry.
#[derive(Clone, Copy, Debug, PartialEq, Eq, Structural)]
pub enum EffectType {
    Glue,
    Platform,
    Magnetic,
}

/// A block waiting in the throw queue or spawned into the world: its form, its look, its
/// effect and the quarter turns it starts rotated by.
#[derive(Clone, Copy, Debug, PartialEq, Eq, Structural)]
pub struct Block {
    pub block_type: BlockType,
    pub effect_type: Option<EffectType>,
    pub variant: usize,
    pub initial_rotation: u8,
}

impl Block {
    pub fn new(block_type: BlockType, variant: usize, effect_type: Option<EffectType>, initial_rotation: u8) -> (r:
        Block)
        ensures
            r == (Block { block_type, effect_type, variant, initial_rotation }),
    {
        Block { block_type, variant, effect_type, initial_rotation }
    }
}


impl EffectType {
    /// Whether a block with this effect is pinned in place once it settles (a platform block
    /// becomes a fixed body that steadies the pile).
    pub fn fixes_on_settle(&self) -> (r: bool)
        ensures
            r == (*self == EffectType::Platform),
    {
        match self {
            EffectType::Platform => true,
            _ => false,
        }
    }
}

} // verus!
