use vstd::prelude::*;

verus! {

/// The kinds of cell content in the world.
#[derive(Debug, Clone, Copy, PartialEq, Eq, Structural)]
pub enum BlockType {
    Air,
    Grass,
    Dirt,
    Stone,
    Sand,
    Water,
}

/// A display colour; each channel in thousandths (0 ..= 1000).
#[derive(Debug, Clone, Copy, PartialEq, Eq, Structural)]
pub struct Rgba {
    pub r: u32,
    pub g: u32,
    pub b: u32,
    pub a: u32,
}

pub open spec fn solid_spec(b: BlockType) -> bool {
    !(b == BlockType::Air || b == BlockType::Water)
}

pub open spec fn transparent_spec(b: BlockType) -> bool {
    b == BlockType::Air || b == BlockType::Water
}

pub open spec fn color_spec(b: BlockType) -> Rgba {
    match b {
        BlockType::Air => Rgba { r: 0, g: 0, b: 0, a: 0 },
        BlockType::Grass => Rgba { r: 300, g: 700, b: 300, a: 1000 },
        BlockType::Dirt => Rgba { r: 600, g: 400, b: 200, a: 1000 },
        BlockType::Stone => Rgba { r: 500, g: 500, b: 500, a: 1000 },
        BlockType::Sand => Rgba { r: 900, g: 800, b: 600, a: 1000 },
        BlockType::Water => Rgba { r: 200, g: 400, b: 800, a: 700 },
    }
}

impl BlockType {
    /// Whether the block stops movement and sight.
    pub fn is_solid(&self) -> (r: bool)
        ensures
            r == solid_spec(*self),
    {
        match self {
            BlockType::Air | BlockType::Water => false,
            _ => true,
        }
    }

    /// Whether light passes through the block.
    pub fn is_transparent(&self) -> (r: bool)
        ensures
            r == transparent_spec(*self),
    {
        match self {
            BlockType::Air | BlockType::Water => true,
            _ => false,
        }
    }

    /// The block's base colour.
    pub fn get_color(&self) -> (r: Rgba)
        ensures
            r == color_spec(*self),
            r.r <= 1000 && r.g <= 1000 && r.b <= 1000 && r.a <= 1000,
    {
        match self {
            BlockType::Air => Rgba { r: 0, g: 0, b: 0, a: 0 },
            BlockType::Grass => Rgba { r: 300, g: 700, b: 300, a: 1000 },
            BlockType::Dirt => Rgba { r: 600, g: 400, b: 200, a: 1000 },
            BlockType::Stone => Rgba { r: 500, g: 500, b: 500, a: 1000 },
            BlockType::Sand => Rgba { r: 900, g: 800, b: 600, a: 1000 },
            BlockType::Water => Rgba { r: 200, g: 400, b: 800, a: 700 },
        }
    }
}

} // verus!
