use vstd::prelude::*;

verus! {

/// A texture that the renderer can draw. The mapping from world content to
/// textures lives here; how a texture is rasterised is the renderer's
/// business and stays outside this library.
#[derive(PartialEq, Eq, Structural, Clone, Copy, Debug)]
pub enum Texture {
    Grass,
    Water,
    Player,
    Sand,
    PineTree,
    OakTree,
    Flowers,
    FlowersRedYellow,
    Rocks,
    NoTexture,
    Gravel,
    Pit,
    BlackSand,
    Path,
    Hammer,
    Shovel,
    Axe,
    SandboxDestroyWand,
    DroppedItems,
    Rock,
    FlintRock,
    PineStick,
    OakStick,
    SharpendFlint,
    FlintAxe,
    FlintHammer,
    FlintShovel,
    Acorn,
    PineCone,
}

} // verus!
