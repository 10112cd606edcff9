use vstd::prelude::*;

verus! {

/// A pair of unsigned integers.
#[derive(Debug, Clone, Copy, PartialEq, Eq, Structural)]
pub struct Vector2u {
    pub x: u32,
    pub y: u32,
}

/// A pair of signed integers.
#[derive(Debug, Clone, Copy, PartialEq, Eq, Structural)]
pub struct Vector2i {
    pub x: i32,
    pub y: i32,
}

#[derive(Debug, Clone, Copy, PartialEq, Eq, Structural)]
pub struct Vector3f {}

#[derive(Debug, Clone, Copy, PartialEq, Eq, Structural)]
pub struct Vector3u {}

#[derive(Debug, Clone, Copy, PartialEq, Eq, Structural)]
pub struct Vector3i {}

#[derive(Debug, Clone, Copy, PartialEq, Eq, Structural)]
pub struct Vector4f {}

#[derive(Debug, Clone, Copy, PartialEq, Eq, Structural)]
pub struct Vector4u {}

#[derive(Debug, Clone, Copy, PartialEq, Eq, Structural)]
pub struct Vector4i {}

/// Engine settings (none so far).
#[derive(Debug, Clone, Copy, PartialEq, Eq, Structural)]
pub struct Config {}

} // verus!
