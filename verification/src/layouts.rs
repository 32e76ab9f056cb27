//! Reference account layouts.
//!
//! These types document which distinct account declarations serialize
//! alike — the situation the deserialization-confusion rule exists to
//! catch. Each `Eq*` pair reads back identically from the same bytes;
//! each `UnEq*` pair does not. They serve as the fixed subjects of the
//! rule's tests and examples.

use vstd::prelude::*;

verus! {

/// Reads back identically to [`EqNoADT2`]: one byte, then 32 bytes.
pub struct EqNoADT1 {
    pub authority: u8,
    pub field2: [u8; 32],
}

/// Reads back identically to [`EqNoADT1`].
pub struct EqNoADT2 {
    pub field: u8,
    pub x: [u8; 32],
}

/// Reads back identically to [`EqWithStructField2`]: the nested struct
/// fields serialize the same way even though their types differ.
pub struct EqWithStructField1 {
    pub x: u8,
    pub y: EqNoADT1,
}

/// Reads back identically to [`EqWithStructField1`].
pub struct EqWithStructField2 {
    pub x: u8,
    pub y: EqNoADT2,
}

/// A 32-byte key; wrapping the array changes nothing about its bytes.
pub struct Pubkey(pub [u8; 32]);

/// Reads back identically to [`EqWithStructField4`]: a wrapped 32-byte
/// array and a bare one serialize the same way.
pub struct EqWithStructField3 {
    pub y: u8,
    pub z: [u8; 32],
}

/// Reads back identically to [`EqWithStructField3`].
pub struct EqWithStructField4 {
    pub x: u8,
    pub y: Pubkey,
}

/// Three words, named as a struct.
pub struct Rgb(pub u32, pub u32, pub u32);

/// Reads back identically to [`Tricky2`]: a struct of three words and a
/// tuple of three words serialize the same way.
pub struct Tricky1 {
    pub x: Rgb,
}

/// Reads back identically to [`Tricky1`].
pub struct Tricky2 {
    pub x: (u32, u32, u32),
}

/// Serializes as [`Enumy`] does: same variant count, same payloads.
pub enum Listy {
    Jimi,
    Hendrix,
}

/// Serializes as [`Listy`] does.
pub enum Enumy {
    Jimi,
    Hendrix,
}

/// Reads back identically to [`EqWithEnumField2`]: the enum fields have
/// the same shape.
pub struct EqWithEnumField1 {
    pub x: Vec<u8>,
    pub y: Listy,
}

/// Reads back identically to [`EqWithEnumField1`].
pub struct EqWithEnumField2 {
    pub x: Vec<u8>,
    pub y: Enumy,
}

/// Does not read back as [`UnEqNoADT2`]: the field lists differ.
pub struct UnEqNoADT1 {
    pub x: u32,
}

/// Does not read back as [`UnEqNoADT1`].
pub struct UnEqNoADT2 {
    pub y: u32,
    pub x: Vec<u8>,
}

/// Does not read back as [`UnEqStructField2`]: the nested structs
/// already differ.
pub struct UnEqStructField1 {
    pub x: UnEqNoADT1,
    pub y: u8,
}

/// Does not read back as [`UnEqStructField1`].
pub struct UnEqStructField2 {
    pub z: UnEqNoADT2,
    pub y: u8,
}

} // verus!
