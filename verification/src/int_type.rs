//! The fixed whitelist of integer discriminant types and their value ranges.

use vstd::prelude::*;

use crate::text::str_eq;

verus! {

/// One of the twelve supported integer types for discriminant evaluation:
/// signed and unsigned 8/16/32/64/128-bit and pointer-sized.
#[derive(Clone, Copy, Debug, PartialEq, Eq, Structural)]
pub enum IntTypeTag {
    I8,
    U8,
    I16,
    U16,
    I32,
    U32,
    I64,
    U64,
    I128,
    U128,
    Isize,
    Usize,
}

impl IntTypeTag {
    /// The smallest value representable in the type.
    pub open spec fn min_value(self) -> int {
        match self {
            IntTypeTag::I8 => i8::MIN as int,
            IntTypeTag::U8 => 0,
            IntTypeTag::I16 => i16::MIN as int,
            IntTypeTag::U16 => 0,
            IntTypeTag::I32 => i32::MIN as int,
            IntTypeTag::U32 => 0,
            IntTypeTag::I64 => i64::MIN as int,
            IntTypeTag::U64 => 0,
            IntTypeTag::I128 => i128::MIN as int,
            IntTypeTag::U128 => 0,
            IntTypeTag::Isize => isize::MIN as int,
            IntTypeTag::Usize => 0,
        }
    }

    /// The largest value representable in the type.
    pub open spec fn max_value(self) -> int {
        match self {
            IntTypeTag::I8 => i8::MAX as int,
            IntTypeTag::U8 => u8::MAX as int,
            IntTypeTag::I16 => i16::MAX as int,
            IntTypeTag::U16 => u16::MAX as int,
            IntTypeTag::I32 => i32::MAX as int,
            IntTypeTag::U32 => u32::MAX as int,
            IntTypeTag::I64 => i64::MAX as int,
            IntTypeTag::U64 => u64::MAX as int,
            IntTypeTag::I128 => i128::MAX as int,
            IntTypeTag::U128 => u128::MAX as int,
            IntTypeTag::Isize => isize::MAX as int,
            IntTypeTag::Usize => usize::MAX as int,
        }
    }

    /// Whether a mathematical value is representable in the type.
    pub open spec fn in_range(self, v: int) -> bool {
        self.min_value() <= v <= self.max_value()
    }

    /// Whether the type is signed.
    pub open spec fn spec_is_signed(self) -> bool {
        self.min_value() < 0
    }

    /// Whether the type is signed.
    pub fn is_signed(self) -> (r: bool)
        ensures
            r == self.spec_is_signed(),
    {
        match self {
            IntTypeTag::I8 => true,
            IntTypeTag::I16 => true,
            IntTypeTag::I32 => true,
            IntTypeTag::I64 => true,
            IntTypeTag::I128 => true,
            IntTypeTag::Isize => true,
            _ => false,
        }
    }

    /// The canonical name of the type.
    pub open spec fn spec_name(self) -> Seq<char> {
        match self {
            IntTypeTag::I8 => "i8"@,
            IntTypeTag::U8 => "u8"@,
            IntTypeTag::I16 => "i16"@,
            IntTypeTag::U16 => "u16"@,
            IntTypeTag::I32 => "i32"@,
            IntTypeTag::U32 => "u32"@,
            IntTypeTag::I64 => "i64"@,
            IntTypeTag::U64 => "u64"@,
            IntTypeTag::I128 => "i128"@,
            IntTypeTag::U128 => "u128"@,
            IntTypeTag::Isize => "isize"@,
            IntTypeTag::Usize => "usize"@,
        }
    }

    /// The canonical name of the type.
    pub fn name(self) -> (r: &'static str)
        ensures
            r@ == self.spec_name(),
    {
        match self {
            IntTypeTag::I8 => "i8",
            IntTypeTag::U8 => "u8",
            IntTypeTag::I16 => "i16",
            IntTypeTag::U16 => "u16",
            IntTypeTag::I32 => "i32",
            IntTypeTag::U32 => "u32",
            IntTypeTag::I64 => "i64",
            IntTypeTag::U64 => "u64",
            IntTypeTag::I128 => "i128",
            IntTypeTag::U128 => "u128",
            IntTypeTag::Isize => "isize",
            IntTypeTag::Usize => "usize",
        }
    }

    /// Looks a type up by its name; any string outside the twelve-member
    /// whitelist is rejected.
    pub fn from_name(s: &str) -> (r: Option<IntTypeTag>)
        ensures
            match r {
                Some(t) => t.spec_name() == s@,
                None => forall|t: IntTypeTag| t.spec_name() != s@,
            },
    {
        if str_eq(s, "i8") {
            Some(IntTypeTag::I8)
        } else if str_eq(s, "u8") {
            Some(IntTypeTag::U8)
        } else if str_eq(s, "i16") {
            Some(IntTypeTag::I16)
        } else if str_eq(s, "u16") {
            Some(IntTypeTag::U16)
        } else if str_eq(s, "i32") {
            Some(IntTypeTag::I32)
        } else if str_eq(s, "u32") {
            Some(IntTypeTag::U32)
        } else if str_eq(s, "i64") {
            Some(IntTypeTag::I64)
        } else if str_eq(s, "u64") {
            Some(IntTypeTag::U64)
        } else if str_eq(s, "i128") {
            Some(IntTypeTag::I128)
        } else if str_eq(s, "u128") {
            Some(IntTypeTag::U128)
        } else if str_eq(s, "isize") {
            Some(IntTypeTag::Isize)
        } else if str_eq(s, "usize") {
            Some(IntTypeTag::Usize)
        } else {
            None
        }
    }
}

/// Whether a string names one of the twelve supported integer types.
pub open spec fn is_valid_int_type_name(s: Seq<char>) -> bool {
    exists|t: IntTypeTag| t.spec_name() == s
}

/// Returns true if the given string represents a supported integer type
/// ("i8" through "usize").
pub fn valid_int_type(int_type: &str) -> (r: bool)
    ensures
        r == is_valid_int_type_name(int_type@),
{
    match IntTypeTag::from_name(int_type) {
        Some(t) => {
            proof {
                assert(t.spec_name() == int_type@);
            }
            true
        },
        None => false,
    }
}

} // verus!
