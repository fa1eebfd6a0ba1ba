//! The tagged scalar value stored at each tensor position, and the element
//! types an IDX header can declare.

use vstd::prelude::*;

verus! {

/// The element type declared by the type-code byte of an IDX header.
#[derive(Clone, Copy, Debug, PartialEq, Eq, Structural)]
pub enum IdxType {
    UnsignedByte,
    SignedByte,
    Short,
    Int,
    Float,
    Double,
}

/// One decoded element: a tagged union over the six element types, plus the
/// absent variant that freshly allocated positions hold before they are
/// written.
///
/// The `Float` and `Double` variants carry the raw big-endian IEEE-754 bit
/// pattern of the encoded value; turning those bits into a native
/// floating-point number is left to the caller.
#[derive(Clone, Copy, Debug, PartialEq, Eq, Structural)]
pub enum IdxData {
    Absent,
    UnsignedByte(u8),
    SignedByte(i8),
    Short(i16),
    Int(i32),
    Float(u32),
    Double(u64),
}

impl IdxData {
    /// The element type this scalar carries, or `None` for the absent variant.
    pub open spec fn variant_type(self) -> Option<IdxType> {
        match self {
            IdxData::Absent => Option::None,
            IdxData::UnsignedByte(_) => Option::Some(IdxType::UnsignedByte),
            IdxData::SignedByte(_) => Option::Some(IdxType::SignedByte),
            IdxData::Short(_) => Option::Some(IdxType::Short),
            IdxData::Int(_) => Option::Some(IdxType::Int),
            IdxData::Float(_) => Option::Some(IdxType::Float),
            IdxData::Double(_) => Option::Some(IdxType::Double),
        }
    }

    /// Whether two scalars carry the same variant (both absent counts).
    pub open spec fn same_variant(self, other: Self) -> bool {
        self.variant_type() == other.variant_type()
    }

    /// The merge policy: scalars of one variant combine to the exact sum of
    /// their payloads; scalars of differing variants (or two absent ones)
    /// merge to the absent variant rather than failing. The result is
    /// `None` only where the exact sum cannot be represented here: an
    /// integer sum outside the variant's range, or two floating-point bit
    /// patterns, whose sum the caller must form from the bits.
    pub open spec fn spec_try_add(self, rhs: Self) -> Option<IdxData> {
        match (self, rhs) {
            (IdxData::UnsignedByte(a), IdxData::UnsignedByte(b)) => {
                if a + b <= u8::MAX {
                    Option::Some(IdxData::UnsignedByte((a + b) as u8))
                } else {
                    Option::None
                }
            }
            (IdxData::SignedByte(a), IdxData::SignedByte(b)) => {
                if i8::MIN <= a + b <= i8::MAX {
                    Option::Some(IdxData::SignedByte((a + b) as i8))
                } else {
                    Option::None
                }
            }
            (IdxData::Short(a), IdxData::Short(b)) => {
                if i16::MIN <= a + b <= i16::MAX {
                    Option::Some(IdxData::Short((a + b) as i16))
                } else {
                    Option::None
                }
            }
            (IdxData::Int(a), IdxData::Int(b)) => {
                if i32::MIN <= a + b <= i32::MAX {
                    Option::Some(IdxData::Int((a + b) as i32))
                } else {
                    Option::None
                }
            }
            (IdxData::Float(_), IdxData::Float(_)) => Option::None,
            (IdxData::Double(_), IdxData::Double(_)) => Option::None,
            _ => Option::Some(IdxData::Absent),
        }
    }

    /// Merge two scalars under the permissive policy described by
    /// [`Self::spec_try_add`]: mismatched variants yield `Some(Absent)`,
    /// matching integer variants yield their exact sum, and `None` is
    /// returned only where that sum is not representable (integer overflow,
    /// or floating-point payloads, which are held as raw bits here).
    pub fn try_add(self, rhs: Self) -> (r: Option<IdxData>)
        ensures
            r == self.spec_try_add(rhs),
            !self.same_variant(rhs) ==> r == Option::Some(IdxData::Absent),
    {
        match (self, rhs) {
            (IdxData::UnsignedByte(a), IdxData::UnsignedByte(b)) => match a.checked_add(b) {
                Option::Some(s) => Option::Some(IdxData::UnsignedByte(s)),
                Option::None => Option::None,
            },
            (IdxData::SignedByte(a), IdxData::SignedByte(b)) => match a.checked_add(b) {
                Option::Some(s) => Option::Some(IdxData::SignedByte(s)),
                Option::None => Option::None,
            },
            (IdxData::Short(a), IdxData::Short(b)) => match a.checked_add(b) {
                Option::Some(s) => Option::Some(IdxData::Short(s)),
                Option::None => Option::None,
            },
            (IdxData::Int(a), IdxData::Int(b)) => match a.checked_add(b) {
                Option::Some(s) => Option::Some(IdxData::Int(s)),
                Option::None => Option::None,
            },
            (IdxData::Float(_), IdxData::Float(_)) => Option::None,
            (IdxData::Double(_), IdxData::Double(_)) => Option::None,
            _ => Option::Some(IdxData::Absent),
        }
    }

    /// The additive identity of the merge policy: the absent variant.
    pub fn zero() -> (r: IdxData)
        ensures
            r == IdxData::Absent,
    {
        IdxData::Absent
    }

    /// Whether this scalar is the additive identity; true only for the
    /// absent variant.
    pub fn is_zero(&self) -> (r: bool)
        ensures
            r == (*self == IdxData::Absent),
    {
        matches!(self, IdxData::Absent)
    }

    /// The exact numeric value of an integer scalar, widened to `i64`.
    pub open spec fn spec_to_i64(self) -> Option<i64> {
        match self {
            IdxData::UnsignedByte(v) => Option::Some(v as i64),
            IdxData::SignedByte(v) => Option::Some(v as i64),
            IdxData::Short(v) => Option::Some(v as i64),
            IdxData::Int(v) => Option::Some(v as i64),
            _ => Option::None,
        }
    }

    /// Widen an integer scalar to its exact `i64` value. The absent variant
    /// has no value, and the floating-point variants hold raw bits whose
    /// numeric reading is left to the caller.
    pub fn to_i64(self) -> (r: Option<i64>)
        ensures
            r == self.spec_to_i64(),
    {
        match self {
            IdxData::UnsignedByte(v) => Option::Some(v as i64),
            IdxData::SignedByte(v) => Option::Some(v as i64),
            IdxData::Short(v) => Option::Some(v as i64),
            IdxData::Int(v) => Option::Some(v as i64),
            _ => Option::None,
        }
    }
}

impl Default for IdxData {
    /// A freshly allocated scalar is absent until the decoder writes it.
    fn default() -> (r: Self)
        ensures
            r == IdxData::Absent,
    {
        IdxData::Absent
    }
}

} // verus!
