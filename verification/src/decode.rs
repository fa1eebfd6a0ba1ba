//! The IDX decoder: header parsing and the row-major element walk that
//! fills a tensor from the flat big-endian byte stream.

use crate::bytes::be_val;
use crate::bytes::lemma_be_val_bound;
use crate::bytes::pow256;
use crate::bytes::read_be;
use crate::bytes::signed_of;
use crate::scalar::IdxData;
use crate::scalar::IdxType;
use crate::shape::compute_size;
use crate::shape::count_elems;
use crate::shape::flat_index;
use crate::shape::lemma_count_pos_dims;
use crate::shape::lemma_flat_index_zero;
use crate::shape::next_coords;
use crate::shape::nonzero_prod;
use crate::shape::valid_coords;
use crate::tensor::tensor_elems;
use crate::tensor::tensor_shape;
use crate::tensor::Tensor;
use vstd::prelude::*;

verus! {

/// Why a decode failed.
#[derive(Clone, Copy, Debug, PartialEq, Eq, Structural)]
pub enum IdxError {
    /// The stream ended before the bytes the header or the declared
    /// elements demand.
    Truncated,
    /// The header's type-code byte is not one of the six recognized codes.
    UnrecognizedType,
    /// A dimension-size field, read as a big-endian signed 32-bit integer,
    /// is negative.
    NegativeDimension,
    /// The declared dimension sizes multiply out beyond what a tensor can
    /// be allocated for on this machine.
    Oversized,
}

/// The element type each recognized type-code byte declares.
pub open spec fn code_to_type(code: u8) -> Option<IdxType> {
    if code == 0x08 {
        Option::Some(IdxType::UnsignedByte)
    } else if code == 0x09 {
        Option::Some(IdxType::SignedByte)
    } else if code == 0x0B {
        Option::Some(IdxType::Short)
    } else if code == 0x0C {
        Option::Some(IdxType::Int)
    } else if code == 0x0D {
        Option::Some(IdxType::Float)
    } else if code == 0x0E {
        Option::Some(IdxType::Double)
    } else {
        Option::None
    }
}

/// The encoded byte width of one element of each type.
pub open spec fn width(ty: IdxType) -> int {
    match ty {
        IdxType::UnsignedByte => 1,
        IdxType::SignedByte => 1,
        IdxType::Short => 2,
        IdxType::Int => 4,
        IdxType::Float => 4,
        IdxType::Double => 8,
    }
}

/// One encoded scalar, decoded: integers are big-endian (the signed ones in
/// two's complement), and the floating-point types keep their big-endian
/// IEEE-754 bits.
pub open spec fn decode_scalar(ty: IdxType, s: Seq<u8>) -> IdxData {
    match ty {
        IdxType::UnsignedByte => IdxData::UnsignedByte(be_val(s) as u8),
        IdxType::SignedByte => IdxData::SignedByte(signed_of(be_val(s), 0x100) as i8),
        IdxType::Short => IdxData::Short(signed_of(be_val(s), 0x10000) as i16),
        IdxType::Int => IdxData::Int(signed_of(be_val(s), 0x1_0000_0000) as i32),
        IdxType::Float => IdxData::Float(be_val(s) as u32),
        IdxType::Double => IdxData::Double(be_val(s) as u64),
    }
}

/// Every decoded scalar carries the variant of the type it was decoded as.
pub proof fn lemma_type_fidelity(ty: IdxType, s: Seq<u8>)
    ensures
        decode_scalar(ty, s).variant_type() == Option::Some(ty),
{
}

/// Whether the stream reaches the type-code byte and that byte is a
/// recognized code.
pub open spec fn header_has_type(b: Seq<u8>) -> bool {
    b.len() >= 3 && code_to_type(b[2]) is Some
}

/// The element type the header declares.
pub open spec fn elem_type(b: Seq<u8>) -> IdxType {
    code_to_type(b[2])->Some_0
}

/// The number of dimensions the header declares.
pub open spec fn dim_count(b: Seq<u8>) -> int {
    b[3] as int
}

/// Where the element data starts: right after the two reserved bytes, the
/// type code, the dimension count, and one 4-byte size per dimension.
pub open spec fn data_offset(b: Seq<u8>) -> int {
    4 + 4 * dim_count(b)
}

/// Whether the stream holds the whole fixed-format header.
pub open spec fn header_complete(b: Seq<u8>) -> bool {
    b.len() >= 4 && b.len() >= data_offset(b)
}

/// The unsigned reading of the `j`-th dimension-size field.
pub open spec fn raw_dim(b: Seq<u8>, j: int) -> int {
    be_val(b.subrange(4 + 4 * j, 8 + 4 * j))
}

/// Whether every dimension-size field is non-negative as a signed 32-bit
/// integer.
pub open spec fn dims_in_range(b: Seq<u8>) -> bool {
    forall|j: int| 0 <= j < dim_count(b) ==> raw_dim(b, j) < 0x8000_0000
}

/// The dimension vector the header declares.
pub open spec fn header_dims(b: Seq<u8>) -> Seq<usize> {
    Seq::new(dim_count(b) as nat, |j: int| raw_dim(b, j) as usize)
}

/// Whether the declared sizes stay within what a tensor can be allocated
/// for.
pub open spec fn size_ok(b: Seq<u8>) -> bool {
    nonzero_prod(header_dims(b)) <= usize::MAX as int / 64
}

/// The number of elements the header declares.
pub open spec fn total_count(b: Seq<u8>) -> int {
    count_elems(header_dims(b))
}

/// The bytes of the `k`-th encoded element, counted in row-major order from
/// the end of the header.
pub open spec fn elem_bytes(b: Seq<u8>, k: int) -> Seq<u8> {
    b.subrange(
        data_offset(b) + k * width(elem_type(b)),
        data_offset(b) + k * width(elem_type(b)) + width(elem_type(b)),
    )
}

/// Whether the stream holds every element the header declares.
pub open spec fn data_sufficient(b: Seq<u8>) -> bool {
    b.len() >= data_offset(b) + total_count(b) * width(elem_type(b))
}

/// The elements of a fully decoded stream, in row-major order.
pub open spec fn elem_seq(b: Seq<u8>) -> Seq<IdxData> {
    Seq::new(total_count(b) as nat, |k: int| decode_scalar(elem_type(b), elem_bytes(b, k)))
}

/// The encoded byte width of one element.
pub fn elem_width(ty: IdxType) -> (w: usize)
    ensures
        w as int == width(ty),
{
    match ty {
        IdxType::UnsignedByte => 1,
        IdxType::SignedByte => 1,
        IdxType::Short => 2,
        IdxType::Int => 4,
        IdxType::Float => 4,
        IdxType::Double => 8,
    }
}

/// Decode the scalar of type `ty` encoded at `pos`.
pub fn read_scalar(bytes: &[u8], pos: usize, ty: IdxType) -> (r: IdxData)
    requires
        pos + width(ty) <= bytes@.len(),
    ensures
        r == decode_scalar(ty, bytes@.subrange(pos as int, pos as int + width(ty))),
{
    proof {
        lemma_be_val_bound(bytes@.subrange(pos as int, pos as int + width(ty)));
        assert(pow256(1) == 0x100 && pow256(2) == 0x10000 && pow256(4) == 0x1_0000_0000 && pow256(
            8,
        ) == 0x1_0000_0000_0000_0000) by {
            reveal_with_fuel(pow256, 9);
        }
    }
    match ty {
        IdxType::UnsignedByte => {
            let v = read_be(bytes, pos, 1);
            IdxData::UnsignedByte(v as u8)
        }
        IdxType::SignedByte => {
            let v = read_be(bytes, pos, 1);
            if v < 0x80 {
                IdxData::SignedByte(v as i8)
            } else {
                IdxData::SignedByte((v as i64 - 0x100) as i8)
            }
        }
        IdxType::Short => {
            let v = read_be(bytes, pos, 2);
            if v < 0x8000 {
                IdxData::Short(v as i16)
            } else {
                IdxData::Short((v as i64 - 0x10000) as i16)
            }
        }
        IdxType::Int => {
            let v = read_be(bytes, pos, 4);
            if v < 0x8000_0000 {
                IdxData::Int(v as i32)
            } else {
                IdxData::Int((v as i64 - 0x1_0000_0000) as i32)
            }
        }
        IdxType::Float => {
            let v = read_be(bytes, pos, 4);
            IdxData::Float(v as u32)
        }
        IdxType::Double => {
            let v = read_be(bytes, pos, 8);
            IdxData::Double(v)
        }
    }
}

/// Parse the fixed-format header: skip the two reserved bytes (their value
/// is ignored), map the type-code byte to an element type, then read the
/// dimension count and that many big-endian 4-byte dimension sizes.
pub fn parse_header(bytes: &[u8]) -> (r: Result<(IdxType, Vec<usize>), IdxError>)
    ensures
        r is Ok <==> header_has_type(bytes@) && header_complete(bytes@) && dims_in_range(bytes@),
        r is Ok ==> r->Ok_0.0 == elem_type(bytes@) && r->Ok_0.1@ == header_dims(bytes@),
        r == Err::<(IdxType, Vec<usize>), IdxError>(IdxError::UnrecognizedType) <==> bytes@.len()
            >= 3 && code_to_type(bytes@[2]) is None,
        r == Err::<(IdxType, Vec<usize>), IdxError>(IdxError::Truncated) <==> bytes@.len() < 3 || (
        header_has_type(bytes@) && !header_complete(bytes@)),
        r == Err::<(IdxType, Vec<usize>), IdxError>(IdxError::NegativeDimension) <==> (
        header_has_type(bytes@) && header_complete(bytes@) && !dims_in_range(bytes@)),
{
    let n = bytes.len();
    if n < 3 {
        return Err(IdxError::Truncated);
    }
    let code = bytes[2];
    let ty = match code {
        0x08 => IdxType::UnsignedByte,
        0x09 => IdxType::SignedByte,
        0x0B => IdxType::Short,
        0x0C => IdxType::Int,
        0x0D => IdxType::Float,
        0x0E => IdxType::Double,
        _ => {
            return Err(IdxError::UnrecognizedType);
        },
    };
    if n < 4 {
        return Err(IdxError::Truncated);
    }
    let ndims = bytes[3] as usize;
    if n < 4 + 4 * ndims {
        return Err(IdxError::Truncated);
    }
    let mut dims: Vec<usize> = Vec::new();
    let mut j: usize = 0;
    while j < ndims
        invariant
            j <= ndims,
            n == bytes@.len(),
            n >= 4 + 4 * ndims,
            ndims == dim_count(bytes@),
            header_has_type(bytes@),
            header_complete(bytes@),
            ty == elem_type(bytes@),
            dims@.len() == j,
            forall|k: int|
                0 <= k < j ==> raw_dim(bytes@, k) < 0x8000_0000 && (dims@[k] as int) == raw_dim(
                    bytes@,
                    k,
                ),
        decreases ndims - j,
    {
        let v = read_be(bytes, 4 + 4 * j, 4);
        proof {
            assert(bytes@.subrange(
                4 + 4 * j as int,
                4 + 4 * j as int + 4,
            ) =~= bytes@.subrange(4 + 4 * j as int, 8 + 4 * j as int));
        }
        if v >= 0x8000_0000 {
            proof {
                assert(raw_dim(bytes@, j as int) >= 0x8000_0000);
                assert(!dims_in_range(bytes@));
            }
            return Err(IdxError::NegativeDimension);
        }
        dims.push(v as usize);
        j = j + 1;
    }
    proof {
        assert(dims@ =~= header_dims(bytes@));
    }
    Ok((ty, dims))
}

/// Fill a freshly allocated tensor with the `count` elements encoded from
/// `off` on, walking the coordinates in row-major order.
fn read_elements(bytes: &[u8], off: usize, ty: IdxType, dims: &Vec<usize>, count: usize, t: &mut Tensor)
    requires
        count as int == count_elems(dims@),
        off + count as int * width(ty) <= bytes@.len(),
        tensor_shape(*old(t)) == dims@,
        tensor_elems(*old(t)) == Seq::new(count as nat, |k: int| IdxData::Absent),
    ensures
        tensor_shape(*final(t)) == dims@,
        tensor_elems(*final(t)) == Seq::new(
            count as nat,
            |k: int|
                decode_scalar(
                    ty,
                    bytes@.subrange(
                        off + k * width(ty),
                        off + k * width(ty) + width(ty),
                    ),
                ),
        ),
{
    let blen = bytes.len();
    let w = elem_width(ty);
    let n = dims.len();
    let mut coords: Vec<usize> = Vec::new();
    let mut z: usize = 0;
    while z < n
        invariant
            z <= n,
            coords@.len() == z,
            forall|k: int| 0 <= k < z ==> coords@[k] == 0,
        decreases n - z,
    {
        coords.push(0);
        z = z + 1;
    }
    proof {
        if count > 0 {
            lemma_count_pos_dims(dims@);
            lemma_flat_index_zero(dims@, coords@);
        }
    }
    let mut i: usize = 0;
    let mut pos: usize = off;
    while i < count
        invariant
            i <= count,
            count as int == count_elems(dims@),
            w as int == width(ty),
            blen == bytes@.len(),
            off + count as int * width(ty) <= blen,
            pos as int == off + i as int * width(ty),
            tensor_shape(*t) == dims@,
            tensor_elems(*t) == Seq::new(
                count as nat,
                |k: int|
                    if k < i as int {
                        decode_scalar(
                            ty,
                            bytes@.subrange(
                                off + k * width(ty),
                                off + k * width(ty) + width(ty),
                            ),
                        )
                    } else {
                        IdxData::Absent
                    },
            ),
            coords@.len() == dims@.len(),
            i < count ==> valid_coords(dims@, coords@) && flat_index(dims@, coords@) == i as int,
        decreases count - i,
    {
        proof {
            assert((i as int + 1) * width(ty) <= count as int * width(ty)) by (nonlinear_arith)
                requires
                    i as int + 1 <= count as int,
                    width(ty) >= 1,
            ;
            assert(i as int * width(ty) + width(ty) == (i as int + 1) * width(ty)) by (nonlinear_arith);
        }
        let v = read_scalar(bytes, pos, ty);
        t.set(&coords, v);
        proof {
            assert(tensor_elems(*t) =~= Seq::new(
                count as nat,
                |k: int|
                    if k < i as int + 1 {
                        decode_scalar(
                            ty,
                            bytes@.subrange(
                                off + k * width(ty),
                                off + k * width(ty) + width(ty),
                            ),
                        )
                    } else {
                        IdxData::Absent
                    },
            ));
        }
        pos = pos + w;
        i = i + 1;
        if i < count {
            let carry = next_coords(&mut coords, dims);
            assert(!carry);
        }
    }
}

/// Decode one IDX stream: parse the header, allocate a tensor shaped by the
/// declared dimension vector, and fill it with the declared elements in
/// row-major order.
///
/// Succeeds exactly on streams whose header is complete with a recognized
/// type code, whose dimension sizes are non-negative and small enough to
/// allocate for, and whose remaining bytes hold every declared element;
/// trailing bytes beyond the element data are ignored. Each error names the
/// first check that fails, in that order.
pub fn read_idx(bytes: &[u8]) -> (r: Result<Tensor, IdxError>)
    ensures
        r is Ok <==> header_has_type(bytes@) && header_complete(bytes@) && dims_in_range(bytes@)
            && size_ok(bytes@) && data_sufficient(bytes@),
        r is Ok ==> tensor_shape(r->Ok_0) == header_dims(bytes@) && tensor_elems(r->Ok_0)
            == elem_seq(bytes@),
        r == Err::<Tensor, IdxError>(IdxError::UnrecognizedType) <==> bytes@.len() >= 3
            && code_to_type(bytes@[2]) is None,
        r == Err::<Tensor, IdxError>(IdxError::Truncated) <==> bytes@.len() < 3 || (
        header_has_type(bytes@) && !header_complete(bytes@)) || (header_has_type(bytes@)
            && header_complete(bytes@) && dims_in_range(bytes@) && size_ok(bytes@)
            && !data_sufficient(bytes@)),
        r == Err::<Tensor, IdxError>(IdxError::NegativeDimension) <==> (header_has_type(bytes@)
            && header_complete(bytes@) && !dims_in_range(bytes@)),
        r == Err::<Tensor, IdxError>(IdxError::Oversized) <==> (header_has_type(bytes@)
            && header_complete(bytes@) && dims_in_range(bytes@) && !size_ok(bytes@)),
{
    let blen = bytes.len();
    let (ty, dims) = match parse_header(bytes) {
        Ok(h) => h,
        Err(e) => {
            return Err(e);
        },
    };
    let count = match compute_size(&dims) {
        Option::Some(c) => c,
        Option::None => {
            return Err(IdxError::Oversized);
        },
    };
    let w = elem_width(ty);
    let off = 4 + 4 * dims.len();
    let needed = match count.checked_mul(w) {
        Option::Some(x) => x,
        Option::None => {
            return Err(IdxError::Truncated);
        },
    };
    if blen - off < needed {
        return Err(IdxError::Truncated);
    }
    let mut t = Tensor::new(&dims);
    read_elements(bytes, off, ty, &dims, count, &mut t);
    proof {
        assert(tensor_elems(t) =~= elem_seq(bytes@));
    }
    Ok(t)
}

} // verus!
