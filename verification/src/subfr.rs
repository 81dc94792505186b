use vstd::prelude::*;

verus! {

/// The type of a sub-frame identifier: the low byte names the scalar type,
/// the higher bits carry flags.
pub type SubIdTy = u16;

/// Flag bit: the value is a vector of the scalar type.
pub const VEC_FLAG: SubIdTy = 0x0400;

/// Flag bit: the value carries a pulse id.
pub const PULSED_FLAG: SubIdTy = 0x0800;

/// The sub-frame identifier of a value type.
pub trait SubFrId {
    fn sub() -> SubIdTy;
}

impl SubFrId for u8 {
    fn sub() -> (r: SubIdTy)
        ensures
            r == 0x01,
    {
        0x01
    }
}

impl SubFrId for u16 {
    fn sub() -> (r: SubIdTy)
        ensures
            r == 0x02,
    {
        0x02
    }
}

impl SubFrId for u32 {
    fn sub() -> (r: SubIdTy)
        ensures
            r == 0x03,
    {
        0x03
    }
}

impl SubFrId for u64 {
    fn sub() -> (r: SubIdTy)
        ensures
            r == 0x04,
    {
        0x04
    }
}

impl SubFrId for i8 {
    fn sub() -> (r: SubIdTy)
        ensures
            r == 0x05,
    {
        0x05
    }
}

impl SubFrId for i16 {
    fn sub() -> (r: SubIdTy)
        ensures
            r == 0x06,
    {
        0x06
    }
}

impl SubFrId for i32 {
    fn sub() -> (r: SubIdTy)
        ensures
            r == 0x07,
    {
        0x07
    }
}

impl SubFrId for i64 {
    fn sub() -> (r: SubIdTy)
        ensures
            r == 0x08,
    {
        0x08
    }
}

impl SubFrId for bool {
    fn sub() -> (r: SubIdTy)
        ensures
            r == 0x0b,
    {
        0x0b
    }
}

impl SubFrId for String {
    fn sub() -> (r: SubIdTy)
        ensures
            r == 0x0c,
    {
        0x0c
    }
}

impl SubFrId for Vec<u8> {
    fn sub() -> (r: SubIdTy)
        ensures
            r == (VEC_FLAG | 0x01),
    {
        VEC_FLAG | u8::sub()
    }
}

impl SubFrId for Vec<u16> {
    fn sub() -> (r: SubIdTy)
        ensures
            r == (VEC_FLAG | 0x02),
    {
        VEC_FLAG | u16::sub()
    }
}

impl SubFrId for Vec<u32> {
    fn sub() -> (r: SubIdTy)
        ensures
            r == (VEC_FLAG | 0x03),
    {
        VEC_FLAG | u32::sub()
    }
}

impl SubFrId for Vec<u64> {
    fn sub() -> (r: SubIdTy)
        ensures
            r == (VEC_FLAG | 0x04),
    {
        VEC_FLAG | u64::sub()
    }
}

impl SubFrId for Vec<i8> {
    fn sub() -> (r: SubIdTy)
        ensures
            r == (VEC_FLAG | 0x05),
    {
        VEC_FLAG | i8::sub()
    }
}

impl SubFrId for Vec<i16> {
    fn sub() -> (r: SubIdTy)
        ensures
            r == (VEC_FLAG | 0x06),
    {
        VEC_FLAG | i16::sub()
    }
}

impl SubFrId for Vec<i32> {
    fn sub() -> (r: SubIdTy)
        ensures
            r == (VEC_FLAG | 0x07),
    {
        VEC_FLAG | i32::sub()
    }
}

impl SubFrId for Vec<i64> {
    fn sub() -> (r: SubIdTy)
        ensures
            r == (VEC_FLAG | 0x08),
    {
        VEC_FLAG | i64::sub()
    }
}

impl SubFrId for Vec<bool> {
    fn sub() -> (r: SubIdTy)
        ensures
            r == (VEC_FLAG | 0x0b),
    {
        VEC_FLAG | bool::sub()
    }
}

impl SubFrId for Vec<String> {
    fn sub() -> (r: SubIdTy)
        ensures
            r == (VEC_FLAG | 0x0c),
    {
        VEC_FLAG | <String as SubFrId>::sub()
    }
}

/// Whether the identifier has the vector flag set.
pub fn is_vec_subfr(x: SubIdTy) -> (r: bool)
    ensures
        r == (x & VEC_FLAG != 0),
{
    x & VEC_FLAG != 0
}

/// The identifier with the pulsed flag added.
pub fn pulsed_subfr(x: SubIdTy) -> (r: SubIdTy)
    ensures
        r == (PULSED_FLAG | x),
        is_pulsed_subfr_spec(r),
        subfr_scalar_type_spec(r) == subfr_scalar_type_spec(x),
{
    proof {
        assert((0x0800u16 | x) & 0x0800u16 != 0) by (bit_vector);
        assert(((0x0800u16 | x) & 0xffu16) == (x & 0xffu16)) by (bit_vector);
    }
    PULSED_FLAG | x
}

pub open spec fn is_pulsed_subfr_spec(x: SubIdTy) -> bool {
    x & PULSED_FLAG != 0
}

pub open spec fn subfr_scalar_type_spec(x: SubIdTy) -> SubIdTy {
    x & 0xff
}

/// Whether the identifier has the pulsed flag set.
pub fn is_pulsed_subfr(x: SubIdTy) -> (r: bool)
    ensures
        r == is_pulsed_subfr_spec(x),
{
    x & PULSED_FLAG != 0
}

/// The scalar type part (low byte) of the identifier.
pub fn subfr_scalar_type(x: SubIdTy) -> (r: SubIdTy)
    ensures
        r == subfr_scalar_type_spec(x),
        r < 0x100,
{
    proof {
        assert(x & 0xffu16 < 0x100u16) by (bit_vector);
    }
    x & 0xff
}

/// Whether a frame type id belongs to the container-events family, whose
/// id is given by `type_id` (the upper 16 bits are compared).
pub fn is_container_events(x: u32, type_id: u32) -> (r: bool)
    ensures
        r == (x & 0xffff0000 == type_id),
{
    x & 0xffff0000 == type_id
}

} // verus!
