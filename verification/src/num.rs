//! Width quantizations and quantized numbers.
//!
//! A [`Size`] is one of the four supported power-of-two widths (8, 16, 32 or
//! 64 bits). An [`Unsigned`] or [`Signed`] value carries its quantization in
//! its tag. Little-endian byte strings of quantized values are modelled by
//! [`spec_le_bytes`] and [`spec_le_value`].

use vstd::prelude::*;

verus! {

/// One of the four supported power-of-two width quantizations.
///
/// The *power* of a size is the exponent of two that gives its byte length:
/// 0, 1, 2 or 3 for 1, 2, 4 or 8 bytes.
#[derive(Debug, Clone, Copy, PartialEq, Eq, Structural)]
pub enum Size {
    U8,
    U16,
    U32,
    U64,
}

impl Size {
    /// The exponent of two giving the byte length: 0, 1, 2 or 3.
    pub open spec fn spec_power(self) -> u8 {
        match self {
            Size::U8 => 0,
            Size::U16 => 1,
            Size::U32 => 2,
            Size::U64 => 3,
        }
    }

    /// The number of bytes a value of this size occupies: 1, 2, 4 or 8.
    pub open spec fn spec_size(self) -> u8 {
        match self {
            Size::U8 => 1,
            Size::U16 => 2,
            Size::U32 => 4,
            Size::U64 => 8,
        }
    }

    /// The size selected by the two least significant bits of a power.
    pub open spec fn spec_from_power(power: u8) -> Size {
        if power % 4 == 0 {
            Size::U8
        } else if power % 4 == 1 {
            Size::U16
        } else if power % 4 == 2 {
            Size::U32
        } else {
            Size::U64
        }
    }

    /// Construct this enum from an exponent of the power of 2. Only the two
    /// least significant bits of the power are used; the rest are discarded.
    pub fn from_power(power: u8) -> (r: Self)
        ensures
            r == Size::spec_from_power(power),
    {
        match power % 4 {
            0 => Size::U8,
            1 => Size::U16,
            2 => Size::U32,
            _ => Size::U64,
        }
    }

    /// Convert this enum representation to a power of 2.
    #[verifier::when_used_as_spec(spec_power)]
    pub fn to_power(self) -> (r: u8)
        ensures
            r == self.spec_power(),
    {
        match self {
            Size::U8 => 0,
            Size::U16 => 1,
            Size::U32 => 2,
            Size::U64 => 3,
        }
    }

    /// Get the number of bytes it takes to represent a value of this size.
    #[verifier::when_used_as_spec(spec_size)]
    pub fn size(self) -> (r: u8)
        ensures
            r == self.spec_size(),
    {
        match self {
            Size::U8 => 1,
            Size::U16 => 2,
            Size::U32 => 4,
            Size::U64 => 8,
        }
    }

    /// The size whose byte length is the given number of bytes, if the count
    /// is one of the four supported lengths.
    pub fn from_bytes(bytes: u8) -> (r: Option<Self>)
        ensures
            r == (if bytes == 1 {
                Some(Size::U8)
            } else if bytes == 2 {
                Some(Size::U16)
            } else if bytes == 4 {
                Some(Size::U32)
            } else if bytes == 8 {
                Some(Size::U64)
            } else {
                None::<Size>
            }),
    {
        match bytes {
            1 => Some(Size::U8),
            2 => Some(Size::U16),
            4 => Some(Size::U32),
            8 => Some(Size::U64),
            _ => None,
        }
    }

    /// Create from an exponent of 2. The maximum supported exponent is 3.
    pub fn from_exponent(exponent: u8) -> (r: Option<Self>)
        ensures
            r == (if exponent < 4 {
                Some(Size::spec_from_power(exponent))
            } else {
                None::<Size>
            }),
    {
        if exponent < 4 {
            Some(Size::from_power(exponent))
        } else {
            None
        }
    }

    /// Increase the size to the next quantization, saturating at the top:
    /// a 64-bit size stays 64-bit.
    pub open spec fn spec_upsize(self) -> Size {
        match self {
            Size::U8 => Size::U16,
            Size::U16 => Size::U32,
            Size::U32 => Size::U64,
            Size::U64 => Size::U64,
        }
    }

    /// Attempt to increase the size to the next quantization.
    ///
    /// If this cannot be upsized any more, then self is returned.
    #[verifier::when_used_as_spec(spec_upsize)]
    pub fn upsize(self) -> (r: Self)
        ensures
            r == self.spec_upsize(),
    {
        match self {
            Size::U8 => Size::U16,
            Size::U16 => Size::U32,
            Size::U32 => Size::U64,
            Size::U64 => Size::U64,
        }
    }

    /// Whether upsizing will return a different value.
    pub fn can_upsize(self) -> (r: bool)
        ensures
            r == (self.spec_upsize() != self),
    {
        !matches!(self, Size::U64)
    }

    /// Decrease the size to the next quantization, saturating at the bottom:
    /// an 8-bit size stays 8-bit.
    pub open spec fn spec_downsize(self) -> Size {
        match self {
            Size::U64 => Size::U32,
            Size::U32 => Size::U16,
            Size::U16 => Size::U8,
            Size::U8 => Size::U8,
        }
    }

    /// Attempt to decrease the size to the next quantization.
    ///
    /// If this cannot be downsized any more, then self is returned.
    #[verifier::when_used_as_spec(spec_downsize)]
    pub fn downsize(self) -> (r: Self)
        ensures
            r == self.spec_downsize(),
    {
        match self {
            Size::U64 => Size::U32,
            Size::U32 => Size::U16,
            Size::U16 => Size::U8,
            Size::U8 => Size::U8,
        }
    }

    /// Whether downsizing will return a different value.
    pub fn can_downsize(self) -> (r: bool)
        ensures
            r == (self.spec_downsize() != self),
    {
        !matches!(self, Size::U8)
    }

    /// The largest value representable at this size.
    pub open spec fn spec_mask(self) -> u64 {
        match self {
            Size::U8 => 0xff,
            Size::U16 => 0xffff,
            Size::U32 => 0xffff_ffff,
            Size::U64 => 0xffff_ffff_ffff_ffff,
        }
    }

    /// The mask of the bits a value of this size can occupy, which is also
    /// the largest representable value.
    #[verifier::when_used_as_spec(spec_mask)]
    pub fn mask(self) -> (r: u64)
        ensures
            r == self.spec_mask(),
    {
        match self {
            Size::U8 => 0xff,
            Size::U16 => 0xffff,
            Size::U32 => 0xffff_ffff,
            Size::U64 => 0xffff_ffff_ffff_ffff,
        }
    }

    /// The smallest quantization that can represent the value losslessly.
    pub fn minimum(value: u64) -> (r: Self)
        ensures
            r == (if value > 0xffff_ffff {
                Size::U64
            } else if value > 0xffff {
                Size::U32
            } else if value > 0xff {
                Size::U16
            } else {
                Size::U8
            }),
            value <= r.spec_mask(),
    {
        if value > 0xffff_ffff {
            Size::U64
        } else if value > 0xffff {
            Size::U32
        } else if value > 0xff {
            Size::U16
        } else {
            Size::U8
        }
    }

    /// The smallest quantization that can represent the signed value
    /// losslessly.
    pub fn minimum_signed(value: i64) -> (r: Self)
        ensures
            r == (if value > 0x7fff_ffff || value < -0x8000_0000 {
                Size::U64
            } else if value > 0x7fff || value < -0x8000 {
                Size::U32
            } else if value > 0x7f || value < -0x80 {
                Size::U16
            } else {
                Size::U8
            }),
    {
        if value > 0x7fff_ffff || value < -0x8000_0000 {
            Size::U64
        } else if value > 0x7fff || value < -0x8000 {
            Size::U32
        } else if value > 0x7f || value < -0x80 {
            Size::U16
        } else {
            Size::U8
        }
    }
}

/// An unsigned number tagged with its width quantization.
#[derive(Debug, Clone, Copy, PartialEq, Eq, Structural)]
pub enum Unsigned {
    U8(u8),
    U16(u16),
    U32(u32),
    U64(u64),
}

impl Unsigned {
    /// The quantization this value is stored at.
    pub open spec fn spec_size(self) -> Size {
        match self {
            Unsigned::U8(_) => Size::U8,
            Unsigned::U16(_) => Size::U16,
            Unsigned::U32(_) => Size::U32,
            Unsigned::U64(_) => Size::U64,
        }
    }

    /// The quantization this value is stored at.
    #[verifier::when_used_as_spec(spec_size)]
    pub fn size(self) -> (r: Size)
        ensures
            r == self.spec_size(),
    {
        match self {
            Unsigned::U8(_) => Size::U8,
            Unsigned::U16(_) => Size::U16,
            Unsigned::U32(_) => Size::U32,
            Unsigned::U64(_) => Size::U64,
        }
    }

    /// The numeric value, widened to 64 bits.
    pub open spec fn spec_u64(self) -> u64 {
        match self {
            Unsigned::U8(v) => v as u64,
            Unsigned::U16(v) => v as u64,
            Unsigned::U32(v) => v as u64,
            Unsigned::U64(v) => v,
        }
    }

    /// The numeric value, widened to 64 bits.
    #[verifier::when_used_as_spec(spec_u64)]
    pub fn to_u64(self) -> (r: u64)
        ensures
            r == self.spec_u64(),
    {
        match self {
            Unsigned::U8(v) => v as u64,
            Unsigned::U16(v) => v as u64,
            Unsigned::U32(v) => v as u64,
            Unsigned::U64(v) => v,
        }
    }

    /// The given value requantized to `size`, keeping its low bytes.
    pub open spec fn spec_with_size_u64(size: Size, value: u64) -> Unsigned {
        match size {
            Size::U8 => Unsigned::U8((value % 0x100) as u8),
            Size::U16 => Unsigned::U16((value % 0x1_0000) as u16),
            Size::U32 => Unsigned::U32((value % 0x1_0000_0000) as u32),
            Size::U64 => Unsigned::U64(value),
        }
    }

    /// Requantize a 64-bit value to `size`. Only the low bytes that fit the
    /// requested quantization are kept.
    pub fn with_size_u64(size: Size, value: u64) -> (r: Self)
        ensures
            r == Unsigned::spec_with_size_u64(size, value),
            r.spec_size() == size,
    {
        match size {
            Size::U8 => Unsigned::U8((value % 0x100) as u8),
            Size::U16 => Unsigned::U16((value % 0x1_0000) as u16),
            Size::U32 => Unsigned::U32((value % 0x1_0000_0000) as u32),
            Size::U64 => Unsigned::U64(value),
        }
    }

    /// Requantize a value to `size`. Only the low bytes that fit the
    /// requested quantization are kept.
    pub fn with_size(size: Size, value: Self) -> (r: Self)
        ensures
            r == Unsigned::spec_with_size_u64(size, value.spec_u64()),
            r.spec_size() == size,
    {
        Unsigned::with_size_u64(size, value.to_u64())
    }

    /// Increase the quantization of the number one step, saturating at
    /// 64 bits. The numeric value is unchanged.
    pub fn upsize(self) -> (r: Self)
        ensures
            r.spec_size() == self.spec_size().spec_upsize(),
            r.spec_u64() == self.spec_u64(),
    {
        Unsigned::with_size(self.size().upsize(), self)
    }

    /// Decrease the quantization of the number one step, saturating at
    /// 8 bits. Bytes beyond the new quantization are lost.
    pub fn downsize(self) -> (r: Self)
        ensures
            r == Unsigned::spec_with_size_u64(self.spec_size().spec_downsize(), self.spec_u64()),
            r.spec_size() == self.spec_size().spec_downsize(),
    {
        Unsigned::with_size(self.size().downsize(), self)
    }
}

/// A signed number tagged with its width quantization.
#[derive(Debug, Clone, Copy, PartialEq, Eq, Structural)]
pub enum Signed {
    I8(i8),
    I16(i16),
    I32(i32),
    I64(i64),
}

impl Signed {
    /// The quantization this value is stored at.
    pub open spec fn spec_size(self) -> Size {
        match self {
            Signed::I8(_) => Size::U8,
            Signed::I16(_) => Size::U16,
            Signed::I32(_) => Size::U32,
            Signed::I64(_) => Size::U64,
        }
    }

    /// The quantization this value is stored at.
    #[verifier::when_used_as_spec(spec_size)]
    pub fn size(self) -> (r: Size)
        ensures
            r == self.spec_size(),
    {
        match self {
            Signed::I8(_) => Size::U8,
            Signed::I16(_) => Size::U16,
            Signed::I32(_) => Size::U32,
            Signed::I64(_) => Size::U64,
        }
    }

    /// The same bits read as an unsigned value of the same quantization.
    pub open spec fn spec_unsigned(self) -> Unsigned {
        match self {
            Signed::I8(v) => Unsigned::U8(v as u8),
            Signed::I16(v) => Unsigned::U16(v as u16),
            Signed::I32(v) => Unsigned::U32(v as u32),
            Signed::I64(v) => Unsigned::U64(v as u64),
        }
    }

    /// Reinterpret the bits as an unsigned value of the same quantization.
    #[verifier::when_used_as_spec(spec_unsigned)]
    pub fn to_unsigned(self) -> (r: Unsigned)
        ensures
            r == self.spec_unsigned(),
    {
        match self {
            Signed::I8(v) => Unsigned::U8(v as u8),
            Signed::I16(v) => Unsigned::U16(v as u16),
            Signed::I32(v) => Unsigned::U32(v as u32),
            Signed::I64(v) => Unsigned::U64(v as u64),
        }
    }
}

impl Unsigned {
    /// The same bits read as a signed value of the same quantization.
    pub open spec fn spec_signed(self) -> Signed {
        match self {
            Unsigned::U8(v) => Signed::I8(v as i8),
            Unsigned::U16(v) => Signed::I16(v as i16),
            Unsigned::U32(v) => Signed::I32(v as i32),
            Unsigned::U64(v) => Signed::I64(v as i64),
        }
    }

    /// Reinterpret the bits as a signed value of the same quantization.
    #[verifier::when_used_as_spec(spec_signed)]
    pub fn to_signed(self) -> (r: Signed)
        ensures
            r == self.spec_signed(),
    {
        match self {
            Unsigned::U8(v) => Signed::I8(v as i8),
            Unsigned::U16(v) => Signed::I16(v as i16),
            Unsigned::U32(v) => Signed::I32(v as i32),
            Unsigned::U64(v) => Signed::I64(v as i64),
        }
    }
}

/// Reading an unsigned value as signed and back, or the other way round,
/// returns the starting value: the two reinterpretations are inverses at
/// every quantization.
pub proof fn lemma_signed_unsigned_inverse()
    by (bit_vector)
    ensures
        forall|v: u8| #[trigger] ((v as i8) as u8) == v,
        forall|v: u16| #[trigger] ((v as i16) as u16) == v,
        forall|v: u32| #[trigger] ((v as i32) as u32) == v,
        forall|v: u64| #[trigger] ((v as i64) as u64) == v,
        forall|v: i8| #[trigger] ((v as u8) as i8) == v,
        forall|v: i16| #[trigger] ((v as u16) as i16) == v,
        forall|v: i32| #[trigger] ((v as u32) as i32) == v,
        forall|v: i64| #[trigger] ((v as u64) as i64) == v,
{
}

/// 256 to the power `n`: the number of byte strings of length `n`.
pub open spec fn pow256(n: nat) -> int
    decreases n,
{
    if n == 0 {
        1
    } else {
        0x100 * pow256((n - 1) as nat)
    }
}

/// The little-endian byte string of length `n` holding the low `n` bytes of
/// the non-negative value `v`.
pub open spec fn spec_le_bytes(v: int, n: nat) -> Seq<u8>
    decreases n,
{
    if n == 0 {
        Seq::empty()
    } else {
        seq![(v % 0x100) as u8] + spec_le_bytes(v / 0x100, (n - 1) as nat)
    }
}

/// The non-negative value encoded by the little-endian byte string `s`.
pub open spec fn spec_le_value(s: Seq<u8>) -> int
    decreases s.len(),
{
    if s.len() == 0 {
        0
    } else {
        s[0] + 0x100 * spec_le_value(s.skip(1))
    }
}

/// A little-endian byte string of length `n` always has length `n`.
pub proof fn lemma_le_bytes_len(v: int, n: nat)
    ensures
        spec_le_bytes(v, n).len() == n,
    decreases n,
{
    if n > 0 {
        lemma_le_bytes_len(v / 0x100, (n - 1) as nat);
    }
}

/// 256 to a power never decreases as the power grows.
pub proof fn lemma_pow256_increases(m: nat, n: nat)
    requires
        m <= n,
    ensures
        pow256(m) <= pow256(n),
    decreases n,
{
    if m < n {
        lemma_pow256_increases(m, (n - 1) as nat);
        lemma_pow256_positive((n - 1) as nat);
    }
}

/// The value of a byte string lies below 256 to its length.
pub proof fn lemma_le_value_bound(s: Seq<u8>)
    ensures
        0 <= spec_le_value(s) < pow256(s.len()),
    decreases s.len(),
{
    if s.len() > 0 {
        lemma_le_value_bound(s.skip(1));
    }
}

/// Reading back the little-endian bytes of a non-negative value yields the
/// value reduced modulo 256 to the byte count.
pub proof fn lemma_le_bytes_value(v: int, n: nat)
    requires
        0 <= v,
    ensures
        spec_le_value(spec_le_bytes(v, n)) == v % pow256(n),
    decreases n,
{
    if n == 0 {
        assert(v % 1 == 0) by (nonlinear_arith);
    } else {
        let rest = spec_le_bytes(v / 0x100, (n - 1) as nat);
        lemma_le_bytes_value(v / 0x100, (n - 1) as nat);
        assert((seq![(v % 0x100) as u8] + rest).skip(1) =~= rest);
        let p = pow256((n - 1) as nat);
        assert(p > 0) by { lemma_pow256_positive((n - 1) as nat) };
        vstd::arithmetic::div_mod::lemma_mod_breakdown(v, 0x100, p);
    }
}

/// The powers of 256 up to the eighth, written out.
pub proof fn lemma_pow256_values()
    ensures
        pow256(0) == 1,
        pow256(1) == 0x100,
        pow256(2) == 0x1_0000,
        pow256(3) == 0x100_0000,
        pow256(4) == 0x1_0000_0000,
        pow256(5) == 0x100_0000_0000,
        pow256(6) == 0x1_0000_0000_0000,
        pow256(7) == 0x100_0000_0000_0000,
        pow256(8) == 0x1_0000_0000_0000_0000,
{
    reveal_with_fuel(pow256, 9);
}

/// 256 to any power is positive.
pub proof fn lemma_pow256_positive(n: nat)
    ensures
        pow256(n) > 0,
    decreases n,
{
    if n > 0 {
        lemma_pow256_positive((n - 1) as nat);
    }
}

/// A byte string is exactly the little-endian byte string of its value.
pub proof fn lemma_le_value_bytes(s: Seq<u8>)
    ensures
        spec_le_bytes(spec_le_value(s), s.len()) =~= s,
    decreases s.len(),
{
    if s.len() > 0 {
        let v = spec_le_value(s);
        lemma_le_value_bound(s.skip(1));
        assert(v == s[0] + 0x100 * spec_le_value(s.skip(1)));
        assert(v % 0x100 == s[0] && v / 0x100 == spec_le_value(s.skip(1))) by (nonlinear_arith)
            requires
                v == s[0] + 0x100 * spec_le_value(s.skip(1)),
                0 <= s[0] < 0x100,
                0 <= spec_le_value(s.skip(1)),
        ;
        lemma_le_value_bytes(s.skip(1));
    }
}

/// A byte string of a size's length is recovered exactly from the value it
/// encodes: reading it little-endian and writing the value back at that size
/// reproduces the string.
pub proof fn lemma_le_value_identity(size: Size, s: Seq<u8>)
    requires
        s.len() == size.spec_size(),
    ensures
        Unsigned::spec_with_size_u64(size, spec_le_value(s) as u64).spec_le_bytes() == s,
        Unsigned::spec_with_size_u64(size, spec_le_value(s) as u64).spec_size() == size,
        Unsigned::spec_with_size_u64(size, spec_le_value(s) as u64).spec_u64() == spec_le_value(s),
{
    let n = size.spec_size() as nat;
    let v = spec_le_value(s);
    lemma_le_value_bound(s);
    lemma_pow256_values();
    assert(Unsigned::spec_with_size_u64(size, v as u64).spec_u64() == v) by {
        match size {
            Size::U8 => assert(v as u64 % 0x100 == v),
            Size::U16 => assert(v as u64 % 0x1_0000 == v),
            Size::U32 => assert(v as u64 % 0x1_0000_0000 == v),
            Size::U64 => {},
        }
    };
    lemma_le_value_bytes(s);
}

/// A quantized value is recovered from its own little-endian bytes: reading
/// them back at the value's size returns the value.
pub proof fn lemma_le_bytes_identity(u: Unsigned)
    ensures
        Unsigned::spec_with_size_u64(u.spec_size(), spec_le_value(u.spec_le_bytes()) as u64) == u,
{
    let size = u.spec_size();
    let n = size.spec_size() as nat;
    let v = u.spec_u64();
    lemma_le_bytes_value(v as int, n);
    lemma_pow256_values();
    assert(v as int % pow256(n) == v) by {
        vstd::arithmetic::div_mod::lemma_small_mod(v as nat, pow256(n) as nat);
    };
    assert(spec_le_value(u.spec_le_bytes()) == v);
    assert(Unsigned::spec_with_size_u64(size, v) == u) by {
        match u {
            Unsigned::U8(x) => assert(v % 0x100 == v),
            Unsigned::U16(x) => assert(v % 0x1_0000 == v),
            Unsigned::U32(x) => assert(v % 0x1_0000_0000 == v),
            Unsigned::U64(x) => {},
        }
    };
}

impl Unsigned {
    /// The little-endian byte string of this value at its own quantization.
    pub open spec fn spec_le_bytes(self) -> Seq<u8> {
        spec_le_bytes(self.spec_u64() as int, self.spec_size().spec_size() as nat)
    }

    /// The value held by a little-endian byte string, tagged with the size
    /// whose byte length the string has. The value's bytes are exactly the
    /// given ones.
    pub fn from_le_bytes(size: Size, bytes: &Vec<u8>) -> (r: Self)
        requires
            bytes@.len() == size.spec_size(),
        ensures
            r.spec_size() == size,
            r.spec_u64() == spec_le_value(bytes@),
            r.spec_le_bytes() == bytes@,
    {
        let n: u8 = size.size();
        let mut value: u64 = 0;
        let mut j: u8 = 0;
        while j < n
            invariant
                0 <= j <= n,
                n == size.spec_size(),
                bytes@.len() == n,
                value == spec_le_value(bytes@.subrange(n - j, n as int)),
                value < pow256(j as nat),
            decreases n - j,
        {
            let b = bytes[(n - 1 - j) as usize];
            proof {
                let tail = bytes@.subrange(n - j, n as int);
                let longer = bytes@.subrange(n - j - 1, n as int);
                assert(longer =~= seq![bytes@[n - j - 1]] + tail);
                assert(longer.skip(1) =~= tail);
                lemma_le_value_bound(longer);
                lemma_pow256_positive(j as nat);
                assert(pow256((j + 1) as nat) == 0x100 * pow256(j as nat));
                lemma_pow256_values();
                assert(pow256((j + 1) as nat) <= pow256(8)) by {
                    lemma_pow256_increases((j + 1) as nat, 8);
                };
            }
            value = value * 0x100 + (b as u64);
            j = j + 1;
        }
        proof {
            assert(bytes@.subrange(0, n as int) =~= bytes@);
            lemma_le_value_bound(bytes@);
            lemma_pow256_values();
            let v = spec_le_value(bytes@);
            assert(Unsigned::spec_with_size_u64(size, v as u64).spec_u64() == v) by {
                vstd::arithmetic::div_mod::lemma_small_mod(v as nat, pow256(n as nat) as nat);
                match size {
                    Size::U8 => assert(v as u64 % 0x100 == v),
                    Size::U16 => assert(v as u64 % 0x1_0000 == v),
                    Size::U32 => assert(v as u64 % 0x1_0000_0000 == v),
                    Size::U64 => {},
                }
            };
            lemma_le_value_bytes(bytes@);
        }
        Unsigned::with_size_u64(size, value)
    }

    /// The little-endian bytes of this value: one, two, four or eight of
    /// them, as its quantization dictates.
    pub fn to_le_bytes(self) -> (r: Vec<u8>)
        ensures
            r@ == self.spec_le_bytes(),
            r@.len() == self.spec_size().spec_size(),
    {
        let n: u8 = self.size().size();
        let v: u64 = self.to_u64();
        let mut bytes: Vec<u8> = Vec::new();
        let mut i: u8 = 0;
        let mut rest: u64 = v;
        while i < n
            invariant
                0 <= i <= n,
                bytes@.len() == i,
                spec_le_bytes(v as int, n as nat) =~= bytes@ + spec_le_bytes(
                    rest as int,
                    (n - i) as nat,
                ),
            decreases n - i,
        {
            bytes.push((rest % 0x100) as u8);
            rest = rest / 0x100;
            i = i + 1;
        }
        proof {
            lemma_le_bytes_len(v as int, n as nat);
            assert(bytes@ =~= spec_le_bytes(v as int, n as nat));
        }
        bytes
    }
}

} // verus!
