//! Pixel-grid and physical quantities.
//!
//! A physical length is a signed fixed-point number of millimetres with 52
//! fractional bits (the `fixed` crate's `I12F52`), held here as its raw bits.
use fixed::types::I12F52;
use fixed::ParseFixedError;
use std::str::FromStr;
use vstd::prelude::*;

verus! {

/// One millimetre, as fixed-point bits.
pub const ONE_MM_BITS: i64 = 4503599627370496;

/// Millimetres per inch (25.4, rounded to the nearest representable value), as
/// fixed-point bits.
pub const MM_PER_IN_BITS: i64 = 114391430535210598;

/// The scale of the fixed-point representation: 2^52.
pub open spec fn frac_scale() -> int {
    4503599627370496
}

/// What `I12F52`'s multiplication yields on two raw values: the exact product
/// rounded toward negative infinity.
pub open spec fn fixed_product(a: int, b: int) -> int {
    (a * b) / frac_scale()
}

pub open spec fn fits_i64(v: int) -> bool {
    i64::MIN <= v <= i64::MAX
}

/// The value, in fixed-point bits, that `I12F52`'s decimal parser gives a
/// string, or `None` where it refuses the string.
pub uninterp spec fn decimal_bits(s: Seq<char>) -> Option<i64>;

/// The decimal text that `I12F52`'s `Display` gives a value.
pub uninterp spec fn fixed_text(bits: i64) -> Seq<char>;

#[verifier::external_type_specification]
#[verifier::external_body]
pub struct ExParseFixedError(ParseFixedError);

/// Relies on `I12F52::from_num` and `I12F52`'s `Mul`: an integer below 2048
/// converts exactly, and the product of two values is the wide product shifted
/// back by the fractional bits, so `a * n` comes back unchanged when it fits.
#[verifier::external_body]
fn scale_bits(a: i64, n: u32) -> (r: i64)
    requires
        n < 2048,
        fits_i64(a * n),
    ensures
        r == a * n,
{
    (I12F52::from_bits(a) * I12F52::from_num(n)).to_bits()
}

/// Relies on `I12F52::checked_mul`: the wide product shifted right by the
/// fractional bits, or `None` where that does not fit.
#[verifier::external_body]
fn checked_mul_bits(a: i64, b: i64) -> (r: Option<i64>)
    ensures
        r is Some <==> fits_i64(fixed_product(a as int, b as int)),
        r is Some ==> r->0 == fixed_product(a as int, b as int),
{
    I12F52::from_bits(a).checked_mul(I12F52::from_bits(b)).map(|v| v.to_bits())
}

/// Relies on `I12F52::from_str`, the crate's decimal parser.
#[verifier::external_body]
fn parse_decimal_bits(s: &str) -> (r: Result<i64, ParseFixedError>)
    ensures
        r is Ok <==> decimal_bits(s@) is Some,
        r is Ok ==> decimal_bits(s@) == Some(r->Ok_0),
{
    I12F52::from_str(s).map(|v| v.to_bits())
}

/// Relies on `I12F52`'s `Display`.
#[verifier::external_body]
fn fixed_to_string(bits: i64) -> (r: String)
    ensures
        r@ == fixed_text(bits),
{
    I12F52::from_bits(bits).to_string()
}

/// A physical length in millimetres, as fixed-point bits.
#[derive(Clone, Copy, Debug, PartialEq, Eq, Structural)]
pub struct KicadDim(pub i64);

impl View for KicadDim {
    type V = int;

    /// The length in units of 2^-52 mm.
    open spec fn view(&self) -> int {
        self.0 as int
    }
}

/// Why a length could not be read from text.
#[derive(Debug)]
pub enum ParseKicadDimError {
    /// The text ends neither in `mm` nor in `in`.
    InvalidSuffix,
    /// The number before the unit is not a decimal that `I12F52` reads.
    InvalidNumber(ParseFixedError),
    /// A length in inches whose value in millimetres is out of range.
    OutOfRange,
}

pub open spec fn ends_with(s: Seq<char>, suffix: Seq<char>) -> bool {
    s.len() >= suffix.len() && s.subrange(s.len() - suffix.len(), s.len() as int) == suffix
}

pub open spec fn without_unit(s: Seq<char>) -> Seq<char> {
    s.subrange(0, s.len() - 2)
}

fn has_unit(s: &str, a: char, b: char) -> (r: bool)
    ensures
        r == ends_with(s@, seq![a, b]),
{
    let n = s.unicode_len();
    if n < 2 {
        return false;
    }
    let r = s.get_char(n - 2) == a && s.get_char(n - 1) == b;
    assert(r == (s@.subrange(n - 2, n as int) =~= seq![a, b]));
    r
}

impl KicadDim {
    /// Reads a length written as a decimal followed by `mm` or `in`; inches
    /// are converted to millimetres.
    pub fn parse(s: &str) -> (r: Result<KicadDim, ParseKicadDimError>)
        ensures
            ends_with(s@, seq!['m', 'm']) ==> match decimal_bits(without_unit(s@)) {
                Some(b) => r == Ok::<KicadDim, ParseKicadDimError>(KicadDim(b)),
                None => r matches Err(ParseKicadDimError::InvalidNumber(_)),
            },
            !ends_with(s@, seq!['m', 'm']) && ends_with(s@, seq!['i', 'n']) ==> match decimal_bits(
                without_unit(s@),
            ) {
                Some(b) => if fits_i64(fixed_product(b as int, MM_PER_IN_BITS as int)) {
                    r matches Ok(d) && d@ == fixed_product(b as int, MM_PER_IN_BITS as int)
                } else {
                    r matches Err(ParseKicadDimError::OutOfRange)
                },
                None => r matches Err(ParseKicadDimError::InvalidNumber(_)),
            },
            !ends_with(s@, seq!['m', 'm']) && !ends_with(s@, seq!['i', 'n']) ==> r matches Err(
                ParseKicadDimError::InvalidSuffix,
            ),
    {
        if has_unit(s, 'm', 'm') {
            let n = s.unicode_len();
            match parse_decimal_bits(s.substring_char(0, n - 2)) {
                Ok(b) => Ok(KicadDim(b)),
                Err(e) => Err(ParseKicadDimError::InvalidNumber(e)),
            }
        } else if has_unit(s, 'i', 'n') {
            let n = s.unicode_len();
            match parse_decimal_bits(s.substring_char(0, n - 2)) {
                Ok(b) => match checked_mul_bits(b, MM_PER_IN_BITS) {
                    Some(v) => Ok(KicadDim(v)),
                    None => Err(ParseKicadDimError::OutOfRange),
                },
                Err(e) => Err(ParseKicadDimError::InvalidNumber(e)),
            }
        } else {
            Err(ParseKicadDimError::InvalidSuffix)
        }
    }

    /// This length times a whole number of pixels.
    pub fn mul(self, rhs: PixelDim) -> (r: KicadDim)
        requires
            rhs.0 < 2048,
            fits_i64(self@ * rhs.0),
        ensures
            r@ == self@ * rhs.0,
    {
        KicadDim(scale_bits(self.0, rhs.0))
    }

    /// The sum of two lengths.
    pub fn add(self, rhs: KicadDim) -> (r: KicadDim)
        requires
            fits_i64(self@ + rhs@),
        ensures
            r@ == self@ + rhs@,
    {
        KicadDim(self.0 + rhs.0)
    }

    /// The difference of two lengths.
    pub fn sub(self, rhs: KicadDim) -> (r: KicadDim)
        requires
            fits_i64(self@ - rhs@),
        ensures
            r@ == self@ - rhs@,
    {
        KicadDim(self.0 - rhs.0)
    }

    /// The length with its sign flipped.
    pub fn neg(self) -> (r: KicadDim)
        requires
            self.0 != i64::MIN,
        ensures
            r@ == -self@,
    {
        KicadDim(-self.0)
    }

    /// The decimal text of the length in millimetres, without a unit.
    pub fn to_text(&self) -> (r: String)
        ensures
            r@ == fixed_text(self.0),
    {
        fixed_to_string(self.0)
    }
}

impl FromStr for KicadDim {
    type Err = ParseKicadDimError;

    fn from_str(s: &str) -> Result<KicadDim, ParseKicadDimError> {
        KicadDim::parse(s)
    }
}

/// A position in the footprint, in millimetres; right and down are positive.
#[derive(Clone, Copy, Debug, PartialEq, Eq, Structural)]
pub struct KicadPos {
    pub x: KicadDim,
    pub y: KicadDim,
}

impl View for KicadPos {
    type V = (int, int);

    open spec fn view(&self) -> (int, int) {
        (self.x@, self.y@)
    }
}

impl KicadPos {
    /// Scales each coordinate by the matching pixel count.
    pub fn mul(self, rhs: PixelPos) -> (r: KicadPos)
        requires
            rhs.x.0 < 2048,
            rhs.y.0 < 2048,
            fits_i64(self.x@ * rhs.x.0),
            fits_i64(self.y@ * rhs.y.0),
        ensures
            r@ == (self.x@ * rhs.x.0, self.y@ * rhs.y.0),
    {
        KicadPos { x: self.x.mul(rhs.x), y: self.y.mul(rhs.y) }
    }
}

/// A pixel index along one axis.
#[derive(Clone, Copy, Debug, PartialEq, Eq, Structural)]
pub struct PixelDim(pub u32);

impl PixelDim {
    /// The distance between two indices.
    pub fn abs_diff(self, other: PixelDim) -> (r: PixelDim)
        ensures
            r.0 == if self.0 >= other.0 { self.0 - other.0 } else { other.0 - self.0 },
    {
        if self.0 >= other.0 {
            PixelDim(self.0 - other.0)
        } else {
            PixelDim(other.0 - self.0)
        }
    }
}

/// A pixel position; right and down are positive.
#[derive(Clone, Copy, Debug, PartialEq, Eq, Structural)]
pub struct PixelPos {
    pub x: PixelDim,
    pub y: PixelDim,
}

impl PixelPos {
    /// The componentwise sum of two positions.
    pub fn add(self, rhs: PixelPos) -> (r: PixelPos)
        requires
            self.x.0 + rhs.x.0 <= u32::MAX,
            self.y.0 + rhs.y.0 <= u32::MAX,
        ensures
            r.x.0 == self.x.0 + rhs.x.0,
            r.y.0 == self.y.0 + rhs.y.0,
    {
        PixelPos { x: PixelDim(self.x.0 + rhs.x.0), y: PixelDim(self.y.0 + rhs.y.0) }
    }
}

} // verus!
