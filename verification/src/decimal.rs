//! Decimal columns: 128-bit integers read with a fixed number of digits
//! behind the point.

use crate::error::{PolarsError, PolarsResult};
use vstd::prelude::*;

verus! {

/// A named column of nullable 128-bit integers.
pub struct Int128Chunked {
    pub name: String,
    pub values: Vec<Option<i128>>,
}

/// The type of a decimal column: how many digits its values have at most,
/// if that is limited, and how many of them stand behind the point.
#[derive(Clone, Copy, Debug, PartialEq, Eq, Structural)]
pub struct DecimalType {
    pub precision: Option<usize>,
    pub scale: Option<usize>,
}

/// A column of decimals: the digits of each value as an integer, and the
/// number of digits behind the point.
pub struct DecimalChunked {
    physical: Int128Chunked,
    precision: Option<usize>,
    scale: usize,
}

/// One cell of a decimal column.
#[derive(Clone, Copy, Debug, PartialEq, Eq, Structural)]
pub enum DecimalValue {
    Null,
    /// The digits and the number of them behind the point.
    Decimal(i128, usize),
}

/// Ten to the power of `p`.
pub open spec fn pow10(p: nat) -> int
    decreases p,
{
    if p == 0 {
        1
    } else {
        10 * pow10((p - 1) as nat)
    }
}

/// Whether a number has at most `p` digits.
pub open spec fn has_digits(v: int, p: nat) -> bool {
    -pow10(p) < v < pow10(p)
}

/// Whether every value of the column has at most `p` digits.
pub open spec fn all_have_digits(values: Seq<Option<i128>>, p: nat) -> bool {
    forall|i: int|
        0 <= i < values.len() ==> match #[trigger] values[i] {
            Some(v) => has_digits(v as int, p),
            None => true,
        }
}

/// Powers of ten grow with the exponent.
pub proof fn lemma_pow10_grows(p: nat, q: nat)
    requires
        p <= q,
    ensures
        1 <= pow10(p) <= pow10(q),
    decreases q,
{
    if p < q {
        lemma_pow10_grows(p, (q - 1) as nat);
    } else if p > 0 {
        lemma_pow10_grows((p - 1) as nat, (q - 1) as nat);
    }
}

/// The 38th power of ten is within the 128-bit integers, the 39th is
/// beyond them.
pub proof fn lemma_pow10(p: nat)
    ensures
        pow10(p) >= 1,
        p >= 39 ==> pow10(p) > 0x8000_0000_0000_0000_0000_0000_0000_0000,
        p <= 38 ==> pow10(p) <= 100_000_000_000_000_000_000_000_000_000_000_000_000,
{
    assert(pow10(0) == 1);
    assert(pow10(1) == 10);
    assert(pow10(2) == 100);
    assert(pow10(3) == 1_000);
    assert(pow10(4) == 10_000);
    assert(pow10(5) == 100_000);
    assert(pow10(6) == 1_000_000);
    assert(pow10(7) == 10_000_000);
    assert(pow10(8) == 100_000_000);
    assert(pow10(9) == 1_000_000_000);
    assert(pow10(10) == 10_000_000_000);
    assert(pow10(11) == 100_000_000_000);
    assert(pow10(12) == 1_000_000_000_000);
    assert(pow10(13) == 10_000_000_000_000);
    assert(pow10(14) == 100_000_000_000_000);
    assert(pow10(15) == 1_000_000_000_000_000);
    assert(pow10(16) == 10_000_000_000_000_000);
    assert(pow10(17) == 100_000_000_000_000_000);
    assert(pow10(18) == 1_000_000_000_000_000_000);
    assert(pow10(19) == 10_000_000_000_000_000_000);
    assert(pow10(20) == 100_000_000_000_000_000_000);
    assert(pow10(21) == 1_000_000_000_000_000_000_000);
    assert(pow10(22) == 10_000_000_000_000_000_000_000);
    assert(pow10(23) == 100_000_000_000_000_000_000_000);
    assert(pow10(24) == 1_000_000_000_000_000_000_000_000);
    assert(pow10(25) == 10_000_000_000_000_000_000_000_000);
    assert(pow10(26) == 100_000_000_000_000_000_000_000_000);
    assert(pow10(27) == 1_000_000_000_000_000_000_000_000_000);
    assert(pow10(28) == 10_000_000_000_000_000_000_000_000_000);
    assert(pow10(29) == 100_000_000_000_000_000_000_000_000_000);
    assert(pow10(30) == 1_000_000_000_000_000_000_000_000_000_000);
    assert(pow10(31) == 10_000_000_000_000_000_000_000_000_000_000);
    assert(pow10(32) == 100_000_000_000_000_000_000_000_000_000_000);
    assert(pow10(33) == 1_000_000_000_000_000_000_000_000_000_000_000);
    assert(pow10(34) == 10_000_000_000_000_000_000_000_000_000_000_000);
    assert(pow10(35) == 100_000_000_000_000_000_000_000_000_000_000_000);
    assert(pow10(36) == 1_000_000_000_000_000_000_000_000_000_000_000_000);
    assert(pow10(37) == 10_000_000_000_000_000_000_000_000_000_000_000_000);
    assert(pow10(38) == 100_000_000_000_000_000_000_000_000_000_000_000_000);
    assert(pow10(39) == 1_000_000_000_000_000_000_000_000_000_000_000_000_000);
    if p >= 39 {
        lemma_pow10_grows(39, p);
    } else {
        lemma_pow10_grows(p, 38);
    }
}

/// Ten to the power of `p`, for a `p` whose power fits.
pub fn power_of_ten(p: usize) -> (r: i128)
    requires
        p <= 38,
    ensures
        r == pow10(p as nat),
{
    let mut r: i128 = 1;
    let mut i: usize = 0;
    while i < p
        invariant
            i <= p <= 38,
            r == pow10(i as nat),
        decreases p - i,
    {
        proof {
            lemma_pow10((i + 1) as nat);
        }
        r = r * 10;
        i += 1;
    }
    r
}

/// The model of a column of 128-bit integers.
pub struct Int128View {
    pub name: Seq<char>,
    pub values: Seq<Option<i128>>,
}

/// The model of a column of decimals.
pub struct DecimalView {
    pub name: Seq<char>,
    pub precision: Option<usize>,
    pub scale: usize,
    pub values: Seq<Option<i128>>,
}

impl Int128View {
    /// The column read as decimals.
    pub open spec fn as_decimal(self, precision: Option<usize>, scale: usize) -> DecimalView {
        DecimalView { name: self.name, precision, scale, values: self.values }
    }
}

impl View for Int128Chunked {
    type V = Int128View;

    open spec fn view(&self) -> Int128View {
        Int128View { name: self.name@, values: self.values@ }
    }
}

impl View for DecimalChunked {
    type V = DecimalView;

    closed spec fn view(&self) -> DecimalView {
        DecimalView {
            name: self.physical.name@,
            precision: self.precision,
            scale: self.scale,
            values: self.physical.values@,
        }
    }
}

impl Int128Chunked {
    pub fn new(name: &str, values: Vec<Option<i128>>) -> (r: Int128Chunked)
        ensures
            r@ == (Int128View { name: name@, values: values@ }),
    {
        Int128Chunked { name: name.to_owned(), values }
    }

    /// The column read as decimals, whatever digits its values have.
    pub fn into_decimal_unchecked(self, precision: Option<usize>, scale: usize) -> (r:
        DecimalChunked)
        ensures
            r@ == self@.as_decimal(precision, scale),
    {
        DecimalChunked { physical: self, precision, scale }
    }

    /// The column read as decimals; `ComputeError` where a precision is
    /// given and a value has more digits.
    pub fn into_decimal(self, precision: Option<usize>, scale: usize) -> (r: PolarsResult<
        DecimalChunked,
    >)
        ensures
            match r {
                Ok(d) => d@ == self@.as_decimal(precision, scale) && match precision {
                    Some(p) => all_have_digits(self@.values, p as nat),
                    None => true,
                },
                Err(e) => e == PolarsError::ComputeError && match precision {
                    Some(p) => !all_have_digits(self@.values, p as nat),
                    None => false,
                },
            },
    {
        match precision {
            Some(p) => {
                if p <= 38 {
                    let prec_max = power_of_ten(p);
                    let mut i: usize = 0;
                    while i < self.values.len()
                        invariant
                            i <= self.values.len(),
                            p <= 38,
                            precision == Some(p),
                            prec_max == pow10(p as nat),
                            forall|j: int|
                                0 <= j < i ==> match #[trigger] self@.values[j] {
                                    Some(v) => has_digits(v as int, p as nat),
                                    None => true,
                                },
                        decreases self.values.len() - i,
                    {
                        match self.values[i] {
                            Some(v) => {
                                if v >= prec_max || v <= -prec_max {
                                    assert(!has_digits(v as int, p as nat));
                                    assert(self@.values[i as int] == Some(v));
                                    return Err(PolarsError::ComputeError);
                                }
                            },
                            None => {},
                        }
                        i += 1;
                    }
                } else {
                    proof {
                        lemma_pow10(p as nat);
                    }
                }
            },
            None => {},
        }
        Ok(self.into_decimal_unchecked(precision, scale))
    }
}

/// What converting a decimal column to a decimal type gives: the same
/// column under the new type where the scale is given and the same, and
/// the precision is not narrowed.
pub open spec fn can_cast(precision: Option<usize>, scale: usize, to: DecimalType) -> Result<
    (),
    PolarsError,
> {
    match to.scale {
        None => Err(PolarsError::ComputeError),
        Some(scale_dst) => {
            let widens = match (precision, to.precision) {
                (Some(src), Some(dst)) => dst >= src,
                (_, None) => true,
                _ => false,
            };
            if scale == scale_dst && widens {
                Ok(())
            } else {
                Err(PolarsError::InvalidOperation)
            }
        },
    }
}

impl DecimalChunked {
    /// The type of the column.
    pub fn dtype(&self) -> (r: DecimalType)
        ensures
            r == (DecimalType { precision: self@.precision, scale: Some(self@.scale) }),
    {
        DecimalType { precision: self.precision, scale: Some(self.scale) }
    }

    /// How many digits the values have at most, if that is limited.
    pub fn precision(&self) -> (r: Option<usize>)
        ensures
            r == self@.precision,
    {
        self.precision
    }

    /// How many digits stand behind the point.
    pub fn scale(&self) -> (r: usize)
        ensures
            r == self@.scale,
    {
        self.scale
    }

    /// The number of rows.
    pub fn len(&self) -> (r: usize)
        ensures
            r == self@.values.len(),
    {
        self.physical.values.len()
    }

    /// The cell of row `i`; `OutOfBounds` where the row is not there.
    pub fn get_any_value(&self, i: usize) -> (r: PolarsResult<DecimalValue>)
        ensures
            match r {
                Ok(v) => i < self@.values.len() && v == match self@.values[i as int] {
                    Some(d) => DecimalValue::Decimal(d, self@.scale),
                    None => DecimalValue::Null,
                },
                Err(e) => i >= self@.values.len() && e == PolarsError::OutOfBounds,
            },
    {
        if i < self.len() {
            Ok(self.get_any_value_unchecked(i))
        } else {
            Err(PolarsError::OutOfBounds)
        }
    }

    /// The cell of row `i`, which is there.
    pub fn get_any_value_unchecked(&self, i: usize) -> (r: DecimalValue)
        requires
            i < self@.values.len(),
        ensures
            r == match self@.values[i as int] {
                Some(d) => DecimalValue::Decimal(d, self@.scale),
                None => DecimalValue::Null,
            },
    {
        match self.physical.values[i] {
            Some(v) => DecimalValue::Decimal(v, self.scale),
            None => DecimalValue::Null,
        }
    }

    /// The column under another decimal type.  Only the precision can
    /// change, and only to a wider one or to none.
    pub fn cast(&self, dtype: &DecimalType) -> (r: PolarsResult<DecimalChunked>)
        ensures
            match r {
                Ok(d) => can_cast(self@.precision, self@.scale, *dtype) is Ok && d@
                    == (DecimalView {
                    name: self@.name,
                    precision: dtype.precision,
                    scale: self@.scale,
                    values: self@.values,
                }),
                Err(e) => can_cast(self@.precision, self@.scale, *dtype) == Err::<
                    (),
                    PolarsError,
                >(e),
            },
    {
        let scale_dst = match dtype.scale {
            Some(s) => s,
            None => {
                return Err(PolarsError::ComputeError);
            },
        };
        let is_widen = match (self.precision, dtype.precision) {
            (Some(prec_src), Some(prec_dst)) => prec_dst >= prec_src,
            (_, None) => true,
            _ => false,
        };
        if self.scale == scale_dst && is_widen {
            let mut values: Vec<Option<i128>> = Vec::with_capacity(self.physical.values.len());
            let mut i: usize = 0;
            while i < self.physical.values.len()
                invariant
                    i <= self.physical.values.len(),
                    values.len() == i,
                    forall|j: int| 0 <= j < i ==> values[j] == self.physical.values[j],
                decreases self.physical.values.len() - i,
            {
                values.push(self.physical.values[i]);
                i += 1;
            }
            assert(values@ =~= self.physical.values@);
            return Ok(
                DecimalChunked {
                    physical: Int128Chunked { name: self.physical.name.clone(), values },
                    precision: dtype.precision,
                    scale: self.scale,
                },
            );
        }
        Err(PolarsError::InvalidOperation)
    }
}

} // verus!
