//! The runtime number type: a signed fixed-point decimal with six fraction
//! digits, together with signed infinities and a not-a-number value, so that
//! arithmetic is total (division by zero yields an infinity or NaN, never an
//! error).

use vstd::prelude::*;

verus! {

/// Scaling factor: a finite number with magnitude `mag` has the value
/// `mag / SCALE`, so six decimal fraction digits are kept exactly.
pub const SCALE: u64 = 1000000;

/// A runtime number. `Finite { neg, mag }` is the value `(-1)^neg * mag / SCALE`;
/// `Infinite { neg }` is a signed infinity; `Nan` is not-a-number.
#[derive(Debug, Clone, Copy, PartialEq, Eq, Structural)]
pub enum Number {
    Finite { neg: bool, mag: u64 },
    Infinite { neg: bool },
    Nan,
}

impl Number {
    /// A well-formed number never carries a negative zero: the zero magnitude
    /// is always stored with a positive sign.
    pub open spec fn wf(self) -> bool {
        match self {
            Number::Finite { neg, mag } => neg ==> mag > 0,
            _ => true,
        }
    }

    /// The signed scaled value of a finite number, as a mathematical integer.
    pub open spec fn as_int(self) -> int
        recommends
            self is Finite,
    {
        match self {
            Number::Finite { neg, mag } => if neg {
                -(mag as int)
            } else {
                mag as int
            },
            _ => 0,
        }
    }

    /// The finite number of a signed scaled integer value; values whose
    /// magnitude does not fit a `u64` overflow to the infinity of that sign.
    pub open spec fn from_int(v: int) -> Number {
        if v > u64::MAX {
            Number::Infinite { neg: false }
        } else if v < -(u64::MAX as int) {
            Number::Infinite { neg: true }
        } else if v < 0 {
            Number::Finite { neg: true, mag: (-v) as u64 }
        } else {
            Number::Finite { neg: false, mag: v as u64 }
        }
    }

    /// The whole number `n`, scaled.
    pub open spec fn spec_from_u64(n: u64) -> Number {
        Number::from_int(n * SCALE)
    }

    /// The whole number `n` as a runtime number; overflows to infinity when
    /// `n * SCALE` does not fit the magnitude.
    pub fn from_u64(n: u64) -> (r: Number)
        ensures
            r == Number::spec_from_u64(n),
            r.wf(),
    {
        match n.checked_mul(SCALE) {
            Some(mag) => Number::Finite { neg: false, mag },
            None => {
                proof {
                    assert(n * SCALE > u64::MAX);
                }
                Number::Infinite { neg: false }
            },
        }
    }

    /// Arithmetic negation: flips the sign of a finite value or an infinity;
    /// NaN stays NaN, and zero keeps its positive sign.
    pub open spec fn spec_neg(self) -> Number {
        match self {
            Number::Finite { neg, mag } => if mag == 0 {
                Number::Finite { neg: false, mag: 0 }
            } else {
                Number::Finite { neg: !neg, mag }
            },
            Number::Infinite { neg } => Number::Infinite { neg: !neg },
            Number::Nan => Number::Nan,
        }
    }

    pub fn neg(self) -> (r: Number)
        ensures
            r == self.spec_neg(),
            r.wf(),
    {
        match self {
            Number::Finite { neg, mag } => if mag == 0 {
                Number::Finite { neg: false, mag: 0 }
            } else {
                Number::Finite { neg: !neg, mag }
            },
            Number::Infinite { neg } => Number::Infinite { neg: !neg },
            Number::Nan => Number::Nan,
        }
    }

    /// Addition. NaN propagates; opposite infinities give NaN; an infinity
    /// absorbs a finite value; finite values add exactly, overflowing to the
    /// infinity of the sum's sign.
    pub open spec fn spec_add(self, o: Number) -> Number {
        match (self, o) {
            (Number::Nan, _) => Number::Nan,
            (_, Number::Nan) => Number::Nan,
            (Number::Infinite { neg: n1 }, Number::Infinite { neg: n2 }) => if n1 == n2 {
                Number::Infinite { neg: n1 }
            } else {
                Number::Nan
            },
            (Number::Infinite { neg }, _) => Number::Infinite { neg },
            (_, Number::Infinite { neg }) => Number::Infinite { neg },
            (a, b) => Number::from_int(a.as_int() + b.as_int()),
        }
    }

    pub fn add(self, o: Number) -> (r: Number)
        ensures
            r == self.spec_add(o),
            r.wf(),
    {
        match (self, o) {
            (Number::Nan, _) => Number::Nan,
            (_, Number::Nan) => Number::Nan,
            (Number::Infinite { neg: n1 }, Number::Infinite { neg: n2 }) => if n1 == n2 {
                Number::Infinite { neg: n1 }
            } else {
                Number::Nan
            },
            (Number::Infinite { neg }, _) => Number::Infinite { neg },
            (_, Number::Infinite { neg }) => Number::Infinite { neg },
            (
                Number::Finite { neg: n1, mag: m1 },
                Number::Finite { neg: n2, mag: m2 },
            ) => if n1 == n2 {
                match m1.checked_add(m2) {
                    Some(m) => if m == 0 {
                        Number::Finite { neg: false, mag: 0 }
                    } else {
                        Number::Finite { neg: n1, mag: m }
                    },
                    None => Number::Infinite { neg: n1 },
                }
            } else if m1 == m2 {
                Number::Finite { neg: false, mag: 0 }
            } else if m1 > m2 {
                Number::Finite { neg: n1, mag: m1 - m2 }
            } else {
                Number::Finite { neg: n2, mag: m2 - m1 }
            },
        }
    }

    /// Subtraction: adding the negation.
    pub open spec fn spec_sub(self, o: Number) -> Number {
        self.spec_add(o.spec_neg())
    }

    pub fn sub(self, o: Number) -> (r: Number)
        ensures
            r == self.spec_sub(o),
            r.wf(),
    {
        self.add(o.neg())
    }

    /// Multiplication. NaN propagates; an infinity times zero is NaN, times
    /// anything else an infinity of the product's sign; finite magnitudes
    /// multiply and rescale with truncation, overflowing to infinity.
    pub open spec fn spec_mul(self, o: Number) -> Number {
        match (self, o) {
            (Number::Nan, _) => Number::Nan,
            (_, Number::Nan) => Number::Nan,
            (Number::Infinite { neg: n1 }, Number::Infinite { neg: n2 }) => Number::Infinite {
                neg: n1 != n2,
            },
            (Number::Infinite { neg: n1 }, Number::Finite { neg: n2, mag: m2 }) => if m2 == 0 {
                Number::Nan
            } else {
                Number::Infinite { neg: n1 != n2 }
            },
            (Number::Finite { neg: n1, mag: m1 }, Number::Infinite { neg: n2 }) => if m1 == 0 {
                Number::Nan
            } else {
                Number::Infinite { neg: n1 != n2 }
            },
            (
                Number::Finite { neg: n1, mag: m1 },
                Number::Finite { neg: n2, mag: m2 },
            ) => Number::from_mag(n1 != n2, (m1 * m2) / (SCALE as int)),
        }
    }

    /// The number of sign `neg` and unbounded magnitude `m`, normalized and
    /// clamped to infinity when the magnitude does not fit.
    pub open spec fn from_mag(neg: bool, m: int) -> Number
        recommends
            m >= 0,
    {
        if m > u64::MAX {
            Number::Infinite { neg }
        } else if m <= 0 {
            Number::Finite { neg: false, mag: 0 }
        } else {
            Number::Finite { neg, mag: m as u64 }
        }
    }

    pub fn mul(self, o: Number) -> (r: Number)
        ensures
            r == self.spec_mul(o),
            r.wf(),
    {
        match (self, o) {
            (Number::Nan, _) => Number::Nan,
            (_, Number::Nan) => Number::Nan,
            (Number::Infinite { neg: n1 }, Number::Infinite { neg: n2 }) => Number::Infinite {
                neg: n1 != n2,
            },
            (Number::Infinite { neg: n1 }, Number::Finite { neg: n2, mag: m2 }) => if m2 == 0 {
                Number::Nan
            } else {
                Number::Infinite { neg: n1 != n2 }
            },
            (Number::Finite { neg: n1, mag: m1 }, Number::Infinite { neg: n2 }) => if m1 == 0 {
                Number::Nan
            } else {
                Number::Infinite { neg: n1 != n2 }
            },
            (
                Number::Finite { neg: n1, mag: m1 },
                Number::Finite { neg: n2, mag: m2 },
            ) => {
                proof {
                    assert((m1 as u128) * (m2 as u128) <= (u64::MAX as u128) * (u64::MAX as u128))
                        by (nonlinear_arith)
                        requires
                            m1 <= u64::MAX,
                            m2 <= u64::MAX,
                    ;
                }
                let p: u128 = (m1 as u128) * (m2 as u128);
                let q: u128 = p / (SCALE as u128);
                if q > u64::MAX as u128 {
                    Number::Infinite { neg: n1 != n2 }
                } else if q == 0 {
                    Number::Finite { neg: false, mag: 0 }
                } else {
                    Number::Finite { neg: n1 != n2, mag: q as u64 }
                }
            },
        }
    }

    /// Division. NaN propagates; infinity over infinity and zero over zero
    /// are NaN; a finite value over an infinity is zero; division by zero
    /// gives an infinity; finite magnitudes rescale and divide with
    /// truncation, overflowing to infinity.
    pub open spec fn spec_div(self, o: Number) -> Number {
        match (self, o) {
            (Number::Nan, _) => Number::Nan,
            (_, Number::Nan) => Number::Nan,
            (Number::Infinite { neg: n1 }, Number::Infinite { neg: n2 }) => Number::Nan,
            (Number::Infinite { neg: n1 }, Number::Finite { neg: n2, mag: m2 }) => Number::Infinite {
                neg: n1 != n2,
            },
            (Number::Finite { neg: n1, mag: m1 }, Number::Infinite { neg: n2 }) => Number::Finite {
                neg: false,
                mag: 0,
            },
            (
                Number::Finite { neg: n1, mag: m1 },
                Number::Finite { neg: n2, mag: m2 },
            ) => if m2 == 0 {
                if m1 == 0 {
                    Number::Nan
                } else {
                    Number::Infinite { neg: n1 != n2 }
                }
            } else {
                Number::from_mag(n1 != n2, (m1 * SCALE) / (m2 as int))
            },
        }
    }

    pub fn div(self, o: Number) -> (r: Number)
        ensures
            r == self.spec_div(o),
            r.wf(),
    {
        match (self, o) {
            (Number::Nan, _) => Number::Nan,
            (_, Number::Nan) => Number::Nan,
            (Number::Infinite { neg: n1 }, Number::Infinite { neg: n2 }) => Number::Nan,
            (Number::Infinite { neg: n1 }, Number::Finite { neg: n2, mag: m2 }) => Number::Infinite {
                neg: n1 != n2,
            },
            (Number::Finite { neg: n1, mag: m1 }, Number::Infinite { neg: n2 }) => Number::Finite {
                neg: false,
                mag: 0,
            },
            (
                Number::Finite { neg: n1, mag: m1 },
                Number::Finite { neg: n2, mag: m2 },
            ) => {
                if m2 == 0 {
                    if m1 == 0 {
                        Number::Nan
                    } else {
                        Number::Infinite { neg: n1 != n2 }
                    }
                } else {
                    proof {
                        assert((m1 as u128) * (SCALE as u128) <= (u64::MAX as u128) * (SCALE
                            as u128)) by (nonlinear_arith)
                            requires
                                m1 <= u64::MAX,
                        ;
                    }
                    let p: u128 = (m1 as u128) * (SCALE as u128);
                    let q: u128 = p / (m2 as u128);
                    if q > u64::MAX as u128 {
                        Number::Infinite { neg: n1 != n2 }
                    } else if q == 0 {
                        Number::Finite { neg: false, mag: 0 }
                    } else {
                        Number::Finite { neg: n1 != n2, mag: q as u64 }
                    }
                }
            },
        }
    }

    /// Numeric equality: NaN equals nothing, not even itself; infinities are
    /// equal when their signs agree; finite values compare by signed value.
    pub open spec fn spec_eq_num(self, o: Number) -> bool {
        match (self, o) {
            (Number::Nan, _) => false,
            (_, Number::Nan) => false,
            (Number::Infinite { neg: n1 }, Number::Infinite { neg: n2 }) => n1 == n2,
            (Number::Finite { .. }, Number::Finite { .. }) => self.as_int() == o.as_int(),
            _ => false,
        }
    }

    pub fn eq_num(self, o: Number) -> (r: bool)
        ensures
            r == self.spec_eq_num(o),
    {
        match (self, o) {
            (Number::Infinite { neg: n1 }, Number::Infinite { neg: n2 }) => n1 == n2,
            (
                Number::Finite { neg: n1, mag: m1 },
                Number::Finite { neg: n2, mag: m2 },
            ) => m1 == m2 && (n1 == n2 || m1 == 0),
            _ => false,
        }
    }

    /// Strict numeric order: false whenever NaN is involved; a negative
    /// infinity is below everything else, a positive one above; finite
    /// values compare by signed value.
    pub open spec fn spec_lt(self, o: Number) -> bool {
        match (self, o) {
            (Number::Nan, _) => false,
            (_, Number::Nan) => false,
            (Number::Infinite { neg: n1 }, Number::Infinite { neg: n2 }) => n1 && !n2,
            (Number::Infinite { neg: n1 }, Number::Finite { .. }) => n1,
            (Number::Finite { .. }, Number::Infinite { neg: n2 }) => !n2,
            (Number::Finite { .. }, Number::Finite { .. }) => self.as_int() < o.as_int(),
        }
    }

    pub fn lt(self, o: Number) -> (r: bool)
        ensures
            r == self.spec_lt(o),
    {
        match (self, o) {
            (Number::Nan, _) => false,
            (_, Number::Nan) => false,
            (Number::Infinite { neg: n1 }, Number::Infinite { neg: n2 }) => n1 && !n2,
            (Number::Infinite { neg: n1 }, Number::Finite { .. }) => n1,
            (Number::Finite { .. }, Number::Infinite { neg: n2 }) => !n2,
            (
                Number::Finite { neg: n1, mag: m1 },
                Number::Finite { neg: n2, mag: m2 },
            ) => if n1 && !n2 {
                !(m1 == 0 && m2 == 0)
            } else if !n1 && n2 {
                false
            } else if n1 && n2 {
                m1 > m2
            } else {
                m1 < m2
            },
        }
    }

    /// Non-strict numeric order: strict order or numeric equality.
    pub open spec fn spec_le(self, o: Number) -> bool {
        self.spec_lt(o) || self.spec_eq_num(o)
    }

    pub fn le(self, o: Number) -> (r: bool)
        ensures
            r == self.spec_le(o),
    {
        self.lt(o) || self.eq_num(o)
    }

    pub fn gt(self, o: Number) -> (r: bool)
        ensures
            r == o.spec_lt(self),
    {
        o.lt(self)
    }

    pub fn ge(self, o: Number) -> (r: bool)
        ensures
            r == o.spec_le(self),
    {
        o.le(self)
    }

    /// The display text of a number: `NaN`, a signed `inf`, or the sign, the
    /// whole part, and — when the fraction is not zero — a dot and the
    /// fraction digits with trailing zeros removed.
    pub open spec fn spec_text(self) -> Seq<char> {
        match self {
            Number::Nan => seq!['N', 'a', 'N'],
            Number::Infinite { neg } => if neg {
                seq!['-', 'i', 'n', 'f']
            } else {
                seq!['i', 'n', 'f']
            },
            Number::Finite { neg, mag } => {
                let sign = if neg {
                    seq!['-']
                } else {
                    Seq::<char>::empty()
                };
                let whole = dec_str((mag / SCALE) as nat);
                let frac = (mag % SCALE) as nat;
                if frac == 0 {
                    sign + whole
                } else {
                    sign + whole + seq!['.'] + dec_fixed(strip_mag(frac, 6), strip_len(frac, 6))
                }
            },
        }
    }

    /// Renders the number as its display text.
    pub fn to_text(&self) -> (s: String)
        ensures
            s@ == self.spec_text(),
    {
        match self {
            Number::Nan => {
                let s = String::from_str("NaN");
                proof {
                    reveal_strlit("NaN");
                    assert(s@ =~= seq!['N', 'a', 'N']);
                }
                s
            },
            Number::Infinite { neg } => {
                if *neg {
                    let s = String::from_str("-inf");
                    proof {
                        reveal_strlit("-inf");
                        assert(s@ =~= seq!['-', 'i', 'n', 'f']);
                    }
                    s
                } else {
                    let s = String::from_str("inf");
                    proof {
                        reveal_strlit("inf");
                        assert(s@ =~= seq!['i', 'n', 'f']);
                    }
                    s
                }
            },
            Number::Finite { neg, mag } => {
                let mut s = if *neg {
                    let t = String::from_str("-");
                    proof {
                        reveal_strlit("-");
                        assert(t@ =~= seq!['-']);
                    }
                    t
                } else {
                    let t = String::new();
                    proof {
                        assert(t@ =~= Seq::<char>::empty());
                    }
                    t
                };
                let whole = dec_string(*mag / SCALE);
                s.append(whole.as_str());
                let frac = *mag % SCALE;
                if frac != 0 {
                    let dot = String::from_str(".");
                    proof {
                        reveal_strlit(".");
                        assert(dot@ =~= seq!['.']);
                    }
                    s.append(dot.as_str());
                    let mut r: u64 = frac;
                    let mut k: u64 = 6;
                    while r % 10 == 0 && k > 0
                        invariant
                            strip_mag(frac as nat, 6) == strip_mag(r as nat, k as nat),
                            strip_len(frac as nat, 6) == strip_len(r as nat, k as nat),
                        decreases k,
                    {
                        r = r / 10;
                        k = k - 1;
                    }
                    let fs = fixed_string(r, k);
                    s.append(fs.as_str());
                }
                proof {
                    assert(s@ =~= self.spec_text());
                }
                s
            },
        }
    }
}

/// The decimal digit character of `d` (for `0 <= d <= 9`).
pub open spec fn digit_char(d: nat) -> char {
    if d == 0 {
        '0'
    } else if d == 1 {
        '1'
    } else if d == 2 {
        '2'
    } else if d == 3 {
        '3'
    } else if d == 4 {
        '4'
    } else if d == 5 {
        '5'
    } else if d == 6 {
        '6'
    } else if d == 7 {
        '7'
    } else if d == 8 {
        '8'
    } else {
        '9'
    }
}

/// The decimal text of `n`, without leading zeros (a lone `0` for zero).
pub open spec fn dec_str(n: nat) -> Seq<char>
    decreases n,
{
    if n < 10 {
        seq![digit_char(n)]
    } else {
        dec_str(n / 10) + seq![digit_char(n % 10)]
    }
}

/// The decimal text of `n` written with exactly `k` digits, leading zeros kept.
pub open spec fn dec_fixed(n: nat, k: nat) -> Seq<char>
    decreases k,
{
    if k == 0 {
        Seq::<char>::empty()
    } else {
        dec_fixed(n / 10, (k - 1) as nat) + seq![digit_char(n % 10)]
    }
}

/// The value left after removing the trailing decimal zeros of a `k`-digit
/// fraction.
pub open spec fn strip_mag(r: nat, k: nat) -> nat
    decreases k,
{
    if k == 0 || r % 10 != 0 {
        r
    } else {
        strip_mag(r / 10, (k - 1) as nat)
    }
}

/// The number of digits left after removing the trailing decimal zeros of a
/// `k`-digit fraction.
pub open spec fn strip_len(r: nat, k: nat) -> nat
    decreases k,
{
    if k == 0 || r % 10 != 0 {
        k
    } else {
        strip_len(r / 10, (k - 1) as nat)
    }
}

/// The single-character text of one decimal digit.
fn digit_string(d: u64) -> (r: &'static str)
    requires
        d <= 9,
    ensures
        r@ == seq![digit_char(d as nat)],
{
    if d == 0 {
        proof {
            reveal_strlit("0");
            assert("0"@ =~= seq!['0']);
        }
        "0"
    } else if d == 1 {
        proof {
            reveal_strlit("1");
            assert("1"@ =~= seq!['1']);
        }
        "1"
    } else if d == 2 {
        proof {
            reveal_strlit("2");
            assert("2"@ =~= seq!['2']);
        }
        "2"
    } else if d == 3 {
        proof {
            reveal_strlit("3");
            assert("3"@ =~= seq!['3']);
        }
        "3"
    } else if d == 4 {
        proof {
            reveal_strlit("4");
            assert("4"@ =~= seq!['4']);
        }
        "4"
    } else if d == 5 {
        proof {
            reveal_strlit("5");
            assert("5"@ =~= seq!['5']);
        }
        "5"
    } else if d == 6 {
        proof {
            reveal_strlit("6");
            assert("6"@ =~= seq!['6']);
        }
        "6"
    } else if d == 7 {
        proof {
            reveal_strlit("7");
            assert("7"@ =~= seq!['7']);
        }
        "7"
    } else if d == 8 {
        proof {
            reveal_strlit("8");
            assert("8"@ =~= seq!['8']);
        }
        "8"
    } else {
        proof {
            reveal_strlit("9");
            assert("9"@ =~= seq!['9']);
        }
        "9"
    }
}

/// The decimal text of `n`.
pub fn dec_string(n: u64) -> (s: String)
    ensures
        s@ == dec_str(n as nat),
    decreases n,
{
    if n < 10 {
        String::from_str(digit_string(n))
    } else {
        let mut s = dec_string(n / 10);
        s.append(digit_string(n % 10));
        s
    }
}

/// The decimal text of `n` with exactly `k` digits.
fn fixed_string(n: u64, k: u64) -> (s: String)
    ensures
        s@ == dec_fixed(n as nat, k as nat),
    decreases k,
{
    if k == 0 {
        String::new()
    } else {
        let mut s = fixed_string(n / 10, k - 1);
        s.append(digit_string(n % 10));
        s
    }
}

} // verus!
