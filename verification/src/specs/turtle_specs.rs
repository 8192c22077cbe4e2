use vstd::prelude::*;

use crate::helper::chars_of_str;
use crate::reader::input_reader::{spec_digit, InputReaderHelper};
use crate::specs::xml_specs::{spec_xml_type_str, XmlDataTypes};
use crate::uri::Uri;

verus! {

/// All characters of the sequence are decimal digits.
pub open spec fn spec_all_digits(s: Seq<char>) -> bool {
    forall|i: int| 0 <= i < s.len() ==> spec_digit(#[trigger] s[i])
}

/// The sequence with one leading sign character removed, if there is one.
pub open spec fn strip_sign(s: Seq<char>) -> Seq<char> {
    if s.len() > 0 && (s[0] == '+' || s[0] == '-') {
        s.skip(1)
    } else {
        s
    }
}

/// Whether the sequence carries a leading minus sign.
pub open spec fn has_minus_sign(s: Seq<char>) -> bool {
    s.len() > 0 && s[0] == '-'
}

/// The numeric value of a sequence of decimal digits.
pub open spec fn dec_value(s: Seq<char>) -> int
    decreases s.len(),
{
    if s.len() == 0 {
        0
    } else {
        dec_value(s.drop_last()) * 10 + (s.last() as u32 - 48)
    }
}

pub proof fn lemma_dec_value_nonneg(s: Seq<char>)
    requires
        spec_all_digits(s),
    ensures
        dec_value(s) >= 0,
    decreases s.len(),
{
    if s.len() > 0 {
        assert(spec_all_digits(s.drop_last()));
        lemma_dec_value_nonneg(s.drop_last());
        assert(spec_digit(s.last()));
    }
}

pub proof fn lemma_dec_value_monotone(s: Seq<char>, m: int)
    requires
        spec_all_digits(s),
        0 <= m <= s.len(),
    ensures
        dec_value(s) >= dec_value(s.take(m)),
    decreases s.len() - m,
{
    if m < s.len() {
        assert(s.take(m + 1).drop_last() =~= s.take(m));
        assert(s.take(m + 1).last() == s[m]);
        assert(spec_all_digits(s.take(m)));
        lemma_dec_value_nonneg(s.take(m));
        assert(dec_value(s.take(m + 1)) >= dec_value(s.take(m)));
        lemma_dec_value_monotone(s, m + 1);
    } else {
        assert(s.take(m) =~= s);
    }
}

/// Number of leading digit characters.
pub open spec fn digits_prefix_len(s: Seq<char>) -> nat
    decreases s.len(),
{
    if s.len() == 0 {
        0
    } else if spec_digit(s[0]) {
        1 + digits_prefix_len(s.skip(1))
    } else {
        0
    }
}

pub proof fn lemma_digits_prefix_len(s: Seq<char>)
    ensures
        digits_prefix_len(s) <= s.len(),
        forall|i: int| 0 <= i < digits_prefix_len(s) ==> spec_digit(#[trigger] s[i]),
        digits_prefix_len(s) < s.len() ==> !spec_digit(s[digits_prefix_len(s) as int]),
    decreases s.len(),
{
    if s.len() == 0 {
    } else if spec_digit(s[0]) {
        lemma_digits_prefix_len(s.skip(1));
        assert forall|i: int| 0 <= i < digits_prefix_len(s) implies spec_digit(
            #[trigger] s[i],
        ) by {
            if i > 0 {
                assert(s[i] == s.skip(1)[i - 1]);
            }
        }
        if digits_prefix_len(s) < s.len() {
            assert(s[digits_prefix_len(s) as int] == s.skip(1)[digits_prefix_len(
                s.skip(1),
            ) as int]);
        }
    } else {
    }
}

/// Index of the first exponent marker (`e` or `E`), or the length of the
/// sequence if there is none.
pub open spec fn exp_marker_idx(s: Seq<char>) -> nat
    decreases s.len(),
{
    if s.len() == 0 {
        0
    } else if s[0] == 'e' || s[0] == 'E' {
        0
    } else {
        1 + exp_marker_idx(s.skip(1))
    }
}

pub proof fn lemma_exp_marker_idx(s: Seq<char>)
    ensures
        exp_marker_idx(s) <= s.len(),
        forall|i: int| 0 <= i < exp_marker_idx(s) ==> !((#[trigger] s[i]) == 'e' || s[i] == 'E'),
        exp_marker_idx(s) < s.len() ==> (s[exp_marker_idx(s) as int] == 'e' || s[exp_marker_idx(
            s,
        ) as int] == 'E'),
    decreases s.len(),
{
    if s.len() == 0 {
    } else if s[0] == 'e' || s[0] == 'E' {
    } else {
        lemma_exp_marker_idx(s.skip(1));
        assert forall|i: int| 0 <= i < exp_marker_idx(s) implies !((#[trigger] s[i]) == 'e'
            || s[i] == 'E') by {
            if i > 0 {
                assert(s[i] == s.skip(1)[i - 1]);
            }
        }
        if exp_marker_idx(s) < s.len() {
            assert(s[exp_marker_idx(s) as int] == s.skip(1)[exp_marker_idx(s.skip(1)) as int]);
        }
    }
}

/// A mantissa: a run of digits, optionally split once by a decimal point,
/// with at least one digit in all.
pub open spec fn spec_is_mantissa(m: Seq<char>) -> bool {
    let k = digits_prefix_len(m);
    if k == m.len() {
        k > 0
    } else if m[k as int] == '.' {
        spec_all_digits(m.skip(k + 1 as int)) && (k > 0 || m.len() - k - 1 > 0)
    } else {
        false
    }
}

/// An exponent: an optional sign followed by at least one digit.
pub open spec fn spec_is_exponent(x: Seq<char>) -> bool {
    strip_sign(x).len() > 0 && spec_all_digits(strip_sign(x))
}

/// A double literal: an optional sign, a mantissa, and an optional exponent
/// introduced by `e` or `E`. Only these digit-built forms count as numeric
/// literals; the words for infinities and for the not-a-number value do
/// not.
pub open spec fn spec_is_double_literal(s: Seq<char>) -> bool {
    let b = strip_sign(s);
    let e = exp_marker_idx(b);
    if e == b.len() {
        spec_is_mantissa(b)
    } else {
        spec_is_mantissa(b.take(e as int)) && spec_is_exponent(b.skip(e + 1 as int))
    }
}

/// An integer literal: an optional sign and at least one digit, within the
/// range of 64-bit signed integers.
pub open spec fn spec_is_integer_literal(s: Seq<char>) -> bool {
    let ds = strip_sign(s);
    ds.len() > 0 && spec_all_digits(ds) && (if has_minus_sign(s) {
        dec_value(ds) <= 0x8000_0000_0000_0000
    } else {
        dec_value(ds) <= 0x7fff_ffff_ffff_ffff
    })
}

/// A boolean literal: exactly `true` or `false`.
pub open spec fn spec_is_boolean_literal(s: Seq<char>) -> bool {
    s == "true"@ || s == "false"@
}

/// A plain literal: a number or boolean whose data type lets it stand
/// unquoted in Turtle.
pub open spec fn spec_is_plain_literal(lit: Seq<char>, data_type: Option<Seq<char>>) -> bool {
    ||| (spec_is_double_literal(lit) && data_type == Some(spec_xml_type_str(XmlDataTypes::Decimal)))
    ||| (spec_is_boolean_literal(lit) && data_type == Some(
        spec_xml_type_str(XmlDataTypes::Boolean),
    ))
    ||| (spec_is_integer_literal(lit) && (data_type == Some(
        spec_xml_type_str(XmlDataTypes::Integer),
    ) || data_type == Some(spec_xml_type_str(XmlDataTypes::UnsignedLong)) || data_type == Some(
        spec_xml_type_str(XmlDataTypes::Long),
    )))
}

/// Contains checks for validating Turtle syntax.
pub struct TurtleSpecs {}

impl TurtleSpecs {
    /// Checks that every character in the given range is a decimal digit.
    #[verifier::loop_isolation(false)]
    fn all_digits_range(cs: &Vec<char>, start: usize, end: usize) -> (r: bool)
        requires
            start <= end <= cs@.len(),
        ensures
            r == spec_all_digits(cs@.subrange(start as int, end as int)),
    {
        let ghost m = cs@.subrange(start as int, end as int);
        let mut i: usize = start;
        while i < end
            invariant
                start <= i <= end,
                forall|q: int| 0 <= q < i - start ==> spec_digit(#[trigger] m[q]),
            decreases end - i,
        {
            if !InputReaderHelper::digit(cs[i]) {
                proof {
                    assert(m[i - start] == cs@[i as int]);
                }
                return false;
            }
            proof {
                assert(m[i - start] == cs@[i as int]);
            }
            i = i + 1;
        }
        true
    }

    /// Checks that the given range is a mantissa.
    #[verifier::loop_isolation(false)]
    fn is_mantissa_range(cs: &Vec<char>, start: usize, end: usize) -> (r: bool)
        requires
            start <= end <= cs@.len(),
        ensures
            r == spec_is_mantissa(cs@.subrange(start as int, end as int)),
    {
        let ghost m = cs@.subrange(start as int, end as int);
        proof {
            lemma_digits_prefix_len(m);
        }
        let ghost k = digits_prefix_len(m);
        let mut i: usize = start;
        while i < end && InputReaderHelper::digit(cs[i])
            invariant
                start <= i <= end,
                i - start <= k,
                forall|q: int| 0 <= q < i - start ==> spec_digit(#[trigger] m[q]),
            decreases end - i,
        {
            proof {
                assert(m[i - start] == cs@[i as int]);
            }
            i = i + 1;
        }
        proof {
            assert(i - start == k) by {
                if i < end {
                    assert(m[i - start] == cs@[i as int]);
                    assert(!spec_digit(m[i - start]));
                }
            }
        }
        if i == end {
            i > start
        } else if cs[i] == '.' {
            proof {
                assert(m[k as int] == cs@[i as int]);
            }
            let rest_ok = TurtleSpecs::all_digits_range(cs, i + 1, end);
            proof {
                assert(cs@.subrange(i + 1 as int, end as int) =~= m.skip(k + 1 as int));
            }
            rest_ok && (i > start || end - i - 1 > 0)
        } else {
            proof {
                assert(m[k as int] == cs@[i as int]);
            }
            false
        }
    }

    /// Checks that the given range is an exponent.
    fn is_exponent_range(cs: &Vec<char>, start: usize, end: usize) -> (r: bool)
        requires
            start <= end <= cs@.len(),
        ensures
            r == spec_is_exponent(cs@.subrange(start as int, end as int)),
    {
        let ghost x = cs@.subrange(start as int, end as int);
        let ds_start: usize = if start < end && (cs[start] == '+' || cs[start] == '-') {
            start + 1
        } else {
            start
        };
        proof {
            assert(cs@.subrange(ds_start as int, end as int) =~= strip_sign(x));
        }
        let r = ds_start < end && TurtleSpecs::all_digits_range(cs, ds_start, end);
        r
    }

    /// Checks if the provided literal is a double.
    #[verifier::loop_isolation(false)]
    pub fn is_double_literal(literal: &str) -> (r: bool)
        ensures
            r == spec_is_double_literal(literal@),
    {
        let cs = chars_of_str(literal);
        let ghost b = strip_sign(literal@);
        let b_start: usize = if cs.len() > 0 && (cs[0] == '+' || cs[0] == '-') {
            1
        } else {
            0
        };
        proof {
            assert(cs@.subrange(b_start as int, cs@.len() as int) =~= b);
            lemma_exp_marker_idx(b);
        }
        let ghost e = exp_marker_idx(b);
        let mut i: usize = b_start;
        while i < cs.len() && !(cs[i] == 'e' || cs[i] == 'E')
            invariant
                b_start <= i <= cs@.len(),
                b == cs@.subrange(b_start as int, cs@.len() as int),
                i - b_start <= e,
                forall|q: int| 0 <= q < i - b_start ==> !((#[trigger] b[q]) == 'e' || b[q]
                    == 'E'),
            decreases cs@.len() - i,
        {
            proof {
                assert(b[i - b_start] == cs@[i as int]);
            }
            i = i + 1;
        }
        proof {
            assert(i - b_start == e) by {
                if i < cs@.len() {
                    assert(b[i - b_start] == cs@[i as int]);
                }
            }
        }
        if i == cs.len() {
            let r = TurtleSpecs::is_mantissa_range(&cs, b_start, i);
            proof {
                assert(cs@.subrange(b_start as int, i as int) =~= b);
            }
            r
        } else {
            let m_ok = TurtleSpecs::is_mantissa_range(&cs, b_start, i);
            let x_ok = TurtleSpecs::is_exponent_range(&cs, i + 1, cs.len());
            proof {
                assert(cs@.subrange(b_start as int, i as int) =~= b.take(e as int));
                assert(cs@.subrange(i + 1 as int, cs@.len() as int) =~= b.skip(e + 1 as int));
            }
            m_ok && x_ok
        }
    }

    /// Checks if the provided literal is an integer.
    #[verifier::loop_isolation(false)]
    pub fn is_integer_literal(literal: &str) -> (r: bool)
        ensures
            r == spec_is_integer_literal(literal@),
    {
        let cs = chars_of_str(literal);
        let neg: bool = cs.len() > 0 && cs[0] == '-';
        let ds_start: usize = if cs.len() > 0 && (cs[0] == '+' || cs[0] == '-') {
            1
        } else {
            0
        };
        let ghost ds = strip_sign(literal@);
        proof {
            assert(cs@.subrange(ds_start as int, cs@.len() as int) =~= ds);
        }
        if ds_start == cs.len() {
            return false;
        }
        let limit: u64 = if neg {
            0x8000_0000_0000_0000
        } else {
            0x7fff_ffff_ffff_ffff
        };
        let mut acc: u64 = 0;
        let mut i: usize = ds_start;
        while i < cs.len()
            invariant
                ds_start <= i <= cs@.len(),
                ds == cs@.subrange(ds_start as int, cs@.len() as int),
                forall|q: int| 0 <= q < i - ds_start ==> spec_digit(#[trigger] ds[q]),
                acc == dec_value(ds.take(i - ds_start)),
                acc <= limit,
            decreases cs@.len() - i,
        {
            let c = cs[i];
            proof {
                assert(ds[i - ds_start] == cs@[i as int]);
            }
            if !InputReaderHelper::digit(c) {
                return false;
            }
            let d: u64 = ((c as u32) - 48) as u64;
            proof {
                assert(ds.take(i - ds_start + 1).drop_last() =~= ds.take(i - ds_start));
                assert(ds.take(i - ds_start + 1).last() == ds[i - ds_start]);
            }
            if acc > (limit - d) / 10 {
                proof {
                    assert(acc * 10 + d > limit) by {
                        assert(acc >= (limit - d) / 10 + 1);
                        assert(((limit - d) / 10 + 1) * 10 == ((limit - d) / 10) * 10 + 10)
                            by (nonlinear_arith);
                        assert(acc * 10 >= ((limit - d) / 10 + 1) * 10) by (nonlinear_arith)
                            requires
                                acc >= (limit - d) / 10 + 1,
                        ;
                        assert(((limit - d) / 10) * 10 + (limit - d) % 10 == limit - d);
                    }
                    assert(dec_value(ds.take(i - ds_start + 1)) > limit);
                    if spec_all_digits(ds) {
                        lemma_dec_value_monotone(ds, i - ds_start + 1);
                        assert(dec_value(ds) > limit);
                    }
                }
                return false;
            }
            proof {
                assert(acc * 10 + d <= limit) by {
                    assert(acc * 10 <= ((limit - d) / 10) * 10) by (nonlinear_arith)
                        requires
                            acc <= (limit - d) / 10,
                    ;
                    assert(((limit - d) / 10) * 10 + (limit - d) % 10 == limit - d);
                }
            }
            acc = acc * 10 + d;
            i = i + 1;
        }
        proof {
            assert(ds.take(ds.len() as int) =~= ds);
        }
        true
    }

    /// Checks if the provided literal is a boolean.
    pub fn is_boolean_literal(literal: &str) -> (r: bool)
        ensures
            r == spec_is_boolean_literal(literal@),
    {
        let owned = literal.to_owned();
        owned == String::from_str("true") || owned == String::from_str("false")
    }

    /// Checks if the provided literal is a plain literal that corresponds to
    /// the provided data type.
    pub fn is_plain_literal(literal: &str, data_type: &Option<Uri>) -> (r: bool)
        ensures
            r == spec_is_plain_literal(
                literal@,
                match data_type {
                    Some(dt) => Some(dt@),
                    None => None,
                },
            ),
    {
        if TurtleSpecs::is_double_literal(literal) {
            match data_type {
                Some(dt) => {
                    if *dt == XmlDataTypes::Decimal.to_uri() {
                        return true;
                    }
                },
                None => {},
            }
        }
        if TurtleSpecs::is_boolean_literal(literal) {
            match data_type {
                Some(dt) => {
                    if *dt == XmlDataTypes::Boolean.to_uri() {
                        return true;
                    }
                },
                None => {},
            }
        }
        if TurtleSpecs::is_integer_literal(literal) {
            match data_type {
                Some(dt) => {
                    if *dt == XmlDataTypes::Integer.to_uri() || *dt
                        == XmlDataTypes::UnsignedLong.to_uri() || *dt
                        == XmlDataTypes::Long.to_uri() {
                        return true;
                    }
                },
                None => {},
            }
        }
        false
    }
}

} // verus!
