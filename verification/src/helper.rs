use vstd::prelude::*;

verus! {

/// The character sequence that a sequence of optional characters spells:
/// the present characters in order, the absent entries dropped.
pub open spec fn flatten_chars(s: Seq<Option<char>>) -> Seq<char>
    decreases s.len(),
{
    if s.len() == 0 {
        Seq::empty()
    } else {
        match s[0] {
            Some(c) => seq![c] + flatten_chars(s.skip(1)),
            None => flatten_chars(s.skip(1)),
        }
    }
}

pub proof fn lemma_flatten_chars_push(s: Seq<Option<char>>, oc: Option<char>)
    ensures
        flatten_chars(s.push(oc)) == match oc {
            Some(c) => flatten_chars(s).push(c),
            None => flatten_chars(s),
        },
    decreases s.len(),
{
    let t = s.push(oc);
    if s.len() == 0 {
        assert(t[0] == oc);
        assert(t.skip(1) =~= Seq::<Option<char>>::empty());
        assert(flatten_chars(t.skip(1)) == Seq::<char>::empty());
        match oc {
            Some(c) => {
                assert(flatten_chars(t) == seq![c] + Seq::<char>::empty());
                assert(seq![c] + Seq::<char>::empty() =~= flatten_chars(s).push(c));
            },
            None => {
                assert(flatten_chars(t) == Seq::<char>::empty());
            },
        }
    } else {
        assert(t[0] == s[0]);
        assert(t.skip(1) =~= s.skip(1).push(oc));
        lemma_flatten_chars_push(s.skip(1), oc);
        match s[0] {
            Some(c0) => {
                assert(flatten_chars(t) == seq![c0] + flatten_chars(s.skip(1).push(oc)));
                assert(flatten_chars(s) == seq![c0] + flatten_chars(s.skip(1)));
                match oc {
                    Some(c) => {
                        assert(seq![c0] + flatten_chars(s.skip(1)).push(c) =~= (seq![c0]
                            + flatten_chars(s.skip(1))).push(c));
                    },
                    None => {
                    },
                }
            },
            None => {
                assert(flatten_chars(t) == flatten_chars(s.skip(1).push(oc)));
                assert(flatten_chars(s) == flatten_chars(s.skip(1)));
            },
        }
    }
}

/// Appends one character to a string.
///
/// Relies on String::push from std: it appends the given character to the
/// end of the string.
#[verifier::external_body]
pub fn push_char(s: &mut String, c: char)
    ensures
        final(s)@ == old(s)@.push(c),
{
    s.push(c);
}

/// The character with the given Unicode scalar value.
///
/// Relies on char::from_u32 from std: it returns the character for every
/// value that is a Unicode scalar, that is, every value up to 0x10FFFF and
/// outside the surrogate range.
#[verifier::external_body]
pub fn char_of_scalar(v: u32) -> (r: char)
    requires
        vstd::utf8::is_scalar(v),
    ensures
        r as u32 == v,
{
    match char::from_u32(v) {
        Some(c) => c,
        None => ' ',
    }
}

/// Builds a string out of the present characters of a sequence of optional
/// characters, in order.
pub fn string_from_opt_chars(v: &Vec<Option<char>>) -> (r: String)
    ensures
        r@ == flatten_chars(v@),
{
    let mut r = String::new();
    let mut i: usize = 0;
    while i < v.len()
        invariant
            i <= v.len(),
            r@ == flatten_chars(v@.take(i as int)),
        decreases v.len() - i,
    {
        proof {
            lemma_flatten_chars_push(v@.take(i as int), v@[i as int]);
            assert(v@.take(i as int).push(v@[i as int]) =~= v@.take(i as int + 1));
        }
        match v[i] {
            Some(c) => {
                push_char(&mut r, c);
            },
            None => {
            },
        }
        i = i + 1;
    }
    proof {
        assert(v@.take(v@.len() as int) =~= v@);
    }
    r
}

/// Builds a string out of a vector of characters.
pub fn string_from_chars(v: &Vec<char>) -> (r: String)
    ensures
        r@ == v@,
{
    let mut r = String::new();
    let mut i: usize = 0;
    while i < v.len()
        invariant
            i <= v.len(),
            r@ == v@.take(i as int),
        decreases v.len() - i,
    {
        proof {
            assert(v@.take(i as int).push(v@[i as int]) =~= v@.take(i as int + 1));
        }
        push_char(&mut r, v[i]);
        i = i + 1;
    }
    proof {
        assert(v@.take(v@.len() as int) =~= v@);
    }
    r
}

/// Collects the characters of a string slice into a vector.
pub fn chars_of_str(s: &str) -> (r: Vec<char>)
    ensures
        r@ == s@,
{
    let n = s.unicode_len();
    let mut r: Vec<char> = Vec::new();
    let mut i: usize = 0;
    while i < n
        invariant
            i <= n,
            n == s@.len(),
            r@ == s@.take(i as int),
        decreases n - i,
    {
        proof {
            assert(s@.take(i as int).push(s@[i as int]) =~= s@.take(i as int + 1));
        }
        r.push(s.get_char(i));
        i = i + 1;
    }
    proof {
        assert(s@.take(s@.len() as int) =~= s@);
    }
    r
}

/// One step of filtering a growing prefix: filtering `i + 1` elements is
/// filtering `i` elements, plus the element at `i` when it satisfies the
/// predicate.
pub proof fn lemma_filter_step<A>(s: Seq<A>, pred: spec_fn(A) -> bool, i: int)
    requires
        0 <= i < s.len(),
    ensures
        s.take(i + 1).filter(pred) == if pred(s[i]) {
            s.take(i).filter(pred).push(s[i])
        } else {
            s.take(i).filter(pred)
        },
{
    reveal(Seq::filter);
    assert(s.take(i + 1).drop_last() =~= s.take(i));
    assert(s.take(i + 1).last() == s[i]);
}

/// Mapping a view over a pushed sequence distributes over the push.
pub proof fn lemma_map_values_push<A, B>(s: Seq<A>, f: spec_fn(A) -> B, x: A)
    ensures
        s.push(x).map_values(f) == s.map_values(f).push(f(x)),
{
    assert(s.push(x).map_values(f) =~= s.map_values(f).push(f(x)));
}

/// The decimal digit character for a value below ten.
pub open spec fn dec_digit(d: nat) -> char {
    if d == 0 {
        '0'
    } else if d == 1 {
        '1'
    } else if d == 2 {
        '2'
    } else if d == 3 {
        '3'
    } else if d == 4 {
        '4'
    } else if d == 5 {
        '5'
    } else if d == 6 {
        '6'
    } else if d == 7 {
        '7'
    } else if d == 8 {
        '8'
    } else {
        '9'
    }
}

/// The decimal representation of a natural number, without leading zeros
/// (a single zero for zero itself).
pub open spec fn dec_str(n: nat) -> Seq<char>
    decreases n,
{
    if n < 10 {
        seq![dec_digit(n)]
    } else {
        dec_str(n / 10).push(dec_digit(n % 10))
    }
}

pub proof fn lemma_dec_str_len(n: nat)
    ensures
        dec_str(n).len() >= 1,
        n >= 10 ==> dec_str(n).len() >= 2,
    decreases n,
{
    if n >= 10 {
        lemma_dec_str_len(n / 10);
    }
}

/// Distinct numbers have distinct decimal representations.
pub proof fn lemma_dec_str_injective(a: nat, b: nat)
    requires
        dec_str(a) == dec_str(b),
    ensures
        a == b,
    decreases a,
{
    lemma_dec_str_len(a);
    lemma_dec_str_len(b);
    if a < 10 && b < 10 {
        assert(dec_str(a)[0] == dec_digit(a));
        assert(dec_str(b)[0] == dec_digit(b));
        assert(a == b);
    } else if a < 10 {
        assert(dec_str(a).len() == 1);
        assert(dec_str(b).len() >= 2);
    } else if b < 10 {
        assert(dec_str(b).len() == 1);
        assert(dec_str(a).len() >= 2);
    } else {
        assert(dec_str(a).last() == dec_digit(a % 10));
        assert(dec_str(b).last() == dec_digit(b % 10));
        assert(a % 10 == b % 10);
        assert(dec_str(a).drop_last() =~= dec_str(a / 10)) by {
            assert(dec_str(a) == dec_str(a / 10).push(dec_digit(a % 10)));
        }
        assert(dec_str(b).drop_last() =~= dec_str(b / 10)) by {
            assert(dec_str(b) == dec_str(b / 10).push(dec_digit(b % 10)));
        }
        lemma_dec_str_injective(a / 10, b / 10);
        assert(a == (a / 10) * 10 + a % 10);
        assert(b == (b / 10) * 10 + b % 10);
    }
}

/// The decimal digit character for a value below ten.
pub fn dec_digit_char(d: u64) -> (r: char)
    requires
        d < 10,
    ensures
        r == dec_digit(d as nat),
{
    if d == 0 {
        '0'
    } else if d == 1 {
        '1'
    } else if d == 2 {
        '2'
    } else if d == 3 {
        '3'
    } else if d == 4 {
        '4'
    } else if d == 5 {
        '5'
    } else if d == 6 {
        '6'
    } else if d == 7 {
        '7'
    } else if d == 8 {
        '8'
    } else {
        '9'
    }
}

/// Writes a number in decimal.
pub fn u64_to_dec_string(n: u64) -> (r: String)
    ensures
        r@ == dec_str(n as nat),
    decreases n,
{
    if n < 10 {
        let mut r = String::new();
        push_char(&mut r, dec_digit_char(n));
        proof {
            assert(r@ =~= dec_str(n as nat));
        }
        r
    } else {
        let mut r = u64_to_dec_string(n / 10);
        push_char(&mut r, dec_digit_char(n % 10));
        r
    }
}

/// The decimal representation of an integer: a minus sign for negative
/// values, then the digits.
pub open spec fn dec_str_signed(v: int) -> Seq<char> {
    if v < 0 {
        seq!['-'] + dec_str((-v) as nat)
    } else {
        dec_str(v as nat)
    }
}

/// Writes a signed number in decimal.
pub fn i32_to_dec_string(n: i32) -> (r: String)
    ensures
        r@ == dec_str_signed(n as int),
{
    if n < 0 {
        let mag: u64 = (-(n as i64)) as u64;
        let mut r = String::new();
        push_char(&mut r, '-');
        let digits = u64_to_dec_string(mag);
        r.append(digits.as_str());
        proof {
            assert(r@ =~= dec_str_signed(n as int));
        }
        r
    } else {
        u64_to_dec_string(n as u64)
    }
}

/// The sequence with every colon replaced by a slash.
pub open spec fn replace_colons(s: Seq<char>) -> Seq<char> {
    s.map_values(|c: char| if c == ':' { '/' } else { c })
}

/// Replaces every colon in the string with a slash.
pub fn colon_to_slash(s: &String) -> (r: String)
    ensures
        r@ == replace_colons(s@),
{
    let cs = chars_of_str(s.as_str());
    let mut r = String::new();
    let mut i: usize = 0;
    while i < cs.len()
        invariant
            i <= cs@.len(),
            cs@ == s@,
            r@ == replace_colons(s@.take(i as int)),
        decreases cs@.len() - i,
    {
        let c = cs[i];
        let mapped: char = if c == ':' { '/' } else { c };
        push_char(&mut r, mapped);
        proof {
            assert(replace_colons(s@.take(i as int + 1)) =~= replace_colons(
                s@.take(i as int),
            ).push(mapped));
        }
        i = i + 1;
    }
    proof {
        assert(s@.take(s@.len() as int) =~= s@);
        assert(replace_colons(s@.take(s@.len() as int)) == replace_colons(s@));
    }
    r
}


} // verus!
