use vstd::prelude::*;

use crate::error::{Error, ErrorType};
use crate::helper::{char_of_scalar, chars_of_str, flatten_chars, string_from_opt_chars};
use vstd::utf8::{
    decode_first_scalar, decode_utf8, is_continuation_byte, length_of_first_scalar,
    partial_valid_partial_invalid_utf8, pop_first_scalar, valid_first_scalar, valid_utf8,
};

verus! {

/// A character as delivered by the input reader: absent at end of input.
pub type InputChar = Option<char>;

/// True for the characters that count as whitespace between nodes.
pub open spec fn spec_whitespace(c: char) -> bool {
    c == '\n' || c == '\r' || c == ' '
}

/// True for the characters that count as line breaks.
pub open spec fn spec_line_break(c: char) -> bool {
    c == '\n' || c == '\r'
}

/// True for the characters that can separate two nodes.
pub open spec fn spec_node_delimiter(c: char) -> bool {
    c == '\n' || c == '\r' || c == ' ' || c == '.'
}

/// True for decimal digits.
pub open spec fn spec_digit(c: char) -> bool {
    48 <= c as u32 <= 57
}

/// The characters that are skipped when reading past leading spaces.
pub open spec fn spec_skippable(c: char) -> bool {
    c == ' ' || c == '\n' || c == '\t' || c == '\r'
}

/// Collection of several helper methods that can be used when reading input.
pub struct InputReaderHelper {}

impl InputReaderHelper {
    /// Returns `true` if the provided character is a whitespace.
    pub fn whitespace(c: char) -> (r: bool)
        ensures
            r == spec_whitespace(c),
    {
        c == '\n' || c == '\r' || c == ' '
    }

    /// Returns `true` if the provided character is a line break.
    pub fn line_break(c: char) -> (r: bool)
        ensures
            r == spec_line_break(c),
    {
        c == '\n' || c == '\r'
    }

    /// Returns `true` if the provided character can be used to separate two nodes.
    pub fn node_delimiter(c: char) -> (r: bool)
        ensures
            r == spec_node_delimiter(c),
    {
        c == '\n' || c == '\r' || c == ' ' || c == '.'
    }

    /// Returns `true` if the provided character is a digit.
    pub fn digit(c: char) -> (r: bool)
        ensures
            r == spec_digit(c),
    {
        (c as u32) >= 48 && (c as u32) <= 57
    }
}

/// A delimiter condition for reading runs of characters.
#[derive(Clone, Copy, Debug)]
pub enum Delim {
    /// The given character itself.
    Char(char),
    /// A line break.
    LineBreak,
    /// A character that can separate two nodes.
    NodeDelimiter,
}

/// Whether the given character satisfies the delimiter condition.
pub open spec fn delim_spec(d: Delim, c: char) -> bool {
    match d {
        Delim::Char(d0) => c == d0,
        Delim::LineBreak => spec_line_break(c),
        Delim::NodeDelimiter => spec_node_delimiter(c),
    }
}

/// Whether the given character satisfies the delimiter condition.
pub fn delim_matches(d: &Delim, c: char) -> (r: bool)
    ensures
        r == delim_spec(*d, c),
{
    match d {
        Delim::Char(d0) => c == *d0,
        Delim::LineBreak => InputReaderHelper::line_break(c),
        Delim::NodeDelimiter => InputReaderHelper::node_delimiter(c),
    }
}

/// An entry at which a scan for a delimiter stops: end of input, or a
/// character satisfying the delimiter condition.
pub open spec fn entry_hits(d: Delim, e: InputChar) -> bool {
    e is None || delim_spec(d, e->0)
}

/// Index of the first entry at which a scan for the delimiter stops, or the
/// length of the sequence if there is none.
pub open spec fn scan_idx(d: Delim, s: Seq<InputChar>) -> nat
    decreases s.len(),
{
    if s.len() == 0 {
        0
    } else if entry_hits(d, s[0]) {
        0
    } else {
        1 + scan_idx(d, s.skip(1))
    }
}

pub proof fn lemma_scan_idx(d: Delim, s: Seq<InputChar>)
    ensures
        scan_idx(d, s) <= s.len(),
        forall|i: int| 0 <= i < scan_idx(d, s) ==> !entry_hits(d, #[trigger] s[i]),
        scan_idx(d, s) < s.len() ==> entry_hits(d, s[scan_idx(d, s) as int]),
    decreases s.len(),
{
    if s.len() == 0 {
    } else if entry_hits(d, s[0]) {
    } else {
        lemma_scan_idx(d, s.skip(1));
        assert forall|i: int| 0 <= i < scan_idx(d, s) implies !entry_hits(d, #[trigger] s[i]) by {
            if i > 0 {
                assert(s[i] == s.skip(1)[i - 1]);
            }
        }
        if scan_idx(d, s) < s.len() {
            assert(s[scan_idx(d, s) as int] == s.skip(1)[scan_idx(d, s.skip(1)) as int]);
        }
    }
}

/// An entry holding a character that is skipped as a leading space.
pub open spec fn entry_skippable(e: InputChar) -> bool {
    e is Some && spec_skippable(e->0)
}

/// An entry holding a whitespace character.
pub open spec fn entry_whitespace(e: InputChar) -> bool {
    e is Some && spec_whitespace(e->0)
}

/// Number of leading entries of the sequence that are skipped as spaces.
pub open spec fn prefix_len_skippable(s: Seq<InputChar>) -> nat
    decreases s.len(),
{
    if s.len() == 0 {
        0
    } else if entry_skippable(s[0]) {
        1 + prefix_len_skippable(s.skip(1))
    } else {
        0
    }
}

/// Number of leading entries of the sequence holding whitespace.
pub open spec fn prefix_len_whitespace(s: Seq<InputChar>) -> nat
    decreases s.len(),
{
    if s.len() == 0 {
        0
    } else if entry_whitespace(s[0]) {
        1 + prefix_len_whitespace(s.skip(1))
    } else {
        0
    }
}

pub proof fn lemma_prefix_len_skippable(s: Seq<InputChar>)
    ensures
        prefix_len_skippable(s) <= s.len(),
        forall|i: int| 0 <= i < prefix_len_skippable(s) ==> entry_skippable(#[trigger] s[i]),
        prefix_len_skippable(s) < s.len() ==> !entry_skippable(s[prefix_len_skippable(s) as int]),
    decreases s.len(),
{
    if s.len() == 0 {
    } else if entry_skippable(s[0]) {
        lemma_prefix_len_skippable(s.skip(1));
        assert forall|i: int| 0 <= i < prefix_len_skippable(s) implies entry_skippable(
            #[trigger] s[i],
        ) by {
            if i > 0 {
                assert(s[i] == s.skip(1)[i - 1]);
            }
        }
        if prefix_len_skippable(s) < s.len() {
            assert(s[prefix_len_skippable(s) as int] == s.skip(1)[prefix_len_skippable(
                s.skip(1),
            ) as int]);
        }
    } else {
    }
}

pub proof fn lemma_prefix_len_whitespace(s: Seq<InputChar>)
    ensures
        prefix_len_whitespace(s) <= s.len(),
        forall|i: int| 0 <= i < prefix_len_whitespace(s) ==> entry_whitespace(#[trigger] s[i]),
        prefix_len_whitespace(s) < s.len() ==> !entry_whitespace(
            s[prefix_len_whitespace(s) as int],
        ),
    decreases s.len(),
{
    if s.len() == 0 {
    } else if entry_whitespace(s[0]) {
        lemma_prefix_len_whitespace(s.skip(1));
        assert forall|i: int| 0 <= i < prefix_len_whitespace(s) implies entry_whitespace(
            #[trigger] s[i],
        ) by {
            if i > 0 {
                assert(s[i] == s.skip(1)[i - 1]);
            }
        }
        if prefix_len_whitespace(s) < s.len() {
            assert(s[prefix_len_whitespace(s) as int] == s.skip(1)[prefix_len_whitespace(
                s.skip(1),
            ) as int]);
        }
    } else {
    }
}

/// Number of trailing entries of the sequence that count as whitespace to
/// trim from read payloads.
pub open spec fn suffix_len_skippable(s: Seq<InputChar>) -> nat
    decreases s.len(),
{
    if s.len() == 0 {
        0
    } else if entry_skippable(s.last()) {
        1 + suffix_len_skippable(s.drop_last())
    } else {
        0
    }
}

pub proof fn lemma_suffix_len_skippable(s: Seq<InputChar>)
    ensures
        suffix_len_skippable(s) <= s.len(),
        forall|i: int| s.len() - suffix_len_skippable(s) <= i < s.len() ==> entry_skippable(
            #[trigger] s[i],
        ),
        suffix_len_skippable(s) < s.len() ==> !entry_skippable(
            s[s.len() - suffix_len_skippable(s) - 1],
        ),
    decreases s.len(),
{
    if s.len() == 0 {
    } else if entry_skippable(s.last()) {
        lemma_suffix_len_skippable(s.drop_last());
        assert forall|i: int| s.len() - suffix_len_skippable(s) <= i < s.len() implies
            entry_skippable(#[trigger] s[i]) by {
            if i < s.len() - 1 {
                assert(s[i] == s.drop_last()[i]);
            }
        }
        if suffix_len_skippable(s) < s.len() {
            assert(s[s.len() - suffix_len_skippable(s) - 1] == s.drop_last()[s.drop_last().len()
                - suffix_len_skippable(s.drop_last()) - 1]);
        }
    } else {
    }
}

/// The payload with its leading and trailing whitespace removed.
pub open spec fn trim_entries(s: Seq<InputChar>) -> Seq<InputChar> {
    let lead = prefix_len_skippable(s);
    let trail = suffix_len_skippable(s);
    if lead + trail >= s.len() {
        Seq::empty()
    } else {
        s.subrange(lead as int, s.len() - trail)
    }
}

/// Removes the leading and trailing whitespace of a read payload.
#[verifier::loop_isolation(false)]
fn trim_input_chars(chars: InputChars) -> (r: InputChars)
    ensures
        r@ == trim_entries(chars@),
{
    let ghost s = chars@;
    proof {
        lemma_prefix_len_skippable(s);
        lemma_suffix_len_skippable(s);
    }
    let n = chars.len();
    let mut start: usize = 0;
    while start < n
        invariant
            start <= n,
            n == s.len(),
            forall|q: int| 0 <= q < start ==> entry_skippable(#[trigger] s[q]),
            start <= prefix_len_skippable(s),
        decreases n - start,
    {
        let keep = match chars.get_at(start) {
            Some(c) => !(c == ' ' || c == '\n' || c == '\t' || c == '\r'),
            None => true,
        };
        if keep {
            proof {
                assert(!entry_skippable(s[start as int]));
                assert(start == prefix_len_skippable(s)) by {
                    if start < prefix_len_skippable(s) {
                        assert(entry_skippable(s[start as int]));
                    }
                }
            }
            break;
        }
        proof {
            assert(entry_skippable(s[start as int]));
            assert(start < prefix_len_skippable(s)) by {
                if start >= prefix_len_skippable(s) {
                    assert(start == prefix_len_skippable(s));
                    assert(prefix_len_skippable(s) < s.len());
                }
            }
        }
        start = start + 1;
    }
    proof {
        assert(start == prefix_len_skippable(s)) by {
            if start == n {
                if prefix_len_skippable(s) < s.len() {
                    assert(entry_skippable(s[prefix_len_skippable(s) as int]));
                }
            }
        }
    }
    let mut end: usize = n;
    while end > start
        invariant
            start <= end <= n,
            n == s.len(),
            start == prefix_len_skippable(s),
            forall|q: int| end <= q < n ==> entry_skippable(#[trigger] s[q]),
            n - end <= suffix_len_skippable(s),
        decreases end,
    {
        let keep = match chars.get_at(end - 1) {
            Some(c) => !(c == ' ' || c == '\n' || c == '\t' || c == '\r'),
            None => true,
        };
        if keep {
            proof {
                assert(!entry_skippable(s[end - 1]));
                assert(n - end == suffix_len_skippable(s)) by {
                    if n - end < suffix_len_skippable(s) {
                        assert(entry_skippable(s[end - 1]));
                    }
                }
            }
            break;
        }
        proof {
            assert(entry_skippable(s[end - 1]));
            assert(n - end < suffix_len_skippable(s)) by {
                if n - end >= suffix_len_skippable(s) {
                    assert(n - end == suffix_len_skippable(s));
                    assert(suffix_len_skippable(s) < s.len());
                    assert(!entry_skippable(s[s.len() - suffix_len_skippable(s) - 1]));
                }
            }
        }
        end = end - 1;
    }
    let mut kept: Vec<InputChar> = Vec::new();
    let mut i: usize = start;
    while i < end
        invariant
            start <= i <= end <= n,
            n == s.len(),
            kept@ == s.subrange(start as int, i as int),
        decreases end - i,
    {
        proof {
            assert(s.subrange(start as int, i as int).push(s[i as int]) =~= s.subrange(
                start as int,
                i as int + 1,
            ));
        }
        kept.push(chars.get_at(i));
        i = i + 1;
    }
    proof {
        if end == start {
            assert(prefix_len_skippable(s) + suffix_len_skippable(s) >= s.len());
            assert(kept@ =~= trim_entries(s));
        } else {
            assert(n - end == suffix_len_skippable(s)) by {
                if n - end < suffix_len_skippable(s) {
                    assert(entry_skippable(s[end - 1]));
                    assert(!entry_skippable(s[end - 1]));
                }
            }
            assert(prefix_len_skippable(s) + suffix_len_skippable(s) < s.len());
            assert(kept@ =~= trim_entries(s));
        }
    }
    InputChars::new(kept)
}

/// The first `k` entries of the sequence, padded with absent characters when
/// the sequence is shorter than `k`.
pub open spec fn padded_prefix(s: Seq<InputChar>, k: nat) -> Seq<InputChar> {
    Seq::new(k, |i: int| if i < s.len() { s[i] } else { None })
}

/// `a - b`, stopping at zero.
pub open spec fn sub_or_zero(a: nat, b: nat) -> nat {
    if a >= b {
        (a - b) as nat
    } else {
        0
    }
}

/// The smaller of two natural numbers.
pub open spec fn min_nat(a: nat, b: nat) -> nat {
    if a <= b {
        a
    } else {
        b
    }
}


/// Decoding a valid scalar encoding after a valid prefix extends the
/// decoded characters by that one scalar.
pub proof fn lemma_decode_utf8_append_scalar(prefix: Seq<u8>, sc: Seq<u8>)
    requires
        valid_utf8(prefix),
        valid_first_scalar(sc),
        length_of_first_scalar(sc) == sc.len(),
    ensures
        valid_utf8(prefix + sc),
        decode_utf8(prefix + sc) == decode_utf8(prefix).push(decode_first_scalar(sc) as char),
    decreases prefix.len(),
{
    if prefix.len() == 0 {
        assert(prefix + sc =~= sc);
        assert(sc.len() >= 1);
        assert(pop_first_scalar(sc) =~= Seq::<u8>::empty());
        assert(valid_utf8(Seq::<u8>::empty()));
        assert(valid_utf8(sc));
        assert(decode_utf8(pop_first_scalar(sc)) == Seq::<char>::empty());
        assert(decode_utf8(sc) == seq![decode_first_scalar(sc) as char] + decode_utf8(
            pop_first_scalar(sc),
        ));
        assert(decode_utf8(prefix) == Seq::<char>::empty());
        assert(decode_utf8(sc) =~= decode_utf8(prefix).push(decode_first_scalar(sc) as char));
    } else {
        let both = prefix + sc;
        assert(valid_first_scalar(both) && length_of_first_scalar(both)
            == length_of_first_scalar(prefix) && decode_first_scalar(both)
            == decode_first_scalar(prefix)) by {
            assert(both[0] == prefix[0]);
            assert(prefix.len() >= 2 ==> both[1] == prefix[1]);
            assert(prefix.len() >= 3 ==> both[2] == prefix[2]);
            assert(prefix.len() >= 4 ==> both[3] == prefix[3]);
        }
        let rest = pop_first_scalar(prefix);
        lemma_decode_utf8_append_scalar(rest, sc);
        assert(pop_first_scalar(both) =~= rest + sc);
        assert(valid_utf8(both));
        assert(decode_utf8(both) == seq![decode_first_scalar(both) as char] + decode_utf8(
            pop_first_scalar(both),
        ));
        assert(decode_utf8(prefix) == seq![decode_first_scalar(prefix) as char] + decode_utf8(
            rest,
        ));
        assert(decode_utf8(both) =~= decode_utf8(prefix).push(decode_first_scalar(sc) as char));
    }
}

/// Decodes a UTF-8 byte sequence into its characters; fails with an
/// encoding error exactly when the bytes are not valid UTF-8.
#[verifier::loop_isolation(false)]
pub fn decode_utf8_bytes(bytes: &[u8]) -> (r: Result<Vec<char>, Error>)
    ensures
        valid_utf8(bytes@) ==> r is Ok && r->Ok_0@ == decode_utf8(bytes@),
        !valid_utf8(bytes@) ==> r is Err && r->Err_0.kind() is InvalidByteEncoding,
{
    let n = bytes.len();
    let mut chars: Vec<char> = Vec::new();
    let mut i: usize = 0;
    proof {
        assert(bytes@.subrange(0, 0) =~= Seq::<u8>::empty());
    }
    while i < n
        invariant
            i <= n,
            n == bytes@.len(),
            valid_utf8(bytes@.subrange(0, i as int)),
            chars@ == decode_utf8(bytes@.subrange(0, i as int)),
        decreases n - i,
    {
        let ghost rest = bytes@.subrange(i as int, n as int);
        proof {
            assert(rest.len() == n - i);
            assert forall|k: int| 0 <= k < rest.len() implies rest[k] == bytes@[i + k] by {}
        }
        let b0 = bytes[i];
        let width: usize;
        let cp: u32;
        if b0 <= 0x7f {
            width = 1;
            cp = b0 as u32;
            proof {
                assert(b0 & 0x7f == b0) by (bit_vector)
                    requires
                        b0 <= 0x7f,
                ;
                assert(decode_first_scalar(rest) == cp);
            }
        } else if 0xc0 <= b0 && b0 <= 0xdf {
            if !(n - i > 1 && is_continuation(bytes[i + 1])) {
                proof {
                    lemma_whole_invalid(bytes@, i as int);
                }
                return Err(
                    Error::new(ErrorType::InvalidByteEncoding, "Invalid byte encoding of input."),
                );
            }
            let b1 = bytes[i + 1];
            width = 2;
            cp = (((b0 & 0x1f) as u32) << 6u32) | ((b1 & 0x3f) as u32);
            proof {
                assert(cp <= 0x7ff) by (bit_vector)
                    requires
                        cp == (((b0 & 0x1f) as u32) << 6u32) | ((b1 & 0x3f) as u32),
                ;
            }
            proof {
                assert(vstd::utf8::codepoint_width_2(b0, b1) == cp);
                assert(rest[1] == b1);
                assert(decode_first_scalar(rest) == cp);
            }
            if cp < 0x80 {
                proof {
                    lemma_whole_invalid(bytes@, i as int);
                }
                return Err(
                    Error::new(ErrorType::InvalidByteEncoding, "Invalid byte encoding of input."),
                );
            }
        } else if 0xe0 <= b0 && b0 <= 0xef {
            if !(n - i > 2 && is_continuation(bytes[i + 1]) && is_continuation(bytes[i + 2])) {
                proof {
                    lemma_whole_invalid(bytes@, i as int);
                }
                return Err(
                    Error::new(ErrorType::InvalidByteEncoding, "Invalid byte encoding of input."),
                );
            }
            let b1 = bytes[i + 1];
            let b2 = bytes[i + 2];
            width = 3;
            cp = (((b0 & 0x0f) as u32) << 12u32) | (((b1 & 0x3f) as u32) << 6u32) | ((b2
                & 0x3f) as u32);
            proof {
                assert(cp <= 0xffff) by (bit_vector)
                    requires
                        cp == (((b0 & 0x0f) as u32) << 12u32) | (((b1 & 0x3f) as u32) << 6u32) | ((
                        b2 & 0x3f) as u32),
                ;
            }
            proof {
                assert(vstd::utf8::codepoint_width_3(b0, b1, b2) == cp);
                assert(rest[1] == b1 && rest[2] == b2);
                assert(decode_first_scalar(rest) == cp);
            }
            if cp < 0x800 || (0xd800 <= cp && cp <= 0xdfff) {
                proof {
                    lemma_whole_invalid(bytes@, i as int);
                }
                return Err(
                    Error::new(ErrorType::InvalidByteEncoding, "Invalid byte encoding of input."),
                );
            }
        } else if 0xf0 <= b0 && b0 <= 0xf7 {
            if !(n - i > 3 && is_continuation(bytes[i + 1]) && is_continuation(bytes[i + 2])
                && is_continuation(bytes[i + 3])) {
                proof {
                    lemma_whole_invalid(bytes@, i as int);
                }
                return Err(
                    Error::new(ErrorType::InvalidByteEncoding, "Invalid byte encoding of input."),
                );
            }
            let b1 = bytes[i + 1];
            let b2 = bytes[i + 2];
            let b3 = bytes[i + 3];
            width = 4;
            cp = (((b0 & 0x07) as u32) << 18u32) | (((b1 & 0x3f) as u32) << 12u32) | (((b2
                & 0x3f) as u32) << 6u32) | ((b3 & 0x3f) as u32);
            proof {
                assert(vstd::utf8::codepoint_width_4(b0, b1, b2, b3) == cp);
                assert(rest[1] == b1 && rest[2] == b2 && rest[3] == b3);
                assert(decode_first_scalar(rest) == cp);
            }
            if !(0x10000 <= cp && cp <= 0x10ffff) {
                proof {
                    lemma_whole_invalid(bytes@, i as int);
                }
                return Err(
                    Error::new(ErrorType::InvalidByteEncoding, "Invalid byte encoding of input."),
                );
            }
        } else {
            proof {
                lemma_whole_invalid(bytes@, i as int);
            }
            return Err(
                Error::new(ErrorType::InvalidByteEncoding, "Invalid byte encoding of input."),
            );
        }
        proof {
            assert(valid_first_scalar(rest));
            assert(length_of_first_scalar(rest) == width);
            assert(decode_first_scalar(rest) == cp);
            assert(vstd::utf8::is_scalar(cp)) by {
                assert(vstd::utf8::has_width_1_encoding(cp) || vstd::utf8::has_width_2_encoding(
                    cp,
                ) || vstd::utf8::has_width_3_encoding(cp) || vstd::utf8::has_width_4_encoding(
                    cp,
                ));
            }
        }
        let c = char_of_scalar(cp);
        proof {
            vstd::utf8::char_u32_cast(c, cp);
            lemma_decode_utf8_append_scalar(
                bytes@.subrange(0, i as int),
                bytes@.subrange(i as int, i + width as int),
            );
            assert(bytes@.subrange(0, i as int) + bytes@.subrange(i as int, i + width as int)
                =~= bytes@.subrange(0, i + width as int));
            assert(bytes@.subrange(i as int, i + width as int) =~= rest.subrange(
                0,
                width as int,
            ));
            assert(valid_first_scalar(rest.subrange(0, width as int)));
            assert(decode_first_scalar(rest.subrange(0, width as int)) == cp);
        }
        chars.push(c);
        i = i + width;
    }
    proof {
        assert(bytes@.subrange(0, n as int) =~= bytes@);
    }
    Ok(chars)
}

/// Whether the byte has the continuation-byte form.
fn is_continuation(b: u8) -> (r: bool)
    ensures
        r == is_continuation_byte(b),
{
    0x80 <= b && b <= 0xbf
}

/// The whole sequence is invalid when its valid prefix is followed by
/// bytes that do not start with a valid scalar encoding.
proof fn lemma_whole_invalid(bytes: Seq<u8>, i: int)
    requires
        0 <= i < bytes.len(),
        valid_utf8(bytes.subrange(0, i)),
        !valid_first_scalar(bytes.subrange(i, bytes.len() as int)),
    ensures
        !valid_utf8(bytes),
{
    assert(bytes.subrange(i, bytes.len() as int).len() != 0);
    assert(!valid_utf8(bytes.subrange(i, bytes.len() as int)));
    partial_valid_partial_invalid_utf8(bytes, i);
}

/// Represents a sequence of read input characters.
#[derive(Debug)]
pub struct InputChars {
    input_chars: Vec<InputChar>,
}

impl View for InputChars {
    type V = Seq<InputChar>;

    closed spec fn view(&self) -> Seq<InputChar> {
        self.input_chars@
    }
}

impl Clone for InputChars {
    fn clone(&self) -> (r: Self)
        ensures
            r@ == self@,
    {
        InputChars { input_chars: self.to_vec() }
    }
}

impl InputChars {
    /// Wraps the provided characters.
    pub fn new(chars: Vec<InputChar>) -> (r: InputChars)
        ensures
            r@ == chars@,
    {
        InputChars { input_chars: chars }
    }

    /// Returns a copy of the stored characters.
    pub fn to_vec(&self) -> (r: Vec<InputChar>)
        ensures
            r@ == self@,
    {
        let mut r: Vec<InputChar> = Vec::new();
        let mut i: usize = 0;
        while i < self.input_chars.len()
            invariant
                i <= self.input_chars.len(),
                r@ == self@.take(i as int),
            decreases self.input_chars.len() - i,
        {
            proof {
                assert(self@.take(i as int).push(self@[i as int]) =~= self@.take(i as int + 1));
            }
            r.push(self.input_chars[i]);
            i = i + 1;
        }
        proof {
            assert(self@.take(self@.len() as int) =~= self@);
        }
        r
    }

    /// Returns the number of stored characters.
    pub fn len(&self) -> (r: usize)
        ensures
            r == self@.len(),
    {
        self.input_chars.len()
    }

    /// Returns the character at the given position.
    pub fn get_at(&self, i: usize) -> (r: InputChar)
        requires
            i < self@.len(),
        ensures
            r == self@[i as int],
    {
        self.input_chars[i]
    }

    /// Appends a character at the end.
    pub fn push(&mut self, c: InputChar)
        ensures
            final(self)@ == old(self)@.push(c),
    {
        self.input_chars.push(c);
    }

    /// Inserts a character at the given position.
    pub fn insert(&mut self, i: usize, c: InputChar)
        requires
            i <= old(self)@.len(),
        ensures
            final(self)@ == old(self)@.insert(i as int, c),
    {
        self.input_chars.insert(i, c);
    }

    /// Removes and returns the character at the given position.
    pub fn remove(&mut self, i: usize) -> (r: InputChar)
        requires
            i < old(self)@.len(),
        ensures
            r == old(self)@[i as int],
            final(self)@ == old(self)@.remove(i as int),
    {
        self.input_chars.remove(i)
    }

    /// Appends a copy of the other character sequence at the end.
    pub fn append(&mut self, other: &mut InputChars)
        ensures
            final(self)@ == old(self)@ + old(other)@,
            final(other)@ == old(other)@,
    {
        let mut tmp = other.to_vec();
        self.input_chars.append(&mut tmp);
    }

    /// Returns the present characters as a string, in order.
    pub fn to_string(&self) -> (r: String)
        ensures
            r@ == flatten_chars(self@),
    {
        string_from_opt_chars(&self.input_chars)
    }
}

/// Reads characters of an in-memory input, with lookahead: already read but
/// unconsumed characters wait in a buffer that drains first.
#[derive(Debug)]
pub struct InputReader {
    input: Vec<char>,
    pos: usize,
    peeked_chars: InputChars,
}

impl InputReader {
    /// The not yet consumed part of the underlying input.
    pub closed spec fn stream(self) -> Seq<char> {
        if self.pos <= self.input@.len() {
            self.input@.skip(self.pos as int)
        } else {
            Seq::empty()
        }
    }

    /// Everything still to be read: the buffered entries first, then the
    /// rest of the input.
    pub closed spec fn pending(self) -> Seq<InputChar> {
        self.peeked_chars@ + self.stream().map_values(|c: char| Some(c))
    }

    /// How many of the pending entries sit in the lookahead buffer.
    pub closed spec fn buffered_len(self) -> nat {
        self.peeked_chars@.len()
    }

    /// Constructor for `InputReader`.
    pub fn new(input: &str) -> (r: InputReader)
        ensures
            r.pending() == input@.map_values(|c: char| Some(c)),
            r.buffered_len() == 0,
    {
        let r = InputReader {
            input: chars_of_str(input),
            pos: 0,
            peeked_chars: InputChars::new(Vec::new()),
        };
        proof {
            assert(r.pending() =~= input@.map_values(|c: char| Some(c)));
        }
        r
    }

    /// Builds a reader over the characters that the given bytes encode in
    /// UTF-8; bytes that are not valid UTF-8 are an encoding error.
    pub fn from_bytes(bytes: &[u8]) -> (r: Result<InputReader, Error>)
        ensures
            valid_utf8(bytes@) ==> r is Ok && r->Ok_0.pending() == decode_utf8(
                bytes@,
            ).map_values(|c: char| Some(c)) && r->Ok_0.buffered_len() == 0,
            !valid_utf8(bytes@) ==> r is Err && r->Err_0.kind() is InvalidByteEncoding,
    {
        let chars = match decode_utf8_bytes(bytes) {
            Ok(cs) => cs,
            Err(e) => {
                return Err(e);
            },
        };
        let r = InputReader { input: chars, pos: 0, peeked_chars: InputChars::new(Vec::new()) };
        proof {
            if valid_utf8(bytes@) {
                assert(r.pending() =~= decode_utf8(bytes@).map_values(|c: char| Some(c)));
            }
        }
        Ok(r)
    }

    /// Returns the next character of the input and consumes it; absent at
    /// the end of the input.
    pub fn get_next_char(&mut self) -> (r: Result<InputChar, Error>)
        ensures
            r is Ok,
            old(self).pending().len() > 0 ==> r->Ok_0 == old(self).pending()[0] && final(self).pending() == old(self).pending().skip(1) && final(self).buffered_len()
                == sub_or_zero(old(self).buffered_len(), 1),
            old(self).pending().len() == 0 ==> r->Ok_0 is None && *final(self) == *old(self),
    {
        if self.peeked_chars.len() > 0 {
            let c = self.peeked_chars.remove(0);
            proof {
                assert(self.pending() =~= old(self).pending().skip(1));
            }
            return Ok(c);
        }
        if self.pos < self.input.len() {
            let c = self.input[self.pos];
            self.pos = self.pos + 1;
            proof {
                assert(old(self).pending()[0] == Some(c));
                assert(self.pending() =~= old(self).pending().skip(1));
            }
            Ok(Some(c))
        } else {
            proof {
                assert(old(self).pending().len() == 0);
            }
            Ok(None)
        }
    }

    /// Returns the next `k` characters of the input and consumes them;
    /// entries past the end of the input are absent.
    #[verifier::loop_isolation(false)]
    pub fn get_next_k_chars(&mut self, k: usize) -> (r: Result<InputChars, Error>)
        ensures
            r is Ok,
            r->Ok_0@ == padded_prefix(old(self).pending(), k as nat),
            final(self).pending() == old(self).pending().skip(
                min_nat(k as nat, old(self).pending().len()) as int,
            ),
            final(self).buffered_len() == sub_or_zero(old(self).buffered_len(), k as nat),
    {
        let mut next_k_chars: Vec<InputChar> = Vec::new();
        let mut i: usize = 0;
        while i < k
            invariant
                i <= k,
                next_k_chars@ == padded_prefix(old(self).pending(), i as nat),
                self.pending() == old(self).pending().skip(
                    min_nat(i as nat, old(self).pending().len()) as int,
                ),
                self.buffered_len() == sub_or_zero(old(self).buffered_len(), i as nat),
            decreases k - i,
        {
            let ghost pend0 = old(self).pending();
            let ghost cur = self.pending();
            let next_char = match self.get_next_char() {
                Ok(c) => c,
                Err(e) => {
                    return Err(e);
                },
            };
            proof {
                if cur.len() > 0 {
                    assert(i < pend0.len());
                    assert(cur[0] == pend0[i as int]);
                    assert(cur.skip(1) =~= pend0.skip(min_nat((i + 1) as nat, pend0.len()) as int));
                } else {
                    assert(i >= pend0.len());
                }
                assert(next_k_chars@.push(next_char) =~= padded_prefix(pend0, (i + 1) as nat));
            }
            next_k_chars.push(next_char);
            i = i + 1;
        }
        Ok(InputChars::new(next_k_chars))
    }

    /// Returns the next `k` characters but does not consume them.
    #[verifier::loop_isolation(false)]
    pub fn peek_next_k_chars(&mut self, k: usize) -> (r: Result<InputChars, Error>)
        ensures
            r is Ok,
            r->Ok_0@ == padded_prefix(old(self).pending(), k as nat),
            old(self).buffered_len() >= k ==> *final(self) == *old(self),
            old(self).buffered_len() < k ==> final(self).pending() == padded_prefix(
                old(self).pending(),
                k as nat,
            ) + old(self).pending().skip(min_nat(k as nat, old(self).pending().len()) as int)
                && final(self).buffered_len() == k,
    {
        if self.peeked_chars.len() >= k {
            let mut first_k: Vec<InputChar> = Vec::new();
            let mut i: usize = 0;
            while i < k
                invariant
                    i <= k,
                    k <= self.peeked_chars@.len(),
                    first_k@ == self.peeked_chars@.take(i as int),
                decreases k - i,
            {
                proof {
                    assert(self.peeked_chars@.take(i as int).push(self.peeked_chars@[i as int])
                        =~= self.peeked_chars@.take(i as int + 1));
                }
                let c = self.peeked_chars.get_at(i);
                first_k.push(c);
                i = i + 1;
            }
            proof {
                assert(first_k@ =~= padded_prefix(old(self).pending(), k as nat));
            }
            Ok(InputChars::new(first_k))
        } else {
            let next_k_chars = match self.get_next_k_chars(k) {
                Ok(c) => c,
                Err(e) => {
                    return Err(e);
                },
            };
            self.peeked_chars = next_k_chars.clone();
            proof {
                assert(self.pending() =~= padded_prefix(old(self).pending(), k as nat) + old(self).pending().skip(min_nat(k as nat, old(self).pending().len()) as int));
            }
            Ok(next_k_chars)
        }
    }

    /// Returns the next character but does not consume it.
    pub fn peek_next_char(&mut self) -> (r: Result<InputChar, Error>)
        ensures
            r is Ok,
            r->Ok_0 == (if old(self).pending().len() > 0 {
                old(self).pending()[0]
            } else {
                None::<char>
            }),
            old(self).buffered_len() >= 1 ==> *final(self) == *old(self),
            old(self).buffered_len() == 0 ==> final(self).pending() == (if old(self).pending().len() > 0 {
                old(self).pending()
            } else {
                seq![None::<char>]
            }) && final(self).buffered_len() == 1,
    {
        let peeked_char = match self.peek_next_k_chars(1) {
            Ok(c) => c,
            Err(e) => {
                return Err(e);
            },
        };
        let r = peeked_char.get_at(0);
        proof {
            if old(self).buffered_len() == 0 {
                if old(self).pending().len() > 0 {
                    assert(self.pending() =~= old(self).pending());
                } else {
                    assert(self.pending() =~= seq![None::<char>]);
                }
            }
        }
        Ok(r)
    }

    /// Returns the next character that is not a whitespace; consumes it and
    /// everything before it.
    #[verifier::loop_isolation(false)]
    pub fn get_next_char_discard_leading_spaces(&mut self) -> (r: Result<InputChar, Error>)
        ensures
            r is Ok,
            ({
                let p = old(self).pending();
                let w = prefix_len_skippable(p);
                &&& r->Ok_0 == (if w < p.len() {
                    p[w as int]
                } else {
                    None::<char>
                })
                &&& final(self).pending() == p.skip(min_nat(w + 1, p.len()) as int)
                &&& final(self).buffered_len() == sub_or_zero(
                    old(self).buffered_len(),
                    min_nat(w + 1, p.len()),
                )
            }),
    {
        let ghost p = old(self).pending();
        let ghost w = prefix_len_skippable(p);
        proof {
            lemma_prefix_len_skippable(p);
        }
        let ghost mut i: nat = 0;
        loop
            invariant
                i <= w,
                w == prefix_len_skippable(p),
                w <= p.len(),
                forall|q: int| 0 <= q < w ==> entry_skippable(#[trigger] p[q]),
                w < p.len() ==> !entry_skippable(p[w as int]),
                self.pending() == p.skip(i as int),
                self.buffered_len() == sub_or_zero(old(self).buffered_len(), i),
            decreases w - i,
        {
            let ghost cur = self.pending();
            let r = match self.get_next_char() {
                Ok(c) => c,
                Err(e) => {
                    return Err(e);
                },
            };
            proof {
                if cur.len() > 0 {
                    assert(cur[0] == p[i as int]);
                    assert(cur.skip(1) =~= p.skip(i as int + 1));
                }
            }
            match r {
                Some(c) => {
                    if c == ' ' || c == '\n' || c == '\t' || c == '\r' {
                        proof {
                            assert(entry_skippable(p[i as int]));
                            assert(i < w) by {
                                if i >= w {
                                    assert(i == w);
                                    assert(w < p.len());
                                }
                            }
                            i = i + 1;
                        }
                    } else {
                        proof {
                            assert(!entry_skippable(p[i as int]));
                            assert(i == w);
                        }
                        return Ok(Some(c));
                    }
                },
                None => {
                    proof {
                        if cur.len() > 0 {
                            assert(p[i as int] is None);
                            assert(i == w);
                        } else {
                            assert(i == p.len());
                            assert(i == w);
                        }
                    }
                    return Ok(None);
                },
            }
        }
    }

    /// Returns the next character that is not a whitespace but does not
    /// consume it; whatever stands before it is consumed.
    pub fn peek_next_char_discard_leading_spaces(&mut self) -> (r: Result<InputChar, Error>)
        ensures
            r is Ok,
            ({
                let p = old(self).pending();
                let b = old(self).buffered_len();
                let w = prefix_len_skippable(p);
                &&& r->Ok_0 == (if w < p.len() {
                    p[w as int]
                } else {
                    None::<char>
                })
                &&& (w < p.len() && p[w as int] is Some && b <= w + 1 ==> final(self).pending()
                    == seq![p[w as int]] + p.skip(w + 1 as int) && final(self).buffered_len() == 1)
                &&& (w < p.len() && p[w as int] is Some && b > w + 1 ==> final(self).pending()
                    == p.skip(w + 1 as int) && final(self).buffered_len() == b - (w + 1))
                &&& (w < p.len() && p[w as int] is None ==> final(self).pending() == p.skip(
                    w + 1 as int,
                ) && final(self).buffered_len() == sub_or_zero(b, w + 1))
                &&& (w >= p.len() ==> final(self).pending() == Seq::<InputChar>::empty() && final(self).buffered_len() == 0)
            }),
    {
        let ghost p = old(self).pending();
        proof {
            lemma_prefix_len_skippable(p);
        }
        let r = match self.get_next_char_discard_leading_spaces() {
            Ok(c) => c,
            Err(e) => {
                return Err(e);
            },
        };
        match r {
            Some(next_char) => {
                if self.peeked_chars.len() == 0 {
                    self.peeked_chars.push(Some(next_char));
                    proof {
                        let w = prefix_len_skippable(p);
                        assert(self.pending() =~= seq![p[w as int]] + p.skip(w + 1 as int));
                    }
                }
                Ok(Some(next_char))
            },
            None => {
                proof {
                    let w = prefix_len_skippable(p);
                    if w >= p.len() {
                        assert(self.pending() =~= Seq::<InputChar>::empty());
                    }
                }
                Ok(None)
            },
        }
    }

    /// Reads and consumes characters up to the first one satisfying the
    /// delimiter condition; the delimiter itself is pushed back, not
    /// consumed. If the input ends first, fails with the characters read so
    /// far.
    #[verifier::loop_isolation(false)]
    pub fn get_until(&mut self, delimiter: Delim) -> (r: Result<InputChars, Error>)
        ensures
            ({
                let p = old(self).pending();
                let b = old(self).buffered_len();
                let j = scan_idx(delimiter, p);
                &&& (j < p.len() && p[j as int] is Some ==> r is Ok && r->Ok_0@ == p.take(j as int)
                    && final(self).pending() == seq![p[j as int]] + p.skip(j + 1 as int) && final(self).buffered_len() == sub_or_zero(b, j + 1) + 1)
                &&& (j < p.len() && p[j as int] is None ==> r is Err && (r->Err_0.kind() matches
                    ErrorType::EndOfInput(ic) && ic@ == p.take(j as int)) && final(self).pending()
                    == p.skip(j + 1 as int) && final(self).buffered_len() == sub_or_zero(b, j + 1))
                &&& (j == p.len() ==> r is Err && (r->Err_0.kind() matches ErrorType::EndOfInput(
                    ic,
                ) && ic@ == p) && final(self).pending() == Seq::<InputChar>::empty() && final(self).buffered_len() == 0)
            }),
    {
        let ghost p = old(self).pending();
        let ghost j = scan_idx(delimiter, p);
        proof {
            lemma_scan_idx(delimiter, p);
        }
        let mut buf: Vec<InputChar> = Vec::new();
        let ghost mut i: nat = 0;
        loop
            invariant
                i <= j,
                j == scan_idx(delimiter, p),
                j <= p.len(),
                forall|q: int| 0 <= q < j ==> !entry_hits(delimiter, #[trigger] p[q]),
                j < p.len() ==> entry_hits(delimiter, p[j as int]),
                buf@ == p.take(i as int),
                self.pending() == p.skip(i as int),
                self.buffered_len() == sub_or_zero(old(self).buffered_len(), i),
            decreases j - i,
        {
            let ghost cur = self.pending();
            let r = match self.get_next_char() {
                Ok(c) => c,
                Err(e) => {
                    return Err(e);
                },
            };
            proof {
                if cur.len() > 0 {
                    assert(cur[0] == p[i as int]);
                    assert(cur.skip(1) =~= p.skip(i as int + 1));
                }
            }
            match r {
                Some(c) => {
                    if delim_matches(&delimiter, c) {
                        proof {
                            assert(entry_hits(delimiter, p[i as int]));
                            assert(i == j);
                        }
                        self.peeked_chars.insert(0, Some(c));
                        proof {
                            assert(self.pending() =~= seq![p[j as int]] + p.skip(j + 1 as int));
                        }
                        return Ok(InputChars::new(buf));
                    } else {
                        proof {
                            assert(!entry_hits(delimiter, p[i as int]));
                            assert(i < j) by {
                                if i >= j {
                                    assert(i == j);
                                    assert(j < p.len());
                                }
                            }
                            assert(p.take(i as int).push(p[i as int]) =~= p.take(i as int + 1));
                        }
                        buf.push(Some(c));
                        proof {
                            i = i + 1;
                        }
                    }
                },
                None => {
                    proof {
                        if cur.len() > 0 {
                            assert(p[i as int] is None);
                            assert(entry_hits(delimiter, p[i as int]));
                            assert(i == j);
                        } else {
                            assert(i == p.len());
                            assert(i == j);
                            assert(p.take(i as int) =~= p);
                        }
                    }
                    return Err(
                        Error::new(ErrorType::EndOfInput(InputChars::new(buf)), "End of input."),
                    );
                },
            }
        }
    }

    /// As `get_until`, and consumes leading whitespace first; the result
    /// and the end-of-input payload come back with their residual
    /// whitespace trimmed at both ends.
    pub fn get_until_discard_leading_spaces(&mut self, delimiter: Delim) -> (r: Result<
        InputChars,
        Error,
    >)
        ensures
            ({
                let p = old(self).pending();
                let b = old(self).buffered_len();
                let w = prefix_len_whitespace(p);
                let q = p.skip(w as int);
                let b1: nat = if b > w {
                    (b - w) as nat
                } else {
                    1
                };
                let j = scan_idx(delimiter, q);
                &&& (j < q.len() && q[j as int] is Some ==> r is Ok && r->Ok_0@ == trim_entries(
                    q.take(j as int),
                ) && final(self).pending() == seq![q[j as int]] + q.skip(j + 1 as int) && final(self).buffered_len() == sub_or_zero(b1, j + 1) + 1)
                &&& (j < q.len() && q[j as int] is None ==> r is Err && (r->Err_0.kind() matches
                    ErrorType::EndOfInput(ic) && ic@ == trim_entries(q.take(j as int))) && final(self).pending()
                    == q.skip(j + 1 as int) && final(self).buffered_len() == sub_or_zero(b1, j + 1))
                &&& (j == q.len() ==> r is Err && (r->Err_0.kind() matches ErrorType::EndOfInput(
                    ic,
                ) && ic@ == trim_entries(q)) && final(self).pending() == Seq::<InputChar>::empty() && final(self).buffered_len() == 0)
            }),
    {
        let ghost p = old(self).pending();
        let ghost b = old(self).buffered_len();
        let ghost w = prefix_len_whitespace(p);
        proof {
            lemma_prefix_len_whitespace(p);
        }
        let ghost mut i: nat = 0;
        // consume leading whitespaces
        loop
            invariant_except_break
                i <= w,
                self.pending() == p.skip(i as int),
                self.buffered_len() == sub_or_zero(b, i),
            invariant
                p == old(self).pending(),
                b == old(self).buffered_len(),
                w == prefix_len_whitespace(p),
                w <= p.len(),
                forall|q: int| 0 <= q < w ==> entry_whitespace(#[trigger] p[q]),
                w < p.len() ==> !entry_whitespace(p[w as int]),
            ensures
                ({
                    let q = p.skip(w as int);
                    let b1: nat = if b > w {
                        (b - w) as nat
                    } else {
                        1
                    };
                    &&& (q.len() > 0 ==> self.pending() == q && self.buffered_len() == b1)
                    &&& (q.len() == 0 ==> self.pending() == seq![None::<char>]
                        && self.buffered_len() == 1)
                }),
            decreases w - i,
        {
            let ghost cur_p = self.pending();
            let ghost cur_b = self.buffered_len();
            let peeked = match self.peek_next_char() {
                Ok(c) => c,
                Err(e) => {
                    return Err(e);
                },
            };
            let is_ws = match peeked {
                Some(c) => InputReaderHelper::whitespace(c),
                None => false,
            };
            if !is_ws {
                proof {
                    assert(i == w) by {
                        if i < w {
                            assert(cur_p[0] == p[i as int]);
                            assert(entry_whitespace(p[i as int]));
                        }
                    }
                    let q = p.skip(w as int);
                    if q.len() > 0 {
                        assert(self.pending() == q);
                        if cur_b == 0 {
                            assert(self.buffered_len() == 1);
                            assert(b <= w);
                        } else {
                            assert(self.buffered_len() == cur_b);
                            assert(cur_b == sub_or_zero(b, w));
                        }
                    } else {
                        assert(self.pending() =~= seq![None::<char>]);
                        assert(self.buffered_len() == 1);
                    }
                }
                break;
            }
            proof {
                assert(i < w) by {
                    if i == w {
                        let q = p.skip(w as int);
                        if q.len() > 0 {
                            assert(cur_p[0] == p[w as int]);
                            assert(!entry_whitespace(p[w as int]));
                        }
                    }
                }
            }
            let ghost mid_p = self.pending();
            let _ = match self.get_next_char() {
                Ok(c) => c,
                Err(e) => {
                    return Err(e);
                },
            };
            proof {
                assert(mid_p == p.skip(i as int));
                assert(mid_p.len() > 0);
                assert(mid_p.skip(1) =~= p.skip(i as int + 1));
                i = i + 1;
            }
        }
        let ghost q = p.skip(w as int);
        let ghost b1: nat = if b > w {
            (b - w) as nat
        } else {
            1
        };
        let ghost pre = self.pending();
        let result = self.get_until(delimiter);
        proof {
            if q.len() == 0 {
                assert(pre =~= seq![None::<char>]);
                assert(scan_idx(delimiter, pre) == 0);
                assert(scan_idx(delimiter, q) == 0);
                assert(pre.take(0) =~= q);
                assert(pre.skip(1) =~= Seq::<InputChar>::empty());
            }
        }
        match result {
            Ok(chars) => Ok(trim_input_chars(chars)),
            Err(err) => {
                let trimmed_payload = match err.error_type() {
                    ErrorType::EndOfInput(partial) => Some(trim_input_chars(partial.clone())),
                    _ => None,
                };
                match trimmed_payload {
                    Some(tp) => Err(Error::new(ErrorType::EndOfInput(tp), "End of input.")),
                    None => Err(err),
                }
            },
        }
    }

    /// As `get_until`, but the read characters are pushed back: the input is
    /// not consumed.
    pub fn peek_until(&mut self, delimiter: Delim) -> (r: Result<InputChars, Error>)
        ensures
            ({
                let p = old(self).pending();
                let b = old(self).buffered_len();
                let j = scan_idx(delimiter, p);
                &&& (j < p.len() && p[j as int] is Some ==> r is Ok && r->Ok_0@ == p.take(j as int)
                    && final(self).pending() == p && final(self).buffered_len() == j + 1
                    + sub_or_zero(b, j + 1))
                &&& (j < p.len() && p[j as int] is None ==> r is Err && (r->Err_0.kind() matches
                    ErrorType::EndOfInput(ic) && ic@ == p.take(j as int)) && final(self).pending()
                    == p.skip(j + 1 as int) && final(self).buffered_len() == sub_or_zero(b, j + 1))
                &&& (j == p.len() ==> r is Err && (r->Err_0.kind() matches ErrorType::EndOfInput(
                    ic,
                ) && ic@ == p) && final(self).pending() == Seq::<InputChar>::empty() && final(self).buffered_len() == 0)
            }),
    {
        let ghost p = old(self).pending();
        let ghost j = scan_idx(delimiter, p);
        proof {
            lemma_scan_idx(delimiter, p);
        }
        let mut chars = match self.get_until(delimiter) {
            Ok(c) => c,
            Err(e) => {
                return Err(e);
            },
        };
        proof {
            assert(j < p.len() && p[j as int] is Some);
        }
        let ghost mid_peeked = self.peeked_chars@;
        let ghost mid_stream = self.stream();
        let result = chars.clone();
        chars.append(&mut self.peeked_chars);
        self.peeked_chars = chars;
        proof {
            assert(self.peeked_chars@ == p.take(j as int) + mid_peeked);
            assert(self.pending() == p.take(j as int) + (mid_peeked + mid_stream.map_values(
                |c: char| Some(c),
            ))) by {
                assert(self.pending() =~= p.take(j as int) + (mid_peeked
                    + mid_stream.map_values(|c: char| Some(c))));
            }
            assert(mid_peeked + mid_stream.map_values(|c: char| Some(c)) == seq![p[j as int]]
                + p.skip(j + 1 as int));
            assert(p.take(j as int) + (seq![p[j as int]] + p.skip(j + 1 as int)) =~= p);
        }
        Ok(result)
    }

    /// As `peek_until`, and consumes leading whitespace first; the
    /// characters after the whitespace are pushed back with their residual
    /// whitespace trimmed at both ends, as the read result is.
    pub fn peek_until_discard_leading_spaces(&mut self, delimiter: Delim) -> (r: Result<
        InputChars,
        Error,
    >)
        ensures
            ({
                let p = old(self).pending();
                let b = old(self).buffered_len();
                let w = prefix_len_whitespace(p);
                let q = p.skip(w as int);
                let b1: nat = if b > w {
                    (b - w) as nat
                } else {
                    1
                };
                let j = scan_idx(delimiter, q);
                let word = trim_entries(q.take(j as int));
                &&& (j < q.len() && q[j as int] is Some ==> r is Ok && r->Ok_0@ == word && final(self).pending() == word + seq![q[j as int]] + q.skip(j + 1 as int) && final(self).buffered_len() == word.len() + 1
                    + sub_or_zero(b1, j + 1))
                &&& (j < q.len() && q[j as int] is None ==> r is Err && (r->Err_0.kind() matches
                    ErrorType::EndOfInput(ic) && ic@ == word) && final(self).pending()
                    == q.skip(j + 1 as int) && final(self).buffered_len() == sub_or_zero(b1, j + 1))
                &&& (j == q.len() ==> r is Err && (r->Err_0.kind() matches ErrorType::EndOfInput(
                    ic,
                ) && ic@ == trim_entries(q)) && final(self).pending() == Seq::<InputChar>::empty() && final(self).buffered_len() == 0)
            }),
    {
        let ghost p = old(self).pending();
        let ghost w = prefix_len_whitespace(p);
        let ghost q = p.skip(w as int);
        let ghost j = scan_idx(delimiter, q);
        proof {
            lemma_scan_idx(delimiter, q);
        }
        let mut chars = match self.get_until_discard_leading_spaces(delimiter) {
            Ok(c) => c,
            Err(e) => {
                return Err(e);
            },
        };
        proof {
            assert(j < q.len() && q[j as int] is Some);
        }
        let ghost word = trim_entries(q.take(j as int));
        let ghost mid_peeked = self.peeked_chars@;
        let ghost mid_stream = self.stream();
        let result = chars.clone();
        chars.append(&mut self.peeked_chars);
        self.peeked_chars = chars;
        proof {
            assert(self.peeked_chars@ == word + mid_peeked);
            assert(self.pending() == word + (mid_peeked + mid_stream.map_values(
                |c: char| Some(c),
            ))) by {
                assert(self.pending() =~= word + (mid_peeked + mid_stream.map_values(
                    |c: char| Some(c),
                )));
            }
            assert(mid_peeked + mid_stream.map_values(|c: char| Some(c)) == seq![q[j as int]]
                + q.skip(j + 1 as int));
            assert(word + (seq![q[j as int]] + q.skip(j + 1 as int)) =~= word + seq![
                q[j as int],
            ] + q.skip(j + 1 as int));
        }
        Ok(result)
    }
}

} // verus!
