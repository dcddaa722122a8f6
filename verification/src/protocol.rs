//! The tagged-line wire protocol: a line addressed to (or coming from) a
//! numeric participant id has the form `<id><delimiter><payload>`, where
//! `<id>` is a non-negative decimal integer and only the first occurrence
//! of the delimiter separates the id from the payload.

use vstd::prelude::*;
use vstd::arithmetic::div_mod::lemma_fundamental_div_mod;
use vstd::string::StrSliceExecFns;
use vstd::string::StringExecFns;

verus! {

/// How a line can break the tagged-line grammar.
#[derive(Clone, Copy, PartialEq, Eq, Structural, Debug)]
pub enum ProtocolError {
    /// The line has no delimiter, or its prefix is not a valid
    /// non-negative decimal integer.
    MalformedTag,
    /// The decoded id has no entry in the routing table.
    RecipientOutOfRange,
}

/// The delimiter the orchestrator runs with unless configured otherwise.
pub const DEFAULT_DELIMITER: char = ':';

pub open spec fn is_digit(c: char) -> bool {
    48 <= c as u32 <= 57
}

/// The numeric value of a decimal digit character.
pub open spec fn digit_val(c: char) -> int {
    c as u32 - 48
}

/// The decimal digit character for a value below ten.
pub open spec fn digit_char(d: int) -> char {
    if d == 0 {
        '0'
    } else if d == 1 {
        '1'
    } else if d == 2 {
        '2'
    } else if d == 3 {
        '3'
    } else if d == 4 {
        '4'
    } else if d == 5 {
        '5'
    } else if d == 6 {
        '6'
    } else if d == 7 {
        '7'
    } else if d == 8 {
        '8'
    } else {
        '9'
    }
}

pub open spec fn all_digits(s: Seq<char>) -> bool {
    forall|i: int| 0 <= i < s.len() ==> is_digit(s[i])
}

/// The non-negative integer denoted by a sequence of decimal digits
/// (most significant first); an empty sequence denotes zero.
pub open spec fn digits_value(s: Seq<char>) -> int
    decreases s.len(),
{
    if s.len() == 0 {
        0
    } else {
        digits_value(s.drop_last()) * 10 + digit_val(s.last())
    }
}

/// The canonical decimal rendering of a non-negative integer: no sign,
/// no leading zero except for zero itself.
pub open spec fn decimal_chars(n: int) -> Seq<char>
    recommends
        0 <= n,
    decreases n,
{
    if n < 10 {
        seq![digit_char(n)]
    } else {
        decimal_chars(n / 10).push(digit_char(n % 10))
    }
}

/// The wire form of a tagged line (without the terminating newline):
/// the decimal id, the delimiter, then the payload unchanged.
pub open spec fn encode_spec(id: int, payload: Seq<char>, delimiter: char) -> Seq<char> {
    decimal_chars(id) + seq![delimiter] + payload
}

/// The index of the first occurrence of `d` in `s`, or -1 if absent.
pub open spec fn first_occurrence(s: Seq<char>, d: char) -> int
    decreases s.len(),
{
    if s.len() == 0 {
        -1
    } else if s[0] == d {
        0
    } else {
        let rest = first_occurrence(s.skip(1), d);
        if rest == -1 {
            -1
        } else {
            rest + 1
        }
    }
}

/// What a received line means: split at the first delimiter; the prefix
/// must be a non-empty run of decimal digits and gives the id, the rest
/// of the line (which may itself contain the delimiter) is the payload.
/// `None` means the line breaks the grammar.
pub open spec fn decode_spec(s: Seq<char>, delimiter: char) -> Option<(int, Seq<char>)> {
    let k = first_occurrence(s, delimiter);
    if k < 1 {
        None
    } else {
        let prefix = s.subrange(0, k);
        if all_digits(prefix) {
            Some((digits_value(prefix), s.subrange(k + 1, s.len() as int)))
        } else {
            None
        }
    }
}

/// A decoded tagged line.
pub struct TaggedLine {
    pub id: usize,
    pub payload: String,
}

fn digit_str(d: usize) -> (r: &'static str)
    requires
        d < 10,
    ensures
        r@ =~= seq![digit_char(d as int)],
{
    proof {
        reveal_strlit("0");
        reveal_strlit("1");
        reveal_strlit("2");
        reveal_strlit("3");
        reveal_strlit("4");
        reveal_strlit("5");
        reveal_strlit("6");
        reveal_strlit("7");
        reveal_strlit("8");
        reveal_strlit("9");
    }
    match d {
        0 => "0",
        1 => "1",
        2 => "2",
        3 => "3",
        4 => "4",
        5 => "5",
        6 => "6",
        7 => "7",
        8 => "8",
        _ => "9",
    }
}

/// Relies on std's `String::push`: appends exactly the one character.
#[verifier::external_body]
pub fn push_char(s: &mut String, c: char)
    ensures
        final(s)@ == old(s)@.push(c),
{
    s.push(c)
}

/// Appends the canonical decimal rendering of `n`.
pub fn push_decimal(out: &mut String, n: usize)
    ensures
        final(out)@ == old(out)@ + decimal_chars(n as int),
    decreases n,
{
    if n < 10 {
        out.append(digit_str(n));
        proof {
            assert(old(out)@ + decimal_chars(n as int) =~= out@);
        }
    } else {
        push_decimal(out, n / 10);
        out.append(digit_str(n % 10));
        proof {
            assert(old(out)@ + decimal_chars(n as int) =~= out@);
        }
    }
}

/// Produces the wire form of a tagged line: the decimal id, the
/// delimiter, then the payload (no terminating newline).
pub fn encode(id: usize, payload: &str, delimiter: char) -> (r: String)
    ensures
        r@ == encode_spec(id as int, payload@, delimiter),
{
    let mut out = String::new();
    push_decimal(&mut out, id);
    push_char(&mut out, delimiter);
    out.append(payload);
    proof {
        assert(out@ =~= encode_spec(id as int, payload@, delimiter));
    }
    out
}

/// The index of the first occurrence of `d` in `s`, if any.
pub fn find_char(s: &str, d: char) -> (r: Option<usize>)
    ensures
        match r {
            Some(k) => first_occurrence(s@, d) == k as int && (k as int) < s@.len(),
            None => first_occurrence(s@, d) == -1,
        },
{
    let len = s.unicode_len();
    let mut k: usize = 0;
    while k < len && s.get_char(k) != d
        invariant
            k <= len,
            len == s@.len(),
            forall|j: int| 0 <= j < k ==> s@[j] != d,
        decreases len - k,
    {
        k += 1;
    }
    if k >= len {
        proof {
            lemma_first_occurrence_none(s@, d);
        }
        None
    } else {
        proof {
            lemma_first_occurrence_at(s@, d, k as int);
        }
        Some(k)
    }
}

pub(crate) proof fn lemma_first_occurrence_at(s: Seq<char>, d: char, k: int)
    requires
        0 <= k < s.len(),
        s[k] == d,
        forall|j: int| 0 <= j < k ==> s[j] != d,
    ensures
        first_occurrence(s, d) == k,
    decreases k,
{
    if k > 0 {
        lemma_first_occurrence_at(s.skip(1), d, k - 1);
    }
}

pub(crate) proof fn lemma_first_occurrence_none(s: Seq<char>, d: char)
    requires
        forall|j: int| 0 <= j < s.len() ==> s[j] != d,
    ensures
        first_occurrence(s, d) == -1,
    decreases s.len(),
{
    if s.len() > 0 {
        lemma_first_occurrence_none(s.skip(1), d);
    }
}

pub(crate) proof fn lemma_digits_value_nonneg(s: Seq<char>)
    requires
        all_digits(s),
    ensures
        0 <= digits_value(s),
    decreases s.len(),
{
    if s.len() > 0 {
        assert(all_digits(s.drop_last()));
        lemma_digits_value_nonneg(s.drop_last());
        assert(is_digit(s.last()));
    }
}

pub(crate) proof fn lemma_digits_value_take_le(s: Seq<char>, i: int)
    requires
        all_digits(s),
        0 <= i <= s.len(),
    ensures
        digits_value(s.take(i)) <= digits_value(s),
    decreases s.len() - i,
{
    if i == s.len() {
        assert(s.take(i) =~= s);
    } else {
        lemma_digits_value_take_le(s, i + 1);
        assert(s.take(i + 1).drop_last() =~= s.take(i));
        assert(s.take(i + 1).last() == s[i]);
        assert(all_digits(s.take(i)));
        lemma_digits_value_nonneg(s.take(i));
        assert(is_digit(s[i]));
    }
}

/// Every non-negative integer's canonical decimal rendering is a
/// non-empty digit run that denotes the integer itself.
pub proof fn lemma_decimal_chars_value(n: int)
    requires
        0 <= n,
    ensures
        all_digits(decimal_chars(n)),
        decimal_chars(n).len() >= 1,
        digits_value(decimal_chars(n)) == n,
    decreases n,
{
    reveal_with_fuel(digits_value, 3);
    if n < 10 {
        let s = decimal_chars(n);
        assert(s == seq![digit_char(n)]);
        assert(s.drop_last() =~= Seq::<char>::empty());
        assert(digits_value(Seq::<char>::empty()) == 0);
        assert(s.last() == digit_char(n));
        assert(digits_value(s) == digits_value(s.drop_last()) * 10 + digit_val(s.last()));
        assert(digit_val(digit_char(n)) == n);
    } else {
        lemma_decimal_chars_value(n / 10);
        lemma_fundamental_div_mod(n, 10);
        let prev = decimal_chars(n / 10);
        let s = decimal_chars(n);
        assert(s == prev.push(digit_char(n % 10)));
        assert(s.drop_last() =~= prev);
        assert(s.last() == digit_char(n % 10));
        assert(0 <= n % 10 < 10);
        assert(digit_val(digit_char(n % 10)) == n % 10);
        assert(digits_value(s) == digits_value(s.drop_last()) * 10 + digit_val(s.last()));
        assert(digits_value(s) == (n / 10) * 10 + n % 10);
        assert(all_digits(s)) by {
            assert(forall|j: int| 0 <= j < s.len() - 1 ==> s[j] == prev[j]);
        }
    }
}

proof fn lemma_first_occurrence_append(a: Seq<char>, d: char, p: Seq<char>)
    requires
        forall|j: int| 0 <= j < a.len() ==> a[j] != d,
    ensures
        first_occurrence(a + seq![d] + p, d) == a.len(),
    decreases a.len(),
{
    let s = a + seq![d] + p;
    if a.len() == 0 {
        assert(s[0] == d);
    } else {
        assert(s[0] == a[0]);
        lemma_first_occurrence_append(a.skip(1), d, p);
        assert(s.skip(1) =~= a.skip(1) + seq![d] + p);
    }
}

/// Round trip: a line encoded from any id and payload decodes back to
/// exactly that id and payload, for any delimiter that is not itself a
/// decimal digit. (A payload may even contain the delimiter: only the
/// first occurrence splits.) The payload must not contain a newline for
/// the line to survive the wire unchanged; that framing is outside this
/// statement.
pub proof fn lemma_encode_decode_round_trip(id: int, payload: Seq<char>, delimiter: char)
    requires
        0 <= id,
        !is_digit(delimiter),
    ensures
        decode_spec(encode_spec(id, payload, delimiter), delimiter) == Some((id, payload)),
{
    let digits = decimal_chars(id);
    lemma_decimal_chars_value(id);
    let s = encode_spec(id, payload, delimiter);
    assert(forall|j: int| 0 <= j < digits.len() ==> digits[j] != delimiter);
    lemma_first_occurrence_append(digits, delimiter, payload);
    let k = digits.len() as int;
    assert(first_occurrence(s, delimiter) == k);
    assert(s.subrange(0, k) =~= digits);
    assert(s.subrange(k + 1, s.len() as int) =~= payload);
}

/// Splits a received line at the first delimiter and parses the prefix
/// as a non-negative decimal id. Returns `MalformedTag` exactly when the
/// line breaks the grammar — no delimiter, an empty prefix, or a
/// non-digit in the prefix — or when the id does not fit in `usize`.
pub fn decode(line: &str, delimiter: char) -> (r: Result<TaggedLine, ProtocolError>)
    ensures
        ({
            let d = decode_spec(line@, delimiter);
            match r {
                Ok(t) => d == Some((t.id as int, t.payload@)),
                Err(e) => e == ProtocolError::MalformedTag && (match d {
                    Some(p) => p.0 > usize::MAX,
                    None => true,
                }),
            }
        }),
{
    match scan_tag(line, delimiter) {
        TagScan::Valid(t) => Ok(t),
        TagScan::Oversized => Err(ProtocolError::MalformedTag),
        TagScan::Invalid => Err(ProtocolError::MalformedTag),
    }
}

/// The outcome of scanning a line against the tagged-line grammar,
/// keeping lines whose id is grammatical but too large for `usize`
/// apart from lines that break the grammar.
pub enum TagScan {
    /// The line is well-formed and its id fits in `usize`.
    Valid(TaggedLine),
    /// The line is well-formed but its id exceeds `usize::MAX`.
    Oversized,
    /// The line breaks the grammar.
    Invalid,
}

/// Splits a line at the first delimiter and parses the decimal prefix,
/// classifying the line exactly as `decode_spec` does.
pub fn scan_tag(line: &str, delimiter: char) -> (r: TagScan)
    ensures
        ({
            let d = decode_spec(line@, delimiter);
            match r {
                TagScan::Valid(t) => d == Some((t.id as int, t.payload@)),
                TagScan::Oversized => (match d {
                    Some(p) => p.0 > usize::MAX,
                    None => false,
                }),
                TagScan::Invalid => d is None,
            }
        }),
{
    let len = line.unicode_len();
    let mut k: usize = 0;
    while k < len && line.get_char(k) != delimiter
        invariant
            k <= len,
            len == line@.len(),
            forall|j: int| 0 <= j < k ==> line@[j] != delimiter,
        decreases len - k,
    {
        k += 1;
    }
    if k >= len {
        proof {
            lemma_first_occurrence_none(line@, delimiter);
        }
        return TagScan::Invalid;
    }
    proof {
        lemma_first_occurrence_at(line@, delimiter, k as int);
    }
    if k == 0 {
        return TagScan::Invalid;
    }
    let ghost prefix = line@.subrange(0, k as int);
    let mut i: usize = 0;
    let mut val: usize = 0;
    let mut too_big: bool = false;
    while i < k
        invariant
            0 <= i <= k,
            1 <= k,
            k < len,
            len == line@.len(),
            first_occurrence(line@, delimiter) == k as int,
            prefix == line@.subrange(0, k as int),
            all_digits(prefix.take(i as int)),
            !too_big ==> val == digits_value(prefix.take(i as int)),
            too_big ==> digits_value(prefix.take(i as int)) > usize::MAX,
        decreases k - i,
    {
        let c = line.get_char(i);
        let v = c as u32;
        if v < 48 || v > 57 {
            proof {
                assert(prefix[i as int] == line@[i as int]);
                assert(!is_digit(prefix[i as int]));
                assert(!all_digits(prefix));
                assert(decode_spec(line@, delimiter) == None::<(int, Seq<char>)>);
            }
            return TagScan::Invalid;
        }
        let dv = (v - 48) as usize;
        proof {
            assert(prefix.take(i as int + 1).drop_last() =~= prefix.take(i as int));
            assert(prefix.take(i as int + 1).last() == prefix[i as int]);
            assert(is_digit(prefix[i as int]));
            assert(digit_val(prefix[i as int]) == dv as int);
            assert(all_digits(prefix.take(i as int + 1))) by {
                assert(forall|j: int|
                    0 <= j < i ==> prefix.take(i as int + 1)[j] == prefix.take(i as int)[j]);
            }
            assert(digits_value(prefix.take(i as int + 1)) == digits_value(
                prefix.take(i as int),
            ) * 10 + dv);
        }
        if too_big {
            proof {
                lemma_digits_value_nonneg(prefix.take(i as int));
            }
        } else if val > (usize::MAX - dv) / 10 {
            proof {
                assert(val * 10 + dv > usize::MAX) by (nonlinear_arith)
                    requires
                        val > (usize::MAX - dv) / 10,
                        0 <= dv <= 9,
                        dv <= usize::MAX,
                        0 <= val,
                ;
            }
            too_big = true;
        } else {
            proof {
                assert(val * 10 + dv <= usize::MAX) by (nonlinear_arith)
                    requires
                        val <= (usize::MAX - dv) / 10,
                        0 <= dv <= 9,
                        dv <= usize::MAX,
                        0 <= val,
                ;
            }
            val = val * 10 + dv;
        }
        i += 1;
    }
    proof {
        assert(prefix.take(k as int) =~= prefix);
    }
    if too_big {
        return TagScan::Oversized;
    }
    let payload_str = line.substring_char(k + 1, len);
    let payload = payload_str.to_owned();
    proof {
        assert(payload@ == line@.subrange(k as int + 1, len as int));
    }
    TagScan::Valid(TaggedLine { id: val, payload })
}

} // verus!

