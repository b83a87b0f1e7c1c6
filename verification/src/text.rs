//! Decimal and hexadecimal text: rendering numbers into strings and parsing
//! them back, with exact character-level specifications. The catalog uses
//! these for identifier rendering (`u7`, `s5044`), for the legacy
//! content-version probe, and for the cluster-identity encoding.

use vstd::prelude::*;

verus! {

/// The character standing for one decimal digit value.
pub open spec fn dec_digit_char(d: nat) -> char {
    if d == 0 {
        '0'
    } else if d == 1 {
        '1'
    } else if d == 2 {
        '2'
    } else if d == 3 {
        '3'
    } else if d == 4 {
        '4'
    } else if d == 5 {
        '5'
    } else if d == 6 {
        '6'
    } else if d == 7 {
        '7'
    } else if d == 8 {
        '8'
    } else {
        '9'
    }
}

/// The canonical decimal numeral of `n`, most significant digit first,
/// without leading zeros (except for `n == 0`, which is `"0"`).
pub open spec fn dec_seq(n: nat) -> Seq<char>
    decreases n,
{
    if n < 10 {
        seq![dec_digit_char(n)]
    } else {
        dec_seq(n / 10).push(dec_digit_char(n % 10))
    }
}

/// The canonical decimal numeral of a signed value: a `-` sign followed by
/// the numeral of the magnitude when negative.
pub open spec fn dec_seq_signed(i: int) -> Seq<char> {
    if i >= 0 {
        dec_seq(i as nat)
    } else {
        seq!['-'] + dec_seq((-i) as nat)
    }
}

/// Whether `c` is a decimal digit.
pub open spec fn is_dec_digit(c: char) -> bool {
    '0' <= c && c <= '9'
}

/// The value of one decimal digit character.
pub open spec fn dec_digit_val(c: char) -> nat {
    (c as nat - '0' as nat) as nat
}

/// Whether every character of `s` is a decimal digit.
pub open spec fn all_dec_digits(s: Seq<char>) -> bool {
    forall|i: int| 0 <= i < s.len() ==> is_dec_digit(#[trigger] s[i])
}

/// The numeric value of a digit string (leading zeros allowed).
pub open spec fn dec_val(s: Seq<char>) -> nat
    decreases s.len(),
{
    if s.len() == 0 {
        0
    } else {
        dec_val(s.drop_last()) * 10 + dec_digit_val(s.last())
    }
}

/// A string parses as an unsigned numeral exactly when it is nonempty and
/// all digits; this is the domain of `str::parse` for unsigned integers,
/// up to the range check.
pub open spec fn is_numeral(s: Seq<char>) -> bool {
    s.len() > 0 && all_dec_digits(s)
}

/// A one-character string for a decimal digit value.
fn dec_digit_str(d: u64) -> (s: &'static str)
    requires
        d < 10,
    ensures
        s@ =~= seq![dec_digit_char(d as nat)],
{
    if d == 0 {
        let s = "0";
        proof {
            reveal_strlit("0");
        }
        s
    } else if d == 1 {
        let s = "1";
        proof {
            reveal_strlit("1");
        }
        s
    } else if d == 2 {
        let s = "2";
        proof {
            reveal_strlit("2");
        }
        s
    } else if d == 3 {
        let s = "3";
        proof {
            reveal_strlit("3");
        }
        s
    } else if d == 4 {
        let s = "4";
        proof {
            reveal_strlit("4");
        }
        s
    } else if d == 5 {
        let s = "5";
        proof {
            reveal_strlit("5");
        }
        s
    } else if d == 6 {
        let s = "6";
        proof {
            reveal_strlit("6");
        }
        s
    } else if d == 7 {
        let s = "7";
        proof {
            reveal_strlit("7");
        }
        s
    } else if d == 8 {
        let s = "8";
        proof {
            reveal_strlit("8");
        }
        s
    } else {
        let s = "9";
        proof {
            reveal_strlit("9");
        }
        s
    }
}

/// Renders `n` as its canonical decimal numeral.
pub fn u64_to_string(n: u64) -> (s: String)
    ensures
        s@ == dec_seq(n as nat),
    decreases n,
{
    if n < 10 {
        String::from_str(dec_digit_str(n))
    } else {
        let mut s = u64_to_string(n / 10);
        s.append(dec_digit_str(n % 10));
        proof {
            assert(s@ =~= dec_seq(n as nat));
        }
        s
    }
}

/// Renders a signed value as its canonical decimal numeral.
pub fn i64_to_string(n: i64) -> (s: String)
    ensures
        s@ == dec_seq_signed(n as int),
{
    if n >= 0 {
        u64_to_string(n as u64)
    } else {
        // Negate via `n + 1` so that `i64::MIN` stays in range.
        let mag: u64 = (-(n + 1)) as u64 + 1;
        proof {
            reveal_strlit("-");
        }
        let mut s = String::from_str("-");
        let digits = u64_to_string(mag);
        s.append(digits.as_str());
        proof {
            assert(s@ =~= dec_seq_signed(n as int));
        }
        s
    }
}

/// Parses an unsigned numeral with an explicit bound: returns the value
/// exactly when the string is a numeral whose value is at most `bound`.
/// This is the behaviour of `str::parse` for an unsigned integer type whose
/// maximum is `bound`.
pub fn parse_u64_bounded(s: &str, bound: u64) -> (r: Option<u64>)
    ensures
        r is Some <==> is_numeral(s@) && dec_val(s@) <= bound,
        r is Some ==> r->0 == dec_val(s@) && dec_val(s@) <= bound,
{
    let n = s.unicode_len();
    if n == 0 {
        return None;
    }
    let mut acc: u64 = 0;
    let mut i: usize = 0;
    while i < n
        invariant
            0 <= i <= n,
            n == s@.len(),
            all_dec_digits(s@.subrange(0, i as int)),
            acc == dec_val(s@.subrange(0, i as int)),
            acc <= bound,
            bound <= u64::MAX,
        decreases n - i,
    {
        let c = s.get_char(i);
        let v = c as u32;
        if v < 48 || v > 57 {
            proof {
                assert(!is_dec_digit(s@[i as int]));
            }
            return None;
        }
        let d = (v - 48) as u64;
        proof {
            assert(is_dec_digit(s@[i as int]));
            assert(d == dec_digit_val(s@[i as int]));
        }
        // Reject as soon as the accumulated value would pass the bound.
        if acc > bound / 10 || (acc == bound / 10 && d > bound % 10) {
            proof {
                let pre = s@.subrange(0, i as int);
                let ext = s@.subrange(0, i + 1 as int);
                assert(ext.drop_last() =~= pre);
                assert(dec_val(ext) == acc * 10 + d);
                lemma_dec_val_monotonic(ext, s@);
            }
            return None;
        }
        acc = acc * 10 + d;
        proof {
            let pre = s@.subrange(0, i as int);
            let ext = s@.subrange(0, i + 1 as int);
            assert(ext.drop_last() =~= pre);
            assert(ext.last() == s@[i as int]);
        }
        i = i + 1;
    }
    proof {
        assert(s@.subrange(0, n as int) =~= s@);
    }
    Some(acc)
}

/// Extending a digit string never decreases its value.
proof fn lemma_dec_val_monotonic(p: Seq<char>, s: Seq<char>)
    requires
        p.len() <= s.len(),
        forall|i: int| 0 <= i < p.len() ==> p[i] == s[i],
    ensures
        dec_val(p) <= dec_val(s),
    decreases s.len(),
{
    if p.len() == s.len() {
        assert(p =~= s);
    } else {
        lemma_dec_val_monotonic(p, s.drop_last());
        assert(dec_val(s) == dec_val(s.drop_last()) * 10 + dec_digit_val(s.last()));
    }
}

/// Compares two string slices by their characters.
pub fn str_eq(a: &str, b: &str) -> (r: bool)
    ensures
        r == (a@ == b@),
{
    let n = a.unicode_len();
    let m = b.unicode_len();
    if n != m {
        return false;
    }
    let mut i: usize = 0;
    while i < n
        invariant
            0 <= i <= n,
            n == a@.len(),
            n == b@.len(),
            forall|k: int| 0 <= k < i ==> a@[k] == b@[k],
        decreases n - i,
    {
        if a.get_char(i) != b.get_char(i) {
            return false;
        }
        i = i + 1;
    }
    proof {
        assert(a@ =~= b@);
    }
    true
}

/// Compares a string slice with an owned string by their characters.
pub fn str_eq_string(a: &str, b: &String) -> (r: bool)
    ensures
        r == (a@ == b@),
{
    str_eq(a, b.as_str())
}

/// The character standing for one hexadecimal digit value, lower case.
pub open spec fn hex_digit_char(d: nat) -> char {
    if d < 10 {
        dec_digit_char(d)
    } else if d == 10 {
        'a'
    } else if d == 11 {
        'b'
    } else if d == 12 {
        'c'
    } else if d == 13 {
        'd'
    } else if d == 14 {
        'e'
    } else {
        'f'
    }
}

/// The two-character lower-case hexadecimal rendering of one byte.
pub open spec fn hex_byte_seq(b: nat) -> Seq<char> {
    seq![hex_digit_char(b / 16), hex_digit_char(b % 16)]
}

/// Whether `c` is a lower-case hexadecimal digit.
pub open spec fn is_hex_digit(c: char) -> bool {
    ('0' <= c && c <= '9') || ('a' <= c && c <= 'f')
}

/// The value of one lower-case hexadecimal digit character.
pub open spec fn hex_digit_val(c: char) -> nat {
    if '0' <= c && c <= '9' {
        (c as nat - '0' as nat) as nat
    } else {
        (c as nat - 'a' as nat + 10) as nat
    }
}

/// A one-character string for a hexadecimal digit value.
fn hex_digit_str(d: u64) -> (s: &'static str)
    requires
        d < 16,
    ensures
        s@ =~= seq![hex_digit_char(d as nat)],
{
    if d < 10 {
        dec_digit_str(d)
    } else if d == 10 {
        let s = "a";
        proof {
            reveal_strlit("a");
        }
        s
    } else if d == 11 {
        let s = "b";
        proof {
            reveal_strlit("b");
        }
        s
    } else if d == 12 {
        let s = "c";
        proof {
            reveal_strlit("c");
        }
        s
    } else if d == 13 {
        let s = "d";
        proof {
            reveal_strlit("d");
        }
        s
    } else if d == 14 {
        let s = "e";
        proof {
            reveal_strlit("e");
        }
        s
    } else {
        let s = "f";
        proof {
            reveal_strlit("f");
        }
        s
    }
}

/// Appends the two-digit hexadecimal rendering of `b` to `s`.
pub fn push_hex_byte(s: &mut String, b: u8)
    ensures
        final(s)@ == old(s)@ + hex_byte_seq(b as nat),
{
    s.append(hex_digit_str((b / 16) as u64));
    s.append(hex_digit_str((b % 16) as u64));
    proof {
        assert(s@ =~= old(s)@ + hex_byte_seq(b as nat));
    }
}

/// Parses two hexadecimal digit characters into a byte value.
pub fn parse_hex_byte(hi: char, lo: char) -> (r: Option<u8>)
    ensures
        r is Some <==> is_hex_digit(hi) && is_hex_digit(lo),
        r is Some ==> r->0 as nat == hex_digit_val(hi) * 16 + hex_digit_val(lo),
{
    let h = hex_digit_of_char(hi);
    let l = hex_digit_of_char(lo);
    match (h, l) {
        (Some(h), Some(l)) => Some(h * 16 + l),
        _ => None,
    }
}

/// The value of one hexadecimal digit character, if it is one.
fn hex_digit_of_char(c: char) -> (r: Option<u8>)
    ensures
        r is Some <==> is_hex_digit(c),
        r is Some ==> r->0 as nat == hex_digit_val(c),
{
    let v = c as u32;
    if 48 <= v && v <= 57 {
        Some((v - 48) as u8)
    } else if 97 <= v && v <= 102 {
        Some((v - 97 + 10) as u8)
    } else {
        None
    }
}

} // verus!

verus! {

/// Relies on String::from_utf8: valid UTF-8 bytes become the string of
/// those bytes; ASCII input always succeeds and yields its bytes as
/// characters one for one.
#[verifier::external_body]
pub fn utf8_string(b: Vec<u8>) -> (r: Option<String>)
    ensures
        r is Some <== forall|i: int| 0 <= i < b@.len() ==> b@[i] < 128,
        r matches Some(s) ==> ((forall|i: int| 0 <= i < b@.len() ==> b@[i] < 128) ==> s@ == b@.map(
            |i: int, c: u8| c as char,
        )),
{
    String::from_utf8(b).ok()
}

} // verus!
