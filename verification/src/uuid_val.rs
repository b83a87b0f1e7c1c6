//! The cluster identity: a version-4 UUID generated once on first
//! initialization, rendered in the canonical hyphenated lower-case form in
//! which it is persisted.

use vstd::prelude::*;

use crate::text::{
    hex_byte_seq, hex_digit_char, hex_digit_val, is_hex_digit, parse_hex_byte, push_hex_byte,
};

verus! {

/// A universally unique identifier, held as its sixteen bytes.
#[derive(Debug, PartialEq, Eq)]
pub struct Uuid {
    bytes: Vec<u8>,
}

/// The canonical lower-case hexadecimal rendering of a byte run.
pub open spec fn hex_run(b: Seq<u8>) -> Seq<char>
    decreases b.len(),
{
    if b.len() == 0 {
        Seq::empty()
    } else {
        hex_run(b.drop_last()) + hex_byte_seq(b.last() as nat)
    }
}

/// The canonical hyphenated text of sixteen UUID bytes:
/// 8-4-4-4-12 lower-case hexadecimal digits.
pub open spec fn uuid_text(b: Seq<u8>) -> Seq<char> {
    hex_run(b.subrange(0, 4)) + seq!['-'] + hex_run(b.subrange(4, 6)) + seq!['-'] + hex_run(
        b.subrange(6, 8),
    ) + seq!['-'] + hex_run(b.subrange(8, 10)) + seq!['-'] + hex_run(b.subrange(10, 16))
}

/// Whether a character sequence has the hyphenated UUID shape: 36 characters
/// with hyphens at positions 8, 13, 18 and 23 and lower-case hexadecimal
/// digits everywhere else.
pub open spec fn is_uuid_text(s: Seq<char>) -> bool {
    &&& s.len() == 36
    &&& forall|i: int|
        0 <= i < 36 ==> if i == 8 || i == 13 || i == 18 || i == 23 {
            s[i] == '-'
        } else {
            is_hex_digit(#[trigger] s[i])
        }
}

impl Uuid {
    /// The sixteen bytes of this identifier.
    pub closed spec fn bytes_spec(&self) -> Seq<u8> {
        self.bytes@
    }

    /// A structurally sound identifier: exactly sixteen bytes.
    pub open spec fn wf(&self) -> bool {
        self.bytes_spec().len() == 16
    }

    /// Builds an identifier from sixteen bytes.
    pub fn from_bytes(bytes: Vec<u8>) -> (r: Uuid)
        requires
            bytes@.len() == 16,
        ensures
            r.wf(),
            r.bytes_spec() == bytes@,
    {
        Uuid { bytes }
    }

    /// A copy of this identifier.
    pub fn clone_id(&self) -> (r: Uuid)
        ensures
            r.bytes_spec() == self.bytes_spec(),
    {
        let mut bytes: Vec<u8> = Vec::new();
        let n = self.bytes.len();
        let mut i: usize = 0;
        while i < n
            invariant
                0 <= i <= n,
                n == self.bytes@.len(),
                bytes@ == self.bytes@.subrange(0, i as int),
            decreases n - i,
        {
            bytes.push(self.bytes[i]);
            proof {
                assert(bytes@ =~= self.bytes@.subrange(0, i + 1 as int));
            }
            i = i + 1;
        }
        proof {
            assert(self.bytes@.subrange(0, n as int) =~= self.bytes@);
        }
        Uuid { bytes }
    }

    /// Generates a fresh version-4 identifier from random input.
    pub fn new_v4() -> (r: Uuid)
        ensures
            r.wf(),
            0x40 <= r.bytes_spec()[6] < 0x50,
            0x80 <= r.bytes_spec()[8] < 0xc0,
    {
        let bytes = gen_uuid_v4_bytes();
        Uuid { bytes }
    }

    /// Renders this identifier in hyphenated lower-case form.
    pub fn to_text(&self) -> (s: String)
        requires
            self.wf(),
        ensures
            s@ == uuid_text(self.bytes_spec()),
            is_uuid_text(s@),
    {
        let mut s = String::new();
        push_hex_run(&mut s, &self.bytes, 0, 4);
        push_hyphen(&mut s);
        push_hex_run(&mut s, &self.bytes, 4, 6);
        push_hyphen(&mut s);
        push_hex_run(&mut s, &self.bytes, 6, 8);
        push_hyphen(&mut s);
        push_hex_run(&mut s, &self.bytes, 8, 10);
        push_hyphen(&mut s);
        push_hex_run(&mut s, &self.bytes, 10, 16);
        proof {
            assert(s@ =~= uuid_text(self.bytes@));
            lemma_uuid_text_shape(self.bytes@);
        }
        s
    }

    /// Parses the hyphenated lower-case form back into an identifier.
    pub fn parse(s: &str) -> (r: Option<Uuid>)
        ensures
            r is Some <==> is_uuid_text(s@),
            r matches Some(u) ==> u.wf() && uuid_text(u.bytes_spec()) == s@,
    {
        let n = s.unicode_len();
        if n != 36 {
            return None;
        }
        let mut bytes: Vec<u8> = Vec::new();
        if !parse_hex_run(s, 0, 4, &mut bytes) {
            return None;
        }
        let ghost b1 = bytes@;
        if s.get_char(8) != '-' {
            return None;
        }
        if !parse_hex_run(s, 9, 2, &mut bytes) {
            return None;
        }
        let ghost b2 = bytes@;
        if s.get_char(13) != '-' {
            return None;
        }
        if !parse_hex_run(s, 14, 2, &mut bytes) {
            return None;
        }
        let ghost b3 = bytes@;
        if s.get_char(18) != '-' {
            return None;
        }
        if !parse_hex_run(s, 19, 2, &mut bytes) {
            return None;
        }
        let ghost b4 = bytes@;
        if s.get_char(23) != '-' {
            return None;
        }
        if !parse_hex_run(s, 24, 6, &mut bytes) {
            return None;
        }
        proof {
            let b = bytes@;
            assert(b.len() == 16);
            // Earlier runs' bytes are preserved by the later appends.
            assert(b2.subrange(0, 4) == b1);
            assert(b3.subrange(0, 6) == b2);
            assert(b4.subrange(0, 8) == b3);
            assert(b.subrange(0, 10) == b4);
            assert forall|k: int| 0 <= k < 4 implies (#[trigger] b[k] as nat) == hex_digit_val(
                s@[2 * k],
            ) * 16 + hex_digit_val(s@[2 * k + 1]) by {
                assert(b[k] == b.subrange(0, 10)[k]);
                assert(b4[k] == b4.subrange(0, 8)[k]);
                assert(b3[k] == b3.subrange(0, 6)[k]);
                assert(b2[k] == b2.subrange(0, 4)[k]);
                assert(b1[k] as nat == hex_digit_val(s@[0 + 2 * k]) * 16 + hex_digit_val(
                    s@[0 + 2 * k + 1],
                ));
            }
            assert forall|k: int| 4 <= k < 6 implies (#[trigger] b[k] as nat) == hex_digit_val(
                s@[9 + 2 * (k - 4)],
            ) * 16 + hex_digit_val(s@[9 + 2 * (k - 4) + 1]) by {
                assert(b[k] == b.subrange(0, 10)[k]);
                assert(b4[k] == b4.subrange(0, 8)[k]);
                assert(b3[k] == b3.subrange(0, 6)[k]);
                assert(b2[b1.len() + (k - 4)] as nat == hex_digit_val(s@[9 + 2 * (k - 4)]) * 16
                    + hex_digit_val(s@[9 + 2 * (k - 4) + 1]));
            }
            assert forall|k: int| 6 <= k < 8 implies (#[trigger] b[k] as nat) == hex_digit_val(
                s@[14 + 2 * (k - 6)],
            ) * 16 + hex_digit_val(s@[14 + 2 * (k - 6) + 1]) by {
                assert(b[k] == b.subrange(0, 10)[k]);
                assert(b4[k] == b4.subrange(0, 8)[k]);
                assert(b3[b2.len() + (k - 6)] as nat == hex_digit_val(s@[14 + 2 * (k - 6)]) * 16
                    + hex_digit_val(s@[14 + 2 * (k - 6) + 1]));
            }
            assert forall|k: int| 8 <= k < 10 implies (#[trigger] b[k] as nat) == hex_digit_val(
                s@[19 + 2 * (k - 8)],
            ) * 16 + hex_digit_val(s@[19 + 2 * (k - 8) + 1]) by {
                assert(b[k] == b.subrange(0, 10)[k]);
                assert(b4[b3.len() + (k - 8)] as nat == hex_digit_val(s@[19 + 2 * (k - 8)]) * 16
                    + hex_digit_val(s@[19 + 2 * (k - 8) + 1]));
            }
            assert forall|k: int| 10 <= k < 16 implies (#[trigger] b[k] as nat) == hex_digit_val(
                s@[24 + 2 * (k - 10)],
            ) * 16 + hex_digit_val(s@[24 + 2 * (k - 10) + 1]) by {
                assert(b[b4.len() + (k - 10)] as nat == hex_digit_val(s@[24 + 2 * (k - 10)]) * 16
                    + hex_digit_val(s@[24 + 2 * (k - 10) + 1]));
            }
            assert forall|i: int| 0 <= i < 36 implies (if i == 8 || i == 13 || i == 18 || i == 23 {
                s@[i] == '-'
            } else {
                is_hex_digit(#[trigger] s@[i])
            }) by {
                if i < 8 {
                    let k = i / 2;
                    if i % 2 == 0 {
                        assert(i == 0 + 2 * k);
                        assert((b[k] as nat) == hex_digit_val(s@[2 * k]) * 16 + hex_digit_val(
                            s@[2 * k + 1],
                        ));
                        assert(b1[k] as nat == hex_digit_val(s@[0 + 2 * k]) * 16 + hex_digit_val(
                            s@[0 + 2 * k + 1],
                        ));
                        assert(is_hex_digit(s@[0 + 2 * k]));
                    } else {
                        assert(i == 0 + 2 * k + 1);
                        assert(is_hex_digit(s@[0 + 2 * k]));
                        assert(is_hex_digit(s@[0 + 2 * k + 1]));
                    }
                } else if i == 8 || i == 13 || i == 18 || i == 23 {
                } else if i < 13 {
                    let k = (i - 9) / 2;
                    if (i - 9) % 2 == 0 {
                        assert(i == 9 + 2 * k);
                        assert(is_hex_digit(s@[9 + 2 * k]));
                    } else {
                        assert(i == 9 + 2 * k + 1);
                        assert(is_hex_digit(s@[9 + 2 * k]));
                        assert(is_hex_digit(s@[9 + 2 * k + 1]));
                    }
                } else if i < 18 {
                    let k = (i - 14) / 2;
                    if (i - 14) % 2 == 0 {
                        assert(i == 14 + 2 * k);
                        assert(is_hex_digit(s@[14 + 2 * k]));
                    } else {
                        assert(i == 14 + 2 * k + 1);
                        assert(is_hex_digit(s@[14 + 2 * k]));
                        assert(is_hex_digit(s@[14 + 2 * k + 1]));
                    }
                } else if i < 23 {
                    let k = (i - 19) / 2;
                    if (i - 19) % 2 == 0 {
                        assert(i == 19 + 2 * k);
                        assert(is_hex_digit(s@[19 + 2 * k]));
                    } else {
                        assert(i == 19 + 2 * k + 1);
                        assert(is_hex_digit(s@[19 + 2 * k]));
                        assert(is_hex_digit(s@[19 + 2 * k + 1]));
                    }
                } else {
                    let k = (i - 24) / 2;
                    if (i - 24) % 2 == 0 {
                        assert(i == 24 + 2 * k);
                        assert(is_hex_digit(s@[24 + 2 * k]));
                    } else {
                        assert(i == 24 + 2 * k + 1);
                        assert(is_hex_digit(s@[24 + 2 * k]));
                        assert(is_hex_digit(s@[24 + 2 * k + 1]));
                    }
                }
            }
            assert(is_uuid_text(s@));
            lemma_parsed_runs_render(s@, bytes@);
        }
        Some(Uuid { bytes })
    }
}

/// Appends a hyphen.
fn push_hyphen(s: &mut String)
    ensures
        final(s)@ == old(s)@ + seq!['-'],
{
    proof {
        reveal_strlit("-");
    }
    s.append("-");
    proof {
        assert(s@ =~= old(s)@ + seq!['-']);
    }
}

/// Appends the hexadecimal rendering of `bytes[from..to]` to `s`.
fn push_hex_run(s: &mut String, bytes: &Vec<u8>, from: usize, to: usize)
    requires
        from <= to <= bytes@.len(),
    ensures
        final(s)@ == old(s)@ + hex_run(bytes@.subrange(from as int, to as int)),
{
    let mut i = from;
    while i < to
        invariant
            from <= i <= to <= bytes@.len(),
            s@ == old(s)@ + hex_run(bytes@.subrange(from as int, i as int)),
        decreases to - i,
    {
        push_hex_byte(s, bytes[i]);
        proof {
            let pre = bytes@.subrange(from as int, i as int);
            let ext = bytes@.subrange(from as int, i + 1 as int);
            assert(ext.drop_last() =~= pre);
            assert(ext.last() == bytes@[i as int]);
            assert(s@ =~= old(s)@ + hex_run(ext));
        }
        i = i + 1;
    }
}

/// Parses `count` bytes (two hexadecimal characters each) of `s` starting at
/// character `from`, appending them to `out`; reports whether every
/// character was a lower-case hexadecimal digit.
fn parse_hex_run(s: &str, from: usize, count: usize, out: &mut Vec<u8>) -> (ok: bool)
    requires
        from + 2 * count <= s@.len(),
        from + 2 * count <= usize::MAX,
    ensures
        ok ==> {
            &&& final(out)@.len() == old(out)@.len() + count
            &&& final(out)@.subrange(0, old(out)@.len() as int) == old(out)@
            &&& forall|k: int|
                0 <= k < count ==> is_hex_digit(#[trigger] s@[from + 2 * k]) && is_hex_digit(
                    s@[from + 2 * k + 1],
                ) && (final(out)@[old(out)@.len() + k] as nat) == hex_digit_val(s@[from + 2 * k])
                    * 16 + hex_digit_val(s@[from + 2 * k + 1])
        },
        !ok ==> exists|k: int|
            0 <= k < 2 * count && !is_hex_digit(#[trigger] s@[from + k]),
        final(out)@.len() >= old(out)@.len(),
    {
    let mut k: usize = 0;
    while k < count
        invariant
            0 <= k <= count,
            from + 2 * count <= s@.len(),
            from + 2 * count <= usize::MAX,
            out@.len() == old(out)@.len() + k,
            out@.subrange(0, old(out)@.len() as int) == old(out)@,
            forall|j: int|
                0 <= j < k ==> is_hex_digit(#[trigger] s@[from + 2 * j]) && is_hex_digit(
                    s@[from + 2 * j + 1],
                ) && (out@[old(out)@.len() + j] as nat) == hex_digit_val(s@[from + 2 * j]) * 16
                    + hex_digit_val(s@[from + 2 * j + 1]),
        decreases count - k,
    {
        let hi = s.get_char(from + 2 * k);
        let lo = s.get_char(from + 2 * k + 1);
        match parse_hex_byte(hi, lo) {
            Some(b) => {
                out.push(b);
                proof {
                    assert(out@.subrange(0, old(out)@.len() as int) =~= old(out)@);
                }
            }
            None => {
                proof {
                    let j: int = if !is_hex_digit(hi) {
                        2 * (k as int)
                    } else {
                        2 * (k as int) + 1
                    };
                    assert(0 <= j < 2 * count);
                    assert(!is_hex_digit(s@[from + j]));
                }
                return false;
            }
        }
        k = k + 1;
    }
    true
}

/// One lower-case hexadecimal digit renders back to itself.
proof fn lemma_hex_digit_roundtrip(c: char)
    requires
        is_hex_digit(c),
    ensures
        hex_digit_char(hex_digit_val(c)) == c,
{
}

/// A byte renders as the two digits it was parsed from.
proof fn lemma_hex_byte_roundtrip(hi: char, lo: char)
    requires
        is_hex_digit(hi),
        is_hex_digit(lo),
    ensures
        hex_byte_seq(hex_digit_val(hi) * 16 + hex_digit_val(lo)) == seq![hi, lo],
{
    let h = hex_digit_val(hi);
    let l = hex_digit_val(lo);
    let b = h * 16 + l;
    assert(b / 16 == h && b % 16 == l) by (nonlinear_arith)
        requires
            b == h * 16 + l,
            0 <= l < 16,
            0 <= h,
    ;
    lemma_hex_digit_roundtrip(hi);
    lemma_hex_digit_roundtrip(lo);
    assert(hex_byte_seq(b) =~= seq![hi, lo]);
}

/// A run of parsed bytes renders back to the characters it came from.
proof fn lemma_hex_run_roundtrip(s: Seq<char>, b: Seq<u8>)
    requires
        s.len() == 2 * b.len(),
        forall|k: int|
            0 <= k < b.len() ==> is_hex_digit(#[trigger] s[2 * k]) && is_hex_digit(s[2 * k + 1]) && (
            b[k] as nat) == hex_digit_val(s[2 * k]) * 16 + hex_digit_val(s[2 * k + 1]),
    ensures
        hex_run(b) == s,
    decreases b.len(),
{
    if b.len() == 0 {
        assert(hex_run(b) =~= s);
    } else {
        let n = b.len() - 1;
        let sp = s.subrange(0, 2 * n);
        lemma_hex_run_roundtrip(sp, b.drop_last());
        lemma_hex_byte_roundtrip(s[2 * n], s[2 * n + 1]);
        assert(hex_byte_seq(b.last() as nat) == seq![s[2 * n], s[2 * n + 1]]);
        assert(hex_run(b) =~= s);
    }
}

/// The rendered text of sixteen bytes has the hyphenated UUID shape.
proof fn lemma_uuid_text_shape(b: Seq<u8>)
    requires
        b.len() == 16,
    ensures
        is_uuid_text(uuid_text(b)),
{
    lemma_hex_run_len(b.subrange(0, 4));
    lemma_hex_run_len(b.subrange(4, 6));
    lemma_hex_run_len(b.subrange(6, 8));
    lemma_hex_run_len(b.subrange(8, 10));
    lemma_hex_run_len(b.subrange(10, 16));
    let t = uuid_text(b);
    assert forall|i: int| 0 <= i < 36 implies if i == 8 || i == 13 || i == 18 || i == 23 {
        t[i] == '-'
    } else {
        is_hex_digit(#[trigger] t[i])
    } by {
        lemma_hex_run_digits(b.subrange(0, 4));
        lemma_hex_run_digits(b.subrange(4, 6));
        lemma_hex_run_digits(b.subrange(6, 8));
        lemma_hex_run_digits(b.subrange(8, 10));
        lemma_hex_run_digits(b.subrange(10, 16));
    }
}

/// A hexadecimal run is twice as long as its bytes.
proof fn lemma_hex_run_len(b: Seq<u8>)
    ensures
        hex_run(b).len() == 2 * b.len(),
    decreases b.len(),
{
    if b.len() > 0 {
        lemma_hex_run_len(b.drop_last());
    }
}

/// Every character of a hexadecimal run is a hexadecimal digit.
proof fn lemma_hex_run_digits(b: Seq<u8>)
    ensures
        forall|i: int| 0 <= i < hex_run(b).len() ==> is_hex_digit(#[trigger] hex_run(b)[i]),
    decreases b.len(),
{
    lemma_hex_run_len(b);
    if b.len() > 0 {
        lemma_hex_run_digits(b.drop_last());
        lemma_hex_run_len(b.drop_last());
        let whole = hex_run(b);
        assert forall|i: int| 0 <= i < whole.len() implies is_hex_digit(#[trigger] whole[i]) by {
            if i < 2 * (b.len() - 1) {
                assert(whole[i] == hex_run(b.drop_last())[i]);
            } else {
                assert(whole[i] == hex_byte_seq(b.last() as nat)[i - 2 * (b.len() - 1)]);
                let v = b.last() as nat;
                assert(v / 16 < 16 && v % 16 < 16);
            }
        }
    }
}

/// The bytes parsed from a well-shaped UUID text render back to it.
proof fn lemma_parsed_runs_render(s: Seq<char>, b: Seq<u8>)
    requires
        is_uuid_text(s),
        b.len() == 16,
        forall|k: int|
            0 <= k < 4 ==> (#[trigger] b[k] as nat) == hex_digit_val(s[2 * k]) * 16
                + hex_digit_val(s[2 * k + 1]),
        forall|k: int|
            4 <= k < 6 ==> (#[trigger] b[k] as nat) == hex_digit_val(s[9 + 2 * (k - 4)]) * 16
                + hex_digit_val(s[9 + 2 * (k - 4) + 1]),
        forall|k: int|
            6 <= k < 8 ==> (#[trigger] b[k] as nat) == hex_digit_val(s[14 + 2 * (k - 6)]) * 16
                + hex_digit_val(s[14 + 2 * (k - 6) + 1]),
        forall|k: int|
            8 <= k < 10 ==> (#[trigger] b[k] as nat) == hex_digit_val(s[19 + 2 * (k - 8)]) * 16
                + hex_digit_val(s[19 + 2 * (k - 8) + 1]),
        forall|k: int|
            10 <= k < 16 ==> (#[trigger] b[k] as nat) == hex_digit_val(s[24 + 2 * (k - 10)]) * 16
                + hex_digit_val(s[24 + 2 * (k - 10) + 1]),
    ensures
        uuid_text(b) == s,
{
    lemma_hex_run_roundtrip(s.subrange(0, 8), b.subrange(0, 4));
    lemma_hex_run_roundtrip(s.subrange(9, 13), b.subrange(4, 6));
    lemma_hex_run_roundtrip(s.subrange(14, 18), b.subrange(6, 8));
    lemma_hex_run_roundtrip(s.subrange(19, 23), b.subrange(8, 10));
    lemma_hex_run_roundtrip(s.subrange(24, 36), b.subrange(10, 16));
    assert(uuid_text(b) =~= s);
}

/// Relies on uuid::Uuid::new_v4: sixteen random bytes with the version
/// nibble of byte 6 set to 4 and the variant bits of byte 8 set to the
/// standard variant; nothing else is promised of a random identifier. If
/// the operating system cannot supply randomness the call aborts inside the
/// crate — an environmental fault no input can reach.
#[verifier::external_body]
fn gen_uuid_v4_bytes() -> (r: Vec<u8>)
    ensures
        r@.len() == 16,
        0x40 <= r@[6] < 0x50,
        0x80 <= r@[8] < 0xc0,
{
    uuid::Uuid::new_v4().into_bytes().to_vec()
}

} // verus!
