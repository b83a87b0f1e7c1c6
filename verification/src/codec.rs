//! The value codec: symmetric encoding and decoding between domain values
//! and the opaque byte blobs stored in catalog columns. The encoding is
//! self-describing — a textual form tagged with the variant name — so stored
//! blobs remain portable across releases. Decoding accepts exactly the
//! canonical forms this codec produces.

use vstd::prelude::*;

use crate::error::Error;
use crate::ids::GlobalId;

verus! {

// ---------------------------------------------------------------------------
// Canonical decimal numerals at the byte level.
// ---------------------------------------------------------------------------

/// The canonical decimal numeral of `n` as ASCII bytes, most significant
/// digit first, without leading zeros.
pub open spec fn dec_bytes(n: nat) -> Seq<u8>
    decreases n,
{
    if n < 10 {
        seq![(48 + n) as u8]
    } else {
        dec_bytes(n / 10).push((48 + n % 10) as u8)
    }
}

/// Whether `b` is an ASCII decimal digit.
pub open spec fn is_dec_byte(b: u8) -> bool {
    48 <= b && b <= 57
}

/// Whether every byte of `s` is an ASCII decimal digit.
pub open spec fn all_dec_bytes(s: Seq<u8>) -> bool {
    forall|i: int| 0 <= i < s.len() ==> is_dec_byte(#[trigger] s[i])
}

/// The numeric value of a digit-byte string.
pub open spec fn dec_bytes_val(s: Seq<u8>) -> nat
    decreases s.len(),
{
    if s.len() == 0 {
        0
    } else {
        dec_bytes_val(s.drop_last()) * 10 + (s.last() - 48) as nat
    }
}

/// Whether `s` is a canonical numeral: nonempty, all digits, and without a
/// leading zero (except the numeral `0` itself).
pub open spec fn canonical_num_bytes(s: Seq<u8>) -> bool {
    s.len() > 0 && all_dec_bytes(s) && (s.len() == 1 || s[0] != 48)
}

/// The canonical numeral of `n` really is canonical, and evaluates back
/// to `n`; a positive value never renders with a leading zero.
pub proof fn lemma_dec_bytes_canonical(n: nat)
    ensures
        canonical_num_bytes(dec_bytes(n)),
        dec_bytes_val(dec_bytes(n)) == n,
        n >= 1 ==> dec_bytes(n)[0] != 48,
    decreases n,
{
    if n < 10 {
        assert(dec_bytes(n) =~= seq![(48 + n) as u8]);
        assert(dec_bytes(n).drop_last() =~= Seq::<u8>::empty());
        assert(dec_bytes_val(dec_bytes(n).drop_last()) == 0);
        assert(dec_bytes_val(dec_bytes(n)) == ((48 + n) as u8 - 48) as nat);
    } else {
        lemma_dec_bytes_canonical(n / 10);
        let rec = dec_bytes(n / 10);
        let whole = rec.push((48 + n % 10) as u8);
        assert(whole.drop_last() =~= rec);
        assert(whole[0] == rec[0]);
        assert(whole.last() == (48 + n % 10) as u8);
        assert(((48 + n % 10) as u8 - 48) as nat == n % 10);
        assert(dec_bytes_val(whole) == (n / 10) * 10 + n % 10);
        assert((n / 10) * 10 + n % 10 == n) by {
            vstd::arithmetic::div_mod::lemma_fundamental_div_mod(n as int, 10);
        }
    }
}

/// Positive canonical numerals have a positive value.
proof fn lemma_canonical_pos(s: Seq<u8>)
    requires
        s.len() > 0,
        all_dec_bytes(s),
        s[0] != 48,
    ensures
        dec_bytes_val(s) >= 1,
    decreases s.len(),
{
    if s.len() == 1 {
        assert(dec_bytes_val(s) >= 1) by {
            reveal_with_fuel(dec_bytes_val, 2);
            assert(is_dec_byte(s[0]));
            assert(s.last() == s[0]);
            assert(s.drop_last().len() == 0);
        }
    } else {
        lemma_canonical_pos(s.drop_last());
        assert(dec_bytes_val(s) == dec_bytes_val(s.drop_last()) * 10 + (s.last() - 48) as nat);
    }
}

/// A canonical numeral is recovered exactly from its value.
pub proof fn lemma_canonical_dec_bytes(s: Seq<u8>)
    requires
        canonical_num_bytes(s),
    ensures
        dec_bytes(dec_bytes_val(s)) == s,
    decreases s.len(),
{
    if s.len() == 1 {
        assert(dec_bytes_val(s) == (s[0] - 48) as nat) by {
            reveal_with_fuel(dec_bytes_val, 2);
            assert(s.last() == s[0]);
            assert(s.drop_last().len() == 0);
        }
        assert(dec_bytes(dec_bytes_val(s)) =~= s);
    } else {
        let p = s.drop_last();
        let d = (s.last() - 48) as nat;
        assert(p[0] == s[0]);
        lemma_canonical_dec_bytes(p);
        lemma_canonical_pos(p);
        let vp = dec_bytes_val(p);
        let v = dec_bytes_val(s);
        assert(v == vp * 10 + d);
        assert(v >= 10);
        assert(v / 10 == vp && v % 10 == d) by (nonlinear_arith)
            requires
                v == vp * 10 + d,
                d < 10,
                vp >= 1,
        ;
        assert(dec_bytes(v) == dec_bytes(vp).push((48 + d) as u8));
        assert(dec_bytes(v) =~= s);
    }
}

/// Extending a digit-byte string never decreases its value.
proof fn lemma_dec_bytes_val_monotonic(p: Seq<u8>, s: Seq<u8>)
    requires
        p.len() <= s.len(),
        forall|i: int| 0 <= i < p.len() ==> p[i] == s[i],
    ensures
        dec_bytes_val(p) <= dec_bytes_val(s),
    decreases s.len(),
{
    if p.len() == s.len() {
        assert(p =~= s);
    } else {
        lemma_dec_bytes_val_monotonic(p, s.drop_last());
        assert(dec_bytes_val(s) == dec_bytes_val(s.drop_last()) * 10 + (s.last() - 48) as nat);
    }
}

/// Appends the canonical decimal numeral of `n` to `out`.
pub fn push_u64_dec_bytes(out: &mut Vec<u8>, n: u64)
    ensures
        final(out)@ == old(out)@ + dec_bytes(n as nat),
    decreases n,
{
    if n < 10 {
        out.push((48 + n) as u8);
        proof {
            assert(out@ =~= old(out)@ + dec_bytes(n as nat));
        }
    } else {
        push_u64_dec_bytes(out, n / 10);
        out.push((48 + (n % 10)) as u8);
        proof {
            assert(out@ =~= old(out)@ + dec_bytes(n as nat));
        }
    }
}

/// Parses the byte range `from..to` of `b` as a canonical numeral in `u64`
/// range; returns its value exactly when it is one.
fn parse_canonical_u64(b: &[u8], from: usize, to: usize) -> (r: Option<u64>)
    requires
        from <= to <= b@.len(),
    ensures
        r is Some <==> canonical_num_bytes(b@.subrange(from as int, to as int)) && dec_bytes_val(
            b@.subrange(from as int, to as int),
        ) <= u64::MAX,
        r is Some ==> r->0 == dec_bytes_val(b@.subrange(from as int, to as int)),
{
    let ghost whole = b@.subrange(from as int, to as int);
    if from == to {
        return None;
    }
    if to - from > 1 && b[from] == 48 {
        proof {
            assert(whole[0] == 48);
        }
        return None;
    }
    let mut acc: u64 = 0;
    let mut i: usize = from;
    while i < to
        invariant
            from <= i <= to <= b@.len(),
            whole == b@.subrange(from as int, to as int),
            all_dec_bytes(b@.subrange(from as int, i as int)),
            acc == dec_bytes_val(b@.subrange(from as int, i as int)),
        decreases to - i,
    {
        let byte = b[i];
        if byte < 48 || byte > 57 {
            proof {
                assert(whole[i - from] == b@[i as int]);
                assert(!is_dec_byte(whole[i - from]));
            }
            return None;
        }
        let d = (byte - 48) as u64;
        if acc > u64::MAX / 10 || (acc == u64::MAX / 10 && d > u64::MAX % 10) {
            proof {
                let pre = b@.subrange(from as int, i as int);
                let ext = b@.subrange(from as int, i + 1 as int);
                assert(ext.drop_last() =~= pre);
                assert(ext.last() == b@[i as int]);
                assert(dec_bytes_val(ext) > u64::MAX);
                assert(forall|k: int| 0 <= k < ext.len() ==> ext[k] == #[trigger] whole[k]);
                lemma_dec_bytes_val_monotonic(ext, whole);
            }
            return None;
        }
        acc = acc * 10 + d;
        proof {
            let pre = b@.subrange(from as int, i as int);
            let ext = b@.subrange(from as int, i + 1 as int);
            assert(ext.drop_last() =~= pre);
            assert(ext.last() == b@[i as int]);
        }
        i = i + 1;
    }
    proof {
        assert(b@.subrange(from as int, to as int) =~= whole);
    }
    Some(acc)
}

// ---------------------------------------------------------------------------
// Global identifier blobs.
// ---------------------------------------------------------------------------

/// The tag opening the blob of a system identifier: `{"System":`.
pub open spec fn system_tag() -> Seq<u8> {
    seq![123u8, 34u8, 83u8, 121u8, 115u8, 116u8, 101u8, 109u8, 34u8, 58u8]
}

/// The tag opening the blob of a user identifier: `{"User":`.
pub open spec fn user_tag() -> Seq<u8> {
    seq![123u8, 34u8, 85u8, 115u8, 101u8, 114u8, 34u8, 58u8]
}

/// The tag opening the blob of a transient identifier: `{"Transient":`.
pub open spec fn transient_tag() -> Seq<u8> {
    seq![123u8, 34u8, 84u8, 114u8, 97u8, 110u8, 115u8, 105u8, 101u8, 110u8, 116u8, 34u8, 58u8]
}

/// The whole blob of the explain identifier: `"Explain"`.
pub open spec fn explain_blob() -> Seq<u8> {
    seq![34u8, 69u8, 120u8, 112u8, 108u8, 97u8, 105u8, 110u8, 34u8]
}

/// The stored blob of a global identifier: the variant name tagging the
/// numeric value in textual form, e.g. `{"User":7}`.
pub open spec fn gid_blob(g: GlobalId) -> Seq<u8> {
    match g {
        GlobalId::System(n) => system_tag() + dec_bytes(n as nat) + seq![125u8],
        GlobalId::User(n) => user_tag() + dec_bytes(n as nat) + seq![125u8],
        GlobalId::Transient(n) => transient_tag() + dec_bytes(n as nat) + seq![125u8],
        GlobalId::Explain => explain_blob(),
    }
}

/// Whether `b` is a tag followed by a canonical numeral in `u64` range and
/// a closing brace.
pub open spec fn tagged_num(b: Seq<u8>, tag: Seq<u8>) -> bool {
    &&& b.len() > tag.len() + 1
    &&& b.subrange(0, tag.len() as int) == tag
    &&& b.last() == 125u8
    &&& canonical_num_bytes(b.subrange(tag.len() as int, (b.len() - 1) as int))
    &&& dec_bytes_val(b.subrange(tag.len() as int, (b.len() - 1) as int)) <= u64::MAX
}

/// The numeral value between a tag and the closing brace.
pub open spec fn tagged_num_val(b: Seq<u8>, tag: Seq<u8>) -> nat {
    dec_bytes_val(b.subrange(tag.len() as int, (b.len() - 1) as int))
}

/// The global identifier a blob stands for, if any.
pub open spec fn decode_gid_spec(b: Seq<u8>) -> Option<GlobalId> {
    if b == explain_blob() {
        Some(GlobalId::Explain)
    } else if tagged_num(b, system_tag()) {
        Some(GlobalId::System(tagged_num_val(b, system_tag()) as u64))
    } else if tagged_num(b, user_tag()) {
        Some(GlobalId::User(tagged_num_val(b, user_tag()) as u64))
    } else if tagged_num(b, transient_tag()) {
        Some(GlobalId::Transient(tagged_num_val(b, transient_tag()) as u64))
    } else {
        None
    }
}

/// Encodes a global identifier into its stored blob.
pub fn encode_global_id(g: &GlobalId) -> (r: Vec<u8>)
    ensures
        r@ == gid_blob(*g),
{
    let mut out: Vec<u8> = Vec::new();
    match g {
        GlobalId::System(n) => {
            out.push(123);
            out.push(34);
            out.push(83);
            out.push(121);
            out.push(115);
            out.push(116);
            out.push(101);
            out.push(109);
            out.push(34);
            out.push(58);
            proof {
                assert(out@ =~= system_tag());
            }
            push_u64_dec_bytes(&mut out, *n);
            out.push(125);
            proof {
                assert(out@ =~= gid_blob(*g));
            }
        }
        GlobalId::User(n) => {
            out.push(123);
            out.push(34);
            out.push(85);
            out.push(115);
            out.push(101);
            out.push(114);
            out.push(34);
            out.push(58);
            proof {
                assert(out@ =~= user_tag());
            }
            push_u64_dec_bytes(&mut out, *n);
            out.push(125);
            proof {
                assert(out@ =~= gid_blob(*g));
            }
        }
        GlobalId::Transient(n) => {
            out.push(123);
            out.push(34);
            out.push(84);
            out.push(114);
            out.push(97);
            out.push(110);
            out.push(115);
            out.push(105);
            out.push(101);
            out.push(110);
            out.push(116);
            out.push(34);
            out.push(58);
            proof {
                assert(out@ =~= transient_tag());
            }
            push_u64_dec_bytes(&mut out, *n);
            out.push(125);
            proof {
                assert(out@ =~= gid_blob(*g));
            }
        }
        GlobalId::Explain => {
            out.push(34);
            out.push(69);
            out.push(120);
            out.push(112);
            out.push(108);
            out.push(97);
            out.push(105);
            out.push(110);
            out.push(34);
            proof {
                assert(out@ =~= gid_blob(*g));
            }
        }
    }
    out
}

/// Whether `b` opens with `tag` followed by a canonical numeral and a
/// closing brace; returns the numeral's value if so.
fn try_tagged(b: &[u8], tag: &Vec<u8>) -> (r: Option<u64>)
    ensures
        r is Some <==> tagged_num(b@, tag@),
        r is Some ==> r->0 == tagged_num_val(b@, tag@),
{
    let blen = b.len();
    let tlen = tag.len();
    if blen < tlen || blen - tlen < 2 {
        return None;
    }
    let mut i: usize = 0;
    while i < tlen
        invariant
            0 <= i <= tlen,
            tlen + 2 <= blen,
            blen == b@.len(),
            tlen == tag@.len(),
            forall|k: int| 0 <= k < i ==> b@[k] == tag@[k],
        decreases tlen - i,
    {
        if b[i] != tag[i] {
            proof {
                assert(b@.subrange(0, tag@.len() as int)[i as int] == b@[i as int]);
            }
            return None;
        }
        i = i + 1;
    }
    proof {
        assert(b@.subrange(0, tag@.len() as int) =~= tag@);
    }
    if b[blen - 1] != 125 {
        return None;
    }
    parse_canonical_u64(b, tlen, blen - 1)
}

/// Builds the tag bytes `{"System":`.
fn system_tag_vec() -> (v: Vec<u8>)
    ensures
        v@ == system_tag(),
{
    let mut v: Vec<u8> = Vec::new();
    v.push(123);
    v.push(34);
    v.push(83);
    v.push(121);
    v.push(115);
    v.push(116);
    v.push(101);
    v.push(109);
    v.push(34);
    v.push(58);
    proof {
        assert(v@ =~= system_tag());
    }
    v
}

/// Builds the tag bytes `{"User":`.
fn user_tag_vec() -> (v: Vec<u8>)
    ensures
        v@ == user_tag(),
{
    let mut v: Vec<u8> = Vec::new();
    v.push(123);
    v.push(34);
    v.push(85);
    v.push(115);
    v.push(101);
    v.push(114);
    v.push(34);
    v.push(58);
    proof {
        assert(v@ =~= user_tag());
    }
    v
}

/// Builds the tag bytes `{"Transient":`.
fn transient_tag_vec() -> (v: Vec<u8>)
    ensures
        v@ == transient_tag(),
{
    let mut v: Vec<u8> = Vec::new();
    v.push(123);
    v.push(34);
    v.push(84);
    v.push(114);
    v.push(97);
    v.push(110);
    v.push(115);
    v.push(105);
    v.push(101);
    v.push(110);
    v.push(116);
    v.push(34);
    v.push(58);
    proof {
        assert(v@ =~= transient_tag());
    }
    v
}

/// Whether `b` is exactly the explain blob.
fn is_explain_blob(b: &[u8]) -> (r: bool)
    ensures
        r == (b@ == explain_blob()),
{
    if b.len() != 9 {
        proof {
            assert(b@ != explain_blob());
        }
        return false;
    }
    let m = b[0] == 34 && b[1] == 69 && b[2] == 120 && b[3] == 112 && b[4] == 108 && b[5] == 97
        && b[6] == 105 && b[7] == 110 && b[8] == 34;
    proof {
        if m {
            assert(b@ =~= explain_blob());
        } else {
            assert(b@ != explain_blob());
        }
    }
    m
}

/// Decodes a stored blob back into a global identifier; fails on any blob
/// this codec does not produce.
pub fn decode_global_id(b: &[u8]) -> (r: Result<GlobalId, Error>)
    ensures
        r is Ok <==> decode_gid_spec(b@) is Some,
        r is Ok ==> Some(r->Ok_0) == decode_gid_spec(b@),
{
    if is_explain_blob(b) {
        return Ok(GlobalId::Explain);
    }
    if let Some(v) = try_tagged(b, &system_tag_vec()) {
        return Ok(GlobalId::System(v));
    }
    if let Some(v) = try_tagged(b, &user_tag_vec()) {
        return Ok(GlobalId::User(v));
    }
    if let Some(v) = try_tagged(b, &transient_tag_vec()) {
        return Ok(GlobalId::Transient(v));
    }
    Err(Error::Codec(String::from_str("invalid global id blob")))
}

/// Law: the blob codec round-trips — decoding the encoding of any global
/// identifier yields that identifier back.
pub proof fn lemma_global_id_codec_roundtrip(g: GlobalId)
    ensures
        decode_gid_spec(gid_blob(g)) == Some(g),
{
    let b = gid_blob(g);
    match g {
        GlobalId::System(n) => {
            lemma_dec_bytes_canonical(n as nat);
            assert(b.subrange(0, system_tag().len() as int) =~= system_tag());
            assert(b.subrange(
                system_tag().len() as int,
                (b.len() - 1) as int,
            ) =~= dec_bytes(n as nat));
            assert(b != explain_blob()) by {
                assert(b[0] == 123 && explain_blob()[0] == 34);
            }
            assert(tagged_num(b, system_tag()));
        }
        GlobalId::User(n) => {
            lemma_dec_bytes_canonical(n as nat);
            assert(b.subrange(0, user_tag().len() as int) =~= user_tag());
            assert(b.subrange(
                user_tag().len() as int,
                (b.len() - 1) as int,
            ) =~= dec_bytes(n as nat));
            assert(b != explain_blob()) by {
                assert(b[0] == 123 && explain_blob()[0] == 34);
            }
            assert(!tagged_num(b, system_tag())) by {
                assert(b[2] == 85);
                if tagged_num(b, system_tag()) {
                    assert(b.subrange(0, system_tag().len() as int)[2] == 83);
                }
            }
            assert(tagged_num(b, user_tag()));
        }
        GlobalId::Transient(n) => {
            lemma_dec_bytes_canonical(n as nat);
            assert(b.subrange(0, transient_tag().len() as int) =~= transient_tag());
            assert(b.subrange(
                transient_tag().len() as int,
                (b.len() - 1) as int,
            ) =~= dec_bytes(n as nat));
            assert(b != explain_blob()) by {
                assert(b[0] == 123 && explain_blob()[0] == 34);
            }
            assert(!tagged_num(b, system_tag())) by {
                assert(b[2] == 84);
                if tagged_num(b, system_tag()) {
                    assert(b.subrange(0, system_tag().len() as int)[2] == 83);
                }
            }
            assert(!tagged_num(b, user_tag())) by {
                assert(b[2] == 84);
                if tagged_num(b, user_tag()) {
                    assert(b.subrange(0, user_tag().len() as int)[2] == 85);
                }
            }
            assert(tagged_num(b, transient_tag()));
        }
        GlobalId::Explain => {
        }
    }
}

} // verus!

verus! {

/// Marks a value that crosses the persistence boundary as a codec blob
/// rather than as a native column value.
pub struct SqlVal<T>(pub T);

} // verus!
