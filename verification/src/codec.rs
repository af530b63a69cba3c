//! The proof envelope: a stable textual form for the final proof.
//!
//! The on-disk form is a compact textual record with six named opaque
//! fields mirroring the proof's substructure. Serialization escapes each
//! opaque field; deserialization accepts exactly the canonical encoding
//! and decodes it back, so a record round-trips without loss.

use vstd::prelude::*;

use crate::errors::PipelineError;

verus! {

/// The six opaque components of a compressed proof, as byte strings:
/// the primary and secondary folding artifacts, the two final
/// witness-SNARK artifacts, and the two final public states, one per
/// curve in the cycle.
#[derive(Debug, PartialEq, Eq)]
pub struct ProofRecord {
    /// Folding artifact of the primary circuit.
    pub nifs_primary: Vec<u8>,
    /// Final witness SNARK over the primary curve.
    pub f_w_snark_primary: Vec<u8>,
    /// Folding artifact of the secondary circuit.
    pub nifs_secondary: Vec<u8>,
    /// Final witness SNARK over the secondary curve.
    pub f_w_snark_secondary: Vec<u8>,
    /// Final public state of the primary circuit.
    pub zn_primary: Vec<u8>,
    /// Final public state of the secondary circuit.
    pub zn_secondary: Vec<u8>,
}

/// The mathematical content of a proof record: six byte strings.
pub ghost struct ProofRecordView {
    /// Folding artifact of the primary circuit.
    pub nifs_primary: Seq<u8>,
    /// Final witness SNARK over the primary curve.
    pub f_w_snark_primary: Seq<u8>,
    /// Folding artifact of the secondary circuit.
    pub nifs_secondary: Seq<u8>,
    /// Final witness SNARK over the secondary curve.
    pub f_w_snark_secondary: Seq<u8>,
    /// Final public state of the primary circuit.
    pub zn_primary: Seq<u8>,
    /// Final public state of the secondary circuit.
    pub zn_secondary: Seq<u8>,
}

impl View for ProofRecord {
    type V = ProofRecordView;

    open spec fn view(&self) -> ProofRecordView {
        ProofRecordView {
            nifs_primary: self.nifs_primary@,
            f_w_snark_primary: self.f_w_snark_primary@,
            nifs_secondary: self.nifs_secondary@,
            f_w_snark_secondary: self.f_w_snark_secondary@,
            zn_primary: self.zn_primary@,
            zn_secondary: self.zn_secondary@,
        }
    }
}

/// The lowercase hexadecimal digit of a value below sixteen.
pub open spec fn hex_digit(n: u8) -> u8 {
    if n < 10 {
        (48 + n) as u8
    } else {
        (87 + n) as u8
    }
}

/// A lowercase hexadecimal digit.
pub open spec fn is_hex_lower(b: u8) -> bool {
    48 <= b <= 57 || 97 <= b <= 102
}

/// The value of a lowercase hexadecimal digit.
pub open spec fn hex_val(b: u8) -> u8 {
    if b <= 57 {
        (b - 48) as u8
    } else {
        (b - 87) as u8
    }
}

/// How one byte of an opaque field is written inside a quoted string:
/// quote and backslash are escaped, control bytes become a six-byte
/// escape, everything else stands as itself.
pub open spec fn esc_byte(b: u8) -> Seq<u8> {
    if b == 34 {
        seq![92u8, 34u8]
    } else if b == 92 {
        seq![92u8, 92u8]
    } else if b < 32 {
        seq![92u8, 117u8, 48u8, 48u8, hex_digit(b / 16), hex_digit(b % 16)]
    } else {
        seq![b]
    }
}

/// The escaped form of a whole field.
pub open spec fn esc(s: Seq<u8>) -> Seq<u8>
    decreases s.len(),
{
    if s.len() == 0 {
        Seq::empty()
    } else {
        esc_byte(s[0]) + esc(s.skip(1))
    }
}

/// Prepends a decoded byte to the outcome of parsing the remainder.
pub open spec fn parse_cons(b: u8, rec: Option<(Seq<u8>, Seq<u8>)>) -> Option<(Seq<u8>, Seq<u8>)> {
    match rec {
        None => None,
        Some((c, rest)) => Some((seq![b] + c, rest)),
    }
}

/// Parses one quoted-string body from the front of `s`: the decoded
/// content up to the closing quote, and what follows the quote. Only the
/// canonical escapes are accepted, so parsing inverts escaping exactly.
pub open spec fn parse_str(s: Seq<u8>) -> Option<(Seq<u8>, Seq<u8>)>
    decreases s.len(),
{
    if s.len() == 0 {
        None
    } else if s[0] == 34 {
        Some((Seq::empty(), s.skip(1)))
    } else if s[0] == 92 {
        if s.len() >= 2 && s[1] == 34 {
            parse_cons(34u8, parse_str(s.skip(2)))
        } else if s.len() >= 2 && s[1] == 92 {
            parse_cons(92u8, parse_str(s.skip(2)))
        } else if s.len() >= 6 && s[1] == 117 && s[2] == 48 && s[3] == 48 && is_hex_lower(s[4])
            && is_hex_lower(s[5]) && 16 * hex_val(s[4]) + hex_val(s[5]) < 32 {
            parse_cons((16 * hex_val(s[4]) + hex_val(s[5])) as u8, parse_str(s.skip(6)))
        } else {
            None
        }
    } else if s[0] < 32 {
        None
    } else {
        parse_cons(s[0], parse_str(s.skip(1)))
    }
}

/// `s` begins with `p`.
pub open spec fn starts_with(s: Seq<u8>, p: Seq<u8>) -> bool {
    s.len() >= p.len() && s.take(p.len() as int) == p
}

/// Opening brace and the first key: `{"nifs_primary":"`.
pub open spec fn pre1() -> Seq<u8> {
    seq![123u8, 34u8, 110u8, 105u8, 102u8, 115u8, 95u8, 112u8, 114u8, 105u8, 109u8, 97u8, 114u8, 121u8, 34u8, 58u8, 34u8]
}

/// Separator and second key: `,"f_W_snark_primary":"`.
pub open spec fn mid2() -> Seq<u8> {
    seq![44u8, 34u8, 102u8, 95u8, 87u8, 95u8, 115u8, 110u8, 97u8, 114u8, 107u8, 95u8, 112u8, 114u8, 105u8, 109u8, 97u8, 114u8, 121u8, 34u8, 58u8, 34u8]
}

/// Separator and third key: `,"nifs_secondary":"`.
pub open spec fn mid3() -> Seq<u8> {
    seq![44u8, 34u8, 110u8, 105u8, 102u8, 115u8, 95u8, 115u8, 101u8, 99u8, 111u8, 110u8, 100u8, 97u8, 114u8, 121u8, 34u8, 58u8, 34u8]
}

/// Separator and fourth key: `,"f_W_snark_secondary":"`.
pub open spec fn mid4() -> Seq<u8> {
    seq![44u8, 34u8, 102u8, 95u8, 87u8, 95u8, 115u8, 110u8, 97u8, 114u8, 107u8, 95u8, 115u8, 101u8, 99u8, 111u8, 110u8, 100u8, 97u8, 114u8, 121u8, 34u8, 58u8, 34u8]
}

/// Separator and fifth key: `,"zn_primary":"`.
pub open spec fn mid5() -> Seq<u8> {
    seq![44u8, 34u8, 122u8, 110u8, 95u8, 112u8, 114u8, 105u8, 109u8, 97u8, 114u8, 121u8, 34u8, 58u8, 34u8]
}

/// Separator and sixth key: `,"zn_secondary":"`.
pub open spec fn mid6() -> Seq<u8> {
    seq![44u8, 34u8, 122u8, 110u8, 95u8, 115u8, 101u8, 99u8, 111u8, 110u8, 100u8, 97u8, 114u8, 121u8, 34u8, 58u8, 34u8]
}

/// The canonical serialized form of a proof record: the six fields in
/// their fixed order, each escaped inside quotes, inside one object.
pub open spec fn spec_ser(p: ProofRecordView) -> Seq<u8> {
    pre1() + esc(p.nifs_primary) + seq![34u8]
        + mid2() + esc(p.f_w_snark_primary) + seq![34u8]
        + mid3() + esc(p.nifs_secondary) + seq![34u8]
        + mid4() + esc(p.f_w_snark_secondary) + seq![34u8]
        + mid5() + esc(p.zn_primary) + seq![34u8]
        + mid6() + esc(p.zn_secondary) + seq![34u8]
        + seq![125u8]
}

/// Parses the canonical form: the six keys in order, a quoted string
/// after each, the closing brace, and nothing else.
pub open spec fn spec_parse(s: Seq<u8>) -> Option<ProofRecordView> {
    if !starts_with(s, pre1()) {
        None
    } else {
        match parse_str(s.skip(pre1().len() as int)) {
            None => None,
            Some((f1, s1)) => if !starts_with(s1, mid2()) {
                None
            } else {
                match parse_str(s1.skip(mid2().len() as int)) {
                    None => None,
                    Some((f2, s2)) => if !starts_with(s2, mid3()) {
                        None
                    } else {
                        match parse_str(s2.skip(mid3().len() as int)) {
                            None => None,
                            Some((f3, s3)) => if !starts_with(s3, mid4()) {
                                None
                            } else {
                                match parse_str(s3.skip(mid4().len() as int)) {
                                    None => None,
                                    Some((f4, s4)) => if !starts_with(s4, mid5()) {
                                        None
                                    } else {
                                        match parse_str(s4.skip(mid5().len() as int)) {
                                            None => None,
                                            Some((f5, s5)) => if !starts_with(s5, mid6()) {
                                                None
                                            } else {
                                                match parse_str(s5.skip(mid6().len() as int)) {
                                                    None => None,
                                                    Some((f6, s6)) => if s6 == seq![125u8] {
                                                        Some(ProofRecordView {
                                                            nifs_primary: f1,
                                                            f_w_snark_primary: f2,
                                                            nifs_secondary: f3,
                                                            f_w_snark_secondary: f4,
                                                            zn_primary: f5,
                                                            zn_secondary: f6,
                                                        })
                                                    } else {
                                                        None
                                                    },
                                                }
                                            },
                                        }
                                    },
                                }
                            },
                        }
                    },
                }
            },
        }
    }
}

/// Escaping distributes over concatenation.
pub proof fn lemma_esc_app(s: Seq<u8>, t: Seq<u8>)
    ensures
        esc(s + t) == esc(s) + esc(t),
    decreases s.len(),
{
    if s.len() == 0 {
        assert(s + t =~= t);
        assert(esc(s) + esc(t) =~= esc(t));
    } else {
        assert((s + t)[0] == s[0]);
        assert((s + t).skip(1) =~= s.skip(1) + t);
        lemma_esc_app(s.skip(1), t);
        assert(esc(s + t) =~= esc_byte(s[0]) + (esc(s.skip(1)) + esc(t)));
        assert(esc_byte(s[0]) + (esc(s.skip(1)) + esc(t)) =~= (esc_byte(s[0]) + esc(s.skip(1)))
            + esc(t));
    }
}

/// Parsing a quoted string inverts escaping: the escaped field, its
/// closing quote, and anything after parse back to the field and that
/// remainder.
pub proof fn lemma_parse_esc(f: Seq<u8>, rest: Seq<u8>)
    ensures
        parse_str(esc(f) + seq![34u8] + rest) == Some((f, rest)),
    decreases f.len(),
{
    let s = esc(f) + seq![34u8] + rest;
    if f.len() == 0 {
        assert(s =~= seq![34u8] + rest);
        assert(s[0] == 34);
        assert(s.skip(1) =~= rest);
    } else {
        let b = f[0];
        let f2 = f.skip(1);
        let tail = esc(f2) + seq![34u8] + rest;
        lemma_parse_esc(f2, rest);
        assert(esc(f) == esc_byte(b) + esc(f2));
        assert(s =~= esc_byte(b) + tail);
        if b == 34 {
            assert(s =~= seq![92u8, 34u8] + tail);
            assert(s[0] == 92 && s[1] == 34);
            assert(s.skip(2) =~= tail);
            assert(seq![34u8] + f2 =~= f);
        } else if b == 92 {
            assert(s =~= seq![92u8, 92u8] + tail);
            assert(s[0] == 92 && s[1] == 92);
            assert(s.skip(2) =~= tail);
            assert(seq![92u8] + f2 =~= f);
        } else if b < 32 {
            let hi = hex_digit(b / 16);
            let lo = hex_digit(b % 16);
            assert(s =~= seq![92u8, 117u8, 48u8, 48u8, hi, lo] + tail);
            assert(s[0] == 92 && s[1] == 117 && s[2] == 48 && s[3] == 48 && s[4] == hi && s[5]
                == lo);
            assert(b / 16 < 2 && b % 16 < 16);
            assert(is_hex_lower(hi) && is_hex_lower(lo));
            assert(hex_val(hi) == b / 16 && hex_val(lo) == b % 16);
            assert(16 * hex_val(s[4]) + hex_val(s[5]) == b);
            assert(s.skip(6) =~= tail);
            assert(seq![b] + f2 =~= f);
        } else {
            assert(s[0] == b && b != 34 && b != 92 && b >= 32);
            assert(s.skip(1) =~= tail);
            assert(seq![b] + f2 =~= f);
        }
    }
}

/// Deserializing a serialized record gives that record back: the
/// canonical parse of the canonical form of any proof record is exactly
/// that record.
#[verifier::rlimit(100)]
pub proof fn lemma_proof_record_roundtrip(p: ProofRecordView)
    ensures
        spec_parse(spec_ser(p)) == Some(p),
{
    let s = spec_ser(p);
    let r1 = esc(p.nifs_primary) + seq![34u8];
    let r2 = esc(p.f_w_snark_primary) + seq![34u8];
    let r3 = esc(p.nifs_secondary) + seq![34u8];
    let r4 = esc(p.f_w_snark_secondary) + seq![34u8];
    let r5 = esc(p.zn_primary) + seq![34u8];
    let r6 = esc(p.zn_secondary) + seq![34u8];
    let close = seq![125u8];
    let t6 = close;
    let t5 = mid6() + r6 + t6;
    let t4 = mid5() + r5 + t5;
    let t3 = mid4() + r4 + t4;
    let t2 = mid3() + r3 + t3;
    let t1 = mid2() + r2 + t2;

    assert(s =~= pre1() + (r1 + t1));
    assert(starts_with(s, pre1())) by {
        assert(s.take(pre1().len() as int) =~= pre1());
    }
    assert(s.skip(pre1().len() as int) =~= esc(p.nifs_primary) + seq![34u8] + t1);
    lemma_parse_esc(p.nifs_primary, t1);

    assert(starts_with(t1, mid2())) by {
        assert(t1.take(mid2().len() as int) =~= mid2());
    }
    assert(t1.skip(mid2().len() as int) =~= esc(p.f_w_snark_primary) + seq![34u8] + t2);
    lemma_parse_esc(p.f_w_snark_primary, t2);

    assert(starts_with(t2, mid3())) by {
        assert(t2.take(mid3().len() as int) =~= mid3());
    }
    assert(t2.skip(mid3().len() as int) =~= esc(p.nifs_secondary) + seq![34u8] + t3);
    lemma_parse_esc(p.nifs_secondary, t3);

    assert(starts_with(t3, mid4())) by {
        assert(t3.take(mid4().len() as int) =~= mid4());
    }
    assert(t3.skip(mid4().len() as int) =~= esc(p.f_w_snark_secondary) + seq![34u8] + t4);
    lemma_parse_esc(p.f_w_snark_secondary, t4);

    assert(starts_with(t4, mid5())) by {
        assert(t4.take(mid5().len() as int) =~= mid5());
    }
    assert(t4.skip(mid5().len() as int) =~= esc(p.zn_primary) + seq![34u8] + t5);
    lemma_parse_esc(p.zn_primary, t5);

    assert(starts_with(t5, mid6())) by {
        assert(t5.take(mid6().len() as int) =~= mid6());
    }
    assert(t5.skip(mid6().len() as int) =~= esc(p.zn_secondary) + seq![34u8] + t6);
    lemma_parse_esc(p.zn_secondary, t6);

    assert(t6 == seq![125u8]);
}

/// The bytes of `pre1`, executable form.
fn pre1_bytes() -> (r: Vec<u8>)
    ensures
        r@ == pre1(),
{
    let mut r: Vec<u8> = Vec::new();
    r.push(123);
    r.push(34);
    r.push(110);
    r.push(105);
    r.push(102);
    r.push(115);
    r.push(95);
    r.push(112);
    r.push(114);
    r.push(105);
    r.push(109);
    r.push(97);
    r.push(114);
    r.push(121);
    r.push(34);
    r.push(58);
    r.push(34);
    assert(r@ =~= pre1());
    r
}

/// The bytes of `mid2`, executable form.
fn mid2_bytes() -> (r: Vec<u8>)
    ensures
        r@ == mid2(),
{
    let mut r: Vec<u8> = Vec::new();
    r.push(44);
    r.push(34);
    r.push(102);
    r.push(95);
    r.push(87);
    r.push(95);
    r.push(115);
    r.push(110);
    r.push(97);
    r.push(114);
    r.push(107);
    r.push(95);
    r.push(112);
    r.push(114);
    r.push(105);
    r.push(109);
    r.push(97);
    r.push(114);
    r.push(121);
    r.push(34);
    r.push(58);
    r.push(34);
    assert(r@ =~= mid2());
    r
}

/// The bytes of `mid3`, executable form.
fn mid3_bytes() -> (r: Vec<u8>)
    ensures
        r@ == mid3(),
{
    let mut r: Vec<u8> = Vec::new();
    r.push(44);
    r.push(34);
    r.push(110);
    r.push(105);
    r.push(102);
    r.push(115);
    r.push(95);
    r.push(115);
    r.push(101);
    r.push(99);
    r.push(111);
    r.push(110);
    r.push(100);
    r.push(97);
    r.push(114);
    r.push(121);
    r.push(34);
    r.push(58);
    r.push(34);
    assert(r@ =~= mid3());
    r
}

/// The bytes of `mid4`, executable form.
fn mid4_bytes() -> (r: Vec<u8>)
    ensures
        r@ == mid4(),
{
    let mut r: Vec<u8> = Vec::new();
    r.push(44);
    r.push(34);
    r.push(102);
    r.push(95);
    r.push(87);
    r.push(95);
    r.push(115);
    r.push(110);
    r.push(97);
    r.push(114);
    r.push(107);
    r.push(95);
    r.push(115);
    r.push(101);
    r.push(99);
    r.push(111);
    r.push(110);
    r.push(100);
    r.push(97);
    r.push(114);
    r.push(121);
    r.push(34);
    r.push(58);
    r.push(34);
    assert(r@ =~= mid4());
    r
}

/// The bytes of `mid5`, executable form.
fn mid5_bytes() -> (r: Vec<u8>)
    ensures
        r@ == mid5(),
{
    let mut r: Vec<u8> = Vec::new();
    r.push(44);
    r.push(34);
    r.push(122);
    r.push(110);
    r.push(95);
    r.push(112);
    r.push(114);
    r.push(105);
    r.push(109);
    r.push(97);
    r.push(114);
    r.push(121);
    r.push(34);
    r.push(58);
    r.push(34);
    assert(r@ =~= mid5());
    r
}

/// The bytes of `mid6`, executable form.
fn mid6_bytes() -> (r: Vec<u8>)
    ensures
        r@ == mid6(),
{
    let mut r: Vec<u8> = Vec::new();
    r.push(44);
    r.push(34);
    r.push(122);
    r.push(110);
    r.push(95);
    r.push(115);
    r.push(101);
    r.push(99);
    r.push(111);
    r.push(110);
    r.push(100);
    r.push(97);
    r.push(114);
    r.push(121);
    r.push(34);
    r.push(58);
    r.push(34);
    assert(r@ =~= mid6());
    r
}


/// Appends all of `v` to `out`.
fn append_vec(out: &mut Vec<u8>, v: &Vec<u8>)
    ensures
        final(out)@ == old(out)@ + v@,
{
    assert(out@ =~= old(out)@ + v@.subrange(0, 0));
    let mut i: usize = 0;
    while i < v.len()
        invariant
            0 <= i <= v@.len(),
            out@ == old(out)@ + v@.subrange(0, i as int),
        decreases v@.len() - i,
    {
        out.push(v[i]);
        assert(out@ =~= old(out)@ + v@.subrange(0, i as int + 1));
        i = i + 1;
    }
    assert(v@.subrange(0, v@.len() as int) =~= v@);
}

/// Appends the escaped form of `f` to `out`.
fn append_escaped(out: &mut Vec<u8>, f: &Vec<u8>)
    ensures
        final(out)@ == old(out)@ + esc(f@),
{
    assert(out@ =~= old(out)@ + esc(f@.subrange(0, 0)));
    let mut i: usize = 0;
    while i < f.len()
        invariant
            0 <= i <= f@.len(),
            out@ == old(out)@ + esc(f@.subrange(0, i as int)),
        decreases f@.len() - i,
    {
        let b: u8 = f[i];
        proof {
            lemma_esc_app(f@.subrange(0, i as int), seq![f@[i as int]]);
            assert(f@.subrange(0, i as int) + seq![f@[i as int]] =~= f@.subrange(0, i as int + 1));
            assert(seq![f@[i as int]].skip(1) =~= Seq::<u8>::empty());
            assert(esc(Seq::<u8>::empty()) =~= Seq::<u8>::empty());
            assert(esc(seq![f@[i as int]]) == esc_byte(seq![f@[i as int]][0]) + esc(
                seq![f@[i as int]].skip(1),
            ));
            assert(esc(seq![f@[i as int]]) =~= esc_byte(f@[i as int]));
        }
        if b == 34 {
            out.push(92);
            out.push(34);
        } else if b == 92 {
            out.push(92);
            out.push(92);
        } else if b < 32 {
            out.push(92);
            out.push(117);
            out.push(48);
            out.push(48);
            let hi: u8 = b / 16;
            let lo: u8 = b % 16;
            out.push(if hi < 10 { 48 + hi } else { 87 + hi });
            out.push(if lo < 10 { 48 + lo } else { 87 + lo });
        } else {
            out.push(b);
        }
        assert(out@ =~= old(out)@ + esc(f@.subrange(0, i as int + 1)));
        i = i + 1;
    }
    assert(f@.subrange(0, f@.len() as int) =~= f@);
}

/// Writes a proof record in its canonical serialized form.
#[verifier::rlimit(100)]
pub fn serialize_proof(p: &ProofRecord) -> (out: Vec<u8>)
    ensures
        out@ == spec_ser(p@),
{
    let mut out: Vec<u8> = Vec::new();
    let k1 = pre1_bytes();
    append_vec(&mut out, &k1);
    append_escaped(&mut out, &p.nifs_primary);
    out.push(34);
    let k2 = mid2_bytes();
    append_vec(&mut out, &k2);
    append_escaped(&mut out, &p.f_w_snark_primary);
    out.push(34);
    let k3 = mid3_bytes();
    append_vec(&mut out, &k3);
    append_escaped(&mut out, &p.nifs_secondary);
    out.push(34);
    let k4 = mid4_bytes();
    append_vec(&mut out, &k4);
    append_escaped(&mut out, &p.f_w_snark_secondary);
    out.push(34);
    let k5 = mid5_bytes();
    append_vec(&mut out, &k5);
    append_escaped(&mut out, &p.zn_primary);
    out.push(34);
    let k6 = mid6_bytes();
    append_vec(&mut out, &k6);
    append_escaped(&mut out, &p.zn_secondary);
    out.push(34);
    out.push(125);
    assert(out@ =~= spec_ser(p@));
    out
}

/// `pat` occurs in `b` at position `pos`.
fn match_at(b: &Vec<u8>, pos: usize, pat: &Vec<u8>) -> (r: bool)
    requires
        pos <= b@.len(),
    ensures
        r <==> starts_with(b@.skip(pos as int), pat@),
{
    let n: usize = b.len();
    if n - pos < pat.len() {
        return false;
    }
    let mut i: usize = 0;
    while i < pat.len()
        invariant
            0 <= i <= pat@.len(),
            n == b@.len(),
            pos + pat@.len() <= b@.len(),
            forall|j: int| 0 <= j < i ==> b@[pos + j] == pat@[j],
        decreases pat@.len() - i,
    {
        if b[pos + i] != pat[i] {
            assert(b@.skip(pos as int)[i as int] == b@[pos + i]);
            assert(starts_with(b@.skip(pos as int), pat@) ==> b@.skip(pos as int).take(
                pat@.len() as int,
            )[i as int] == pat@[i as int]);
            return false;
        }
        i = i + 1;
    }
    assert(b@.skip(pos as int).take(pat@.len() as int) =~= pat@);
    true
}

/// Prepends already-decoded content to the outcome of parsing the rest.
pub open spec fn prepend(a: Seq<u8>, rec: Option<(Seq<u8>, Seq<u8>)>) -> Option<
    (Seq<u8>, Seq<u8>),
> {
    match rec {
        None => None,
        Some((c, rest)) => Some((a + c, rest)),
    }
}

proof fn lemma_prepend_cons(a: Seq<u8>, x: u8, rec: Option<(Seq<u8>, Seq<u8>)>)
    ensures
        prepend(a, parse_cons(x, rec)) == prepend(a + seq![x], rec),
{
    match rec {
        None => {},
        Some((c, rest)) => {
            assert(a + (seq![x] + c) =~= (a + seq![x]) + c);
        },
    }
}

proof fn lemma_prepend_empty(rec: Option<(Seq<u8>, Seq<u8>)>)
    ensures
        prepend(Seq::empty(), rec) == rec,
{
    match rec {
        None => {},
        Some((c, rest)) => {
            assert(Seq::<u8>::empty() + c =~= c);
        },
    }
}

/// Parses one quoted-string body of `b` starting at `pos`: the decoded
/// content, and the position just past the closing quote.
fn parse_str_at(b: &Vec<u8>, pos: usize) -> (r: Option<(Vec<u8>, usize)>)
    requires
        pos <= b@.len(),
    ensures
        r matches Some(pair) ==> {
            &&& pos <= pair.1 <= b@.len()
            &&& parse_str(b@.skip(pos as int)) == Some((pair.0@, b@.skip(pair.1 as int)))
        },
        r is None ==> parse_str(b@.skip(pos as int)) is None,
{
    let ghost s0 = b@.skip(pos as int);
    let mut acc: Vec<u8> = Vec::new();
    let mut cur: usize = pos;
    proof {
        lemma_prepend_empty(parse_str(s0));
        assert(acc@ =~= Seq::<u8>::empty());
    }
    loop
        invariant
            pos <= cur <= b@.len(),
            s0 == b@.skip(pos as int),
            parse_str(s0) == prepend(acc@, parse_str(b@.skip(cur as int))),
        decreases b@.len() - cur,
    {
        let ghost sc = b@.skip(cur as int);
        if cur == b.len() {
            proof {
                assert(sc =~= Seq::<u8>::empty());
            }
            return None;
        }
        let c0: u8 = b[cur];
        proof {
            assert(sc[0] == b@[cur as int]);
            assert(sc.len() == b@.len() - cur);
        }
        if c0 == 34 {
            proof {
                assert(sc.skip(1) =~= b@.skip(cur as int + 1));
                assert(parse_str(sc) == Some((Seq::<u8>::empty(), b@.skip(cur as int + 1))));
                assert(acc@ + Seq::<u8>::empty() =~= acc@);
            }
            return Some((acc, cur + 1));
        } else if c0 == 92 {
            if b.len() - cur < 2 {
                proof {
                    assert(parse_str(sc) is None);
                }
                return None;
            }
            let c1: u8 = b[cur + 1];
            proof {
                assert(sc[1] == b@[cur as int + 1]);
            }
            if c1 == 34 || c1 == 92 {
                let x: u8 = c1;
                proof {
                    assert(sc.skip(2) =~= b@.skip(cur as int + 2));
                    assert(parse_str(sc) == parse_cons(x, parse_str(b@.skip(cur as int + 2))));
                    lemma_prepend_cons(acc@, x, parse_str(b@.skip(cur as int + 2)));
                }
                acc.push(x);
                cur = cur + 2;
            } else if c1 == 117 {
                if b.len() - cur < 6 {
                    proof {
                        assert(parse_str(sc) is None);
                    }
                    return None;
                }
                let c2: u8 = b[cur + 2];
                let c3: u8 = b[cur + 3];
                let c4: u8 = b[cur + 4];
                let c5: u8 = b[cur + 5];
                proof {
                    assert(sc[2] == b@[cur as int + 2]);
                    assert(sc[3] == b@[cur as int + 3]);
                    assert(sc[4] == b@[cur as int + 4]);
                    assert(sc[5] == b@[cur as int + 5]);
                }
                let zeros = c2 == 48 && c3 == 48;
                let hex4 = (48 <= c4 && c4 <= 57) || (97 <= c4 && c4 <= 102);
                let hex5 = (48 <= c5 && c5 <= 57) || (97 <= c5 && c5 <= 102);
                if !(zeros && hex4 && hex5) {
                    proof {
                        assert(parse_str(sc) is None);
                    }
                    return None;
                }
                let v4: u8 = if c4 <= 57 { c4 - 48 } else { c4 - 87 };
                let v5: u8 = if c5 <= 57 { c5 - 48 } else { c5 - 87 };
                assert(v4 <= 15 && v5 <= 15);
                let x: u8 = 16 * v4 + v5;
                if x >= 32 {
                    proof {
                        assert(parse_str(sc) is None);
                    }
                    return None;
                }
                proof {
                    assert(sc.skip(6) =~= b@.skip(cur as int + 6));
                    assert(parse_str(sc) == parse_cons(x, parse_str(b@.skip(cur as int + 6))));
                    lemma_prepend_cons(acc@, x, parse_str(b@.skip(cur as int + 6)));
                }
                acc.push(x);
                cur = cur + 6;
            } else {
                proof {
                    assert(parse_str(sc) is None);
                }
                return None;
            }
        } else if c0 < 32 {
            proof {
                assert(parse_str(sc) is None);
            }
            return None;
        } else {
            proof {
                assert(sc.skip(1) =~= b@.skip(cur as int + 1));
                assert(parse_str(sc) == parse_cons(c0, parse_str(b@.skip(cur as int + 1))));
                lemma_prepend_cons(acc@, c0, parse_str(b@.skip(cur as int + 1)));
            }
            acc.push(c0);
            cur = cur + 1;
        }
    }
}

/// Reads a proof record back from its canonical serialized form, and
/// rejects anything else as corrupt.
#[verifier::rlimit(100)]
pub fn deserialize_proof(b: &Vec<u8>) -> (r: Result<ProofRecord, PipelineError>)
    ensures
        r matches Ok(p) ==> spec_parse(b@) == Some(p@),
        r is Err ==> spec_parse(b@) is None && r == Err::<ProofRecord, PipelineError>(
            PipelineError::CorruptProof,
        ),
{
    let n: usize = b.len();
    assert(b@.skip(0) =~= b@);
    let k1 = pre1_bytes();
    if !match_at(b, 0, &k1) {
        return Err(PipelineError::CorruptProof);
    }
    let pos1 = k1.len();
    assert(b@.skip(0).skip(pos1 as int) =~= b@.skip(pos1 as int));
    let (f1, end1) = match parse_str_at(b, pos1) {
        None => {
            return Err(PipelineError::CorruptProof);
        },
        Some(pair) => pair,
    };
    let ghost s1 = b@.skip(end1 as int);

    let k2 = mid2_bytes();
    if !match_at(b, end1, &k2) {
        return Err(PipelineError::CorruptProof);
    }
    assert(end1 + k2@.len() <= b@.len());
    let pos2 = end1 + k2.len();
    assert(s1.skip(k2@.len() as int) =~= b@.skip(pos2 as int));
    let (f2, end2) = match parse_str_at(b, pos2) {
        None => {
            return Err(PipelineError::CorruptProof);
        },
        Some(pair) => pair,
    };
    let ghost s2 = b@.skip(end2 as int);

    let k3 = mid3_bytes();
    if !match_at(b, end2, &k3) {
        return Err(PipelineError::CorruptProof);
    }
    assert(end2 + k3@.len() <= b@.len());
    let pos3 = end2 + k3.len();
    assert(s2.skip(k3@.len() as int) =~= b@.skip(pos3 as int));
    let (f3, end3) = match parse_str_at(b, pos3) {
        None => {
            return Err(PipelineError::CorruptProof);
        },
        Some(pair) => pair,
    };
    let ghost s3 = b@.skip(end3 as int);

    let k4 = mid4_bytes();
    if !match_at(b, end3, &k4) {
        return Err(PipelineError::CorruptProof);
    }
    assert(end3 + k4@.len() <= b@.len());
    let pos4 = end3 + k4.len();
    assert(s3.skip(k4@.len() as int) =~= b@.skip(pos4 as int));
    let (f4, end4) = match parse_str_at(b, pos4) {
        None => {
            return Err(PipelineError::CorruptProof);
        },
        Some(pair) => pair,
    };
    let ghost s4 = b@.skip(end4 as int);

    let k5 = mid5_bytes();
    if !match_at(b, end4, &k5) {
        return Err(PipelineError::CorruptProof);
    }
    assert(end4 + k5@.len() <= b@.len());
    let pos5 = end4 + k5.len();
    assert(s4.skip(k5@.len() as int) =~= b@.skip(pos5 as int));
    let (f5, end5) = match parse_str_at(b, pos5) {
        None => {
            return Err(PipelineError::CorruptProof);
        },
        Some(pair) => pair,
    };
    let ghost s5 = b@.skip(end5 as int);

    let k6 = mid6_bytes();
    if !match_at(b, end5, &k6) {
        return Err(PipelineError::CorruptProof);
    }
    assert(end5 + k6@.len() <= b@.len());
    let pos6 = end5 + k6.len();
    assert(s5.skip(k6@.len() as int) =~= b@.skip(pos6 as int));
    let (f6, end6) = match parse_str_at(b, pos6) {
        None => {
            return Err(PipelineError::CorruptProof);
        },
        Some(pair) => pair,
    };
    let ghost s6 = b@.skip(end6 as int);

    if b.len() - end6 != 1 {
        assert(s6.len() != 1);
        assert(s6 != seq![125u8]);
        return Err(PipelineError::CorruptProof);
    }
    if b[end6] != 125 {
        assert(s6[0] == b@[end6 as int]);
        assert(s6 != seq![125u8]);
        return Err(PipelineError::CorruptProof);
    }
    assert(s6 =~= seq![125u8]);
    let p = ProofRecord {
        nifs_primary: f1,
        f_w_snark_primary: f2,
        nifs_secondary: f3,
        f_w_snark_secondary: f4,
        zn_primary: f5,
        zn_secondary: f6,
    };
    assert(spec_parse(b@) == Some(p@));
    Ok(p)
}



/// A parsed quoted string came from exactly its escaped form: whatever
/// `parse_str` accepts is the escaping of its content, the closing
/// quote, and the remainder.
pub proof fn lemma_parse_str_sound(s: Seq<u8>)
    requires
        parse_str(s) is Some,
    ensures
        ({
            let (c, rest) = parse_str(s).unwrap();
            s == esc(c) + seq![34u8] + rest
        }),
    decreases s.len(),
{
    let (c, rest) = parse_str(s).unwrap();
    if s[0] == 34 {
        assert(c =~= Seq::<u8>::empty());
        assert(esc(c) + seq![34u8] + rest =~= s);
    } else if s[0] == 92 {
        if s.len() >= 2 && (s[1] == 34 || s[1] == 92) {
            let x: u8 = s[1];
            let rec = parse_str(s.skip(2));
            let (c2, _) = rec.unwrap();
            lemma_parse_str_sound(s.skip(2));
            assert(c == seq![x] + c2);
            assert(c[0] == x);
            assert(c.skip(1) =~= c2);
            assert(esc(c) == esc_byte(x) + esc(c2));
            assert(esc_byte(x) =~= seq![92u8, x]);
            assert(s =~= seq![92u8, x] + s.skip(2));
            assert(esc(c) + seq![34u8] + rest =~= s);
        } else {
            let v4: u8 = hex_val(s[4]);
            let v5: u8 = hex_val(s[5]);
            let x: u8 = (16 * v4 + v5) as u8;
            let rec = parse_str(s.skip(6));
            let (c2, _) = rec.unwrap();
            lemma_parse_str_sound(s.skip(6));
            assert(c == seq![x] + c2);
            assert(c[0] == x);
            assert(c.skip(1) =~= c2);
            assert(esc(c) == esc_byte(x) + esc(c2));
            assert(v5 < 16);
            assert(x / 16 == v4 && x % 16 == v5) by (nonlinear_arith)
                requires
                    x == 16 * v4 + v5,
                    v4 < 16,
                    v5 < 16,
            ;
            assert(v4 <= 1);
            assert(48 <= s[4] <= 49) by {
                if s[4] > 57 {
                    assert(hex_val(s[4]) >= 10);
                }
            }
            assert(hex_digit(x / 16) == s[4]);
            assert(hex_digit(x % 16) == s[5]);
            assert(esc_byte(x) =~= seq![92u8, 117u8, 48u8, 48u8, s[4], s[5]]);
            assert(s =~= seq![92u8, 117u8, 48u8, 48u8, s[4], s[5]] + s.skip(6));
            assert(esc(c) + seq![34u8] + rest =~= s);
        }
    } else {
        let x: u8 = s[0];
        let rec = parse_str(s.skip(1));
        let (c2, _) = rec.unwrap();
        lemma_parse_str_sound(s.skip(1));
        assert(c == seq![x] + c2);
        assert(c[0] == x);
        assert(c.skip(1) =~= c2);
        assert(esc(c) == esc_byte(x) + esc(c2));
        assert(esc_byte(x) =~= seq![x]);
        assert(s =~= seq![x] + s.skip(1));
        assert(esc(c) + seq![34u8] + rest =~= s);
    }
}

/// One segment of the canonical form: a key, an escaped field, its
/// closing quote, and the remainder.
proof fn lemma_seg_eq(s: Seq<u8>, key: Seq<u8>, f: Seq<u8>, rest: Seq<u8>)
    requires
        starts_with(s, key),
        parse_str(s.skip(key.len() as int)) == Some((f, rest)),
    ensures
        s == key + esc(f) + seq![34u8] + rest,
{
    lemma_parse_str_sound(s.skip(key.len() as int));
    assert(s =~= s.take(key.len() as int) + s.skip(key.len() as int));
    assert(s =~= key + (esc(f) + seq![34u8] + rest));
    assert(s =~= key + esc(f) + seq![34u8] + rest);
}

/// The canonical form, regrouped segment by segment.
#[verifier::rlimit(100)]
proof fn lemma_ser_regroup(p: ProofRecordView)
    ensures
        spec_ser(p) == pre1() + esc(p.nifs_primary) + seq![34u8] + (mid2() + esc(
            p.f_w_snark_primary,
        ) + seq![34u8] + (mid3() + esc(p.nifs_secondary) + seq![34u8] + (mid4() + esc(
            p.f_w_snark_secondary,
        ) + seq![34u8] + (mid5() + esc(p.zn_primary) + seq![34u8] + (mid6() + esc(p.zn_secondary)
            + seq![34u8] + seq![125u8]))))),
{
    assert(spec_ser(p) =~= pre1() + esc(p.nifs_primary) + seq![34u8] + (mid2() + esc(
        p.f_w_snark_primary,
    ) + seq![34u8] + (mid3() + esc(p.nifs_secondary) + seq![34u8] + (mid4() + esc(
        p.f_w_snark_secondary,
    ) + seq![34u8] + (mid5() + esc(p.zn_primary) + seq![34u8] + (mid6() + esc(p.zn_secondary)
        + seq![34u8] + seq![125u8]))))));
}

/// The encoding is stable in the other direction too: any text the
/// deserializer accepts is exactly the canonical serialization of the
/// record it returns.
pub proof fn lemma_proof_record_canonical(s: Seq<u8>, p: ProofRecordView)
    requires
        spec_parse(s) == Some(p),
    ensures
        spec_ser(p) == s,
{
    let s0 = s.skip(pre1().len() as int);
    let (f1, s1) = parse_str(s0).unwrap();
    lemma_seg_eq(s, pre1(), f1, s1);

    let s1b = s1.skip(mid2().len() as int);
    let (f2, s2) = parse_str(s1b).unwrap();
    lemma_seg_eq(s1, mid2(), f2, s2);

    let s2b = s2.skip(mid3().len() as int);
    let (f3, s3) = parse_str(s2b).unwrap();
    lemma_seg_eq(s2, mid3(), f3, s3);

    let s3b = s3.skip(mid4().len() as int);
    let (f4, s4) = parse_str(s3b).unwrap();
    lemma_seg_eq(s3, mid4(), f4, s4);

    let s4b = s4.skip(mid5().len() as int);
    let (f5, s5) = parse_str(s4b).unwrap();
    lemma_seg_eq(s4, mid5(), f5, s5);

    let s5b = s5.skip(mid6().len() as int);
    let (f6, s6) = parse_str(s5b).unwrap();
    lemma_seg_eq(s5, mid6(), f6, s6);

    assert(s6 == seq![125u8]);
    assert(s5 == mid6() + esc(f6) + seq![34u8] + seq![125u8]);
    assert(s4 == mid5() + esc(f5) + seq![34u8] + (mid6() + esc(f6) + seq![34u8] + seq![125u8]));
    assert(s3 == mid4() + esc(f4) + seq![34u8] + (mid5() + esc(f5) + seq![34u8] + (mid6() + esc(
        f6,
    ) + seq![34u8] + seq![125u8])));
    assert(s2 == mid3() + esc(f3) + seq![34u8] + (mid4() + esc(f4) + seq![34u8] + (mid5() + esc(
        f5,
    ) + seq![34u8] + (mid6() + esc(f6) + seq![34u8] + seq![125u8]))));
    assert(s1 == mid2() + esc(f2) + seq![34u8] + (mid3() + esc(f3) + seq![34u8] + (mid4() + esc(
        f4,
    ) + seq![34u8] + (mid5() + esc(f5) + seq![34u8] + (mid6() + esc(f6) + seq![34u8]
        + seq![125u8])))));
    assert(s == pre1() + esc(f1) + seq![34u8] + (mid2() + esc(f2) + seq![34u8] + (mid3() + esc(
        f3,
    ) + seq![34u8] + (mid4() + esc(f4) + seq![34u8] + (mid5() + esc(f5) + seq![34u8] + (mid6()
        + esc(f6) + seq![34u8] + seq![125u8]))))));
    assert(p.nifs_primary == f1 && p.f_w_snark_primary == f2 && p.nifs_secondary == f3
        && p.f_w_snark_secondary == f4 && p.zn_primary == f5 && p.zn_secondary == f6);
    lemma_ser_regroup(p);
}


/// Serialization never collides: two records with the same canonical
/// form are the same record, so changing any field changes the bytes.
pub proof fn lemma_ser_injective(p: ProofRecordView, q: ProofRecordView)
    requires
        spec_ser(p) == spec_ser(q),
    ensures
        p == q,
{
    lemma_proof_record_roundtrip(p);
    lemma_proof_record_roundtrip(q);
}


} // verus!
