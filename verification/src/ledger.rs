//! The ledger payload codec.
//!
//! A reading anchored on the ledger stream travels as one JSON object whose
//! keys are fixed and ordered, whose string values are escaped byte strings,
//! and whose timestamp is a plain signed decimal. The encoder below
//! produces exactly that text; the parser accepts it and hands the fields
//! back, and the round-trip law says it does so for every reading.

use vstd::prelude::*;

use crate::engine::{LedgerReading, LedgerReadingModel};

verus! {

// ----- the fixed frame around the fields -----

pub open spec fn lit_l1() -> Seq<u8> {
    seq![123u8, 34u8, 100u8, 105u8, 100u8, 34u8, 58u8, 34u8]
}

pub open spec fn lit_k2() -> Seq<u8> {
    seq![44u8, 34u8, 115u8, 101u8, 110u8, 115u8, 111u8, 114u8, 95u8, 105u8, 100u8, 34u8, 58u8, 34u8]
}

pub open spec fn lit_k3() -> Seq<u8> {
    seq![44u8, 34u8, 115u8, 101u8, 110u8, 115u8, 111u8, 114u8, 95u8, 110u8, 97u8, 109u8, 101u8, 34u8, 58u8, 34u8]
}

pub open spec fn lit_k4() -> Seq<u8> {
    seq![44u8, 34u8, 115u8, 101u8, 110u8, 115u8, 111u8, 114u8, 95u8, 116u8, 121u8, 112u8, 101u8, 34u8, 58u8, 34u8]
}

pub open spec fn lit_k5() -> Seq<u8> {
    seq![44u8, 34u8, 116u8, 105u8, 109u8, 101u8, 115u8, 116u8, 97u8, 109u8, 112u8, 34u8, 58u8]
}

pub open spec fn lit_k6() -> Seq<u8> {
    seq![44u8, 34u8, 117u8, 110u8, 105u8, 116u8, 34u8, 58u8, 34u8]
}

pub open spec fn lit_k7() -> Seq<u8> {
    seq![44u8, 34u8, 118u8, 97u8, 108u8, 117u8, 101u8, 34u8, 58u8, 34u8]
}

pub open spec fn lit_k8() -> Seq<u8> {
    seq![44u8, 34u8, 118u8, 101u8, 114u8, 105u8, 102u8, 105u8, 97u8, 98u8, 108u8, 101u8, 95u8, 99u8, 114u8, 101u8, 100u8, 101u8, 110u8, 116u8, 105u8, 97u8, 108u8, 34u8, 58u8, 34u8]
}

pub open spec fn lit_k9() -> Seq<u8> {
    seq![125u8]
}

fn put_l1(out: &mut Vec<u8>)
    ensures
        final(out)@ == old(out)@ + lit_l1(),
{
    out.push(123u8);
    out.push(34u8);
    out.push(100u8);
    out.push(105u8);
    out.push(100u8);
    out.push(34u8);
    out.push(58u8);
    out.push(34u8);
    assert(out@ =~= old(out)@ + lit_l1());
}

fn put_k2(out: &mut Vec<u8>)
    ensures
        final(out)@ == old(out)@ + lit_k2(),
{
    out.push(44u8);
    out.push(34u8);
    out.push(115u8);
    out.push(101u8);
    out.push(110u8);
    out.push(115u8);
    out.push(111u8);
    out.push(114u8);
    out.push(95u8);
    out.push(105u8);
    out.push(100u8);
    out.push(34u8);
    out.push(58u8);
    out.push(34u8);
    assert(out@ =~= old(out)@ + lit_k2());
}

fn put_k3(out: &mut Vec<u8>)
    ensures
        final(out)@ == old(out)@ + lit_k3(),
{
    out.push(44u8);
    out.push(34u8);
    out.push(115u8);
    out.push(101u8);
    out.push(110u8);
    out.push(115u8);
    out.push(111u8);
    out.push(114u8);
    out.push(95u8);
    out.push(110u8);
    out.push(97u8);
    out.push(109u8);
    out.push(101u8);
    out.push(34u8);
    out.push(58u8);
    out.push(34u8);
    assert(out@ =~= old(out)@ + lit_k3());
}

fn put_k4(out: &mut Vec<u8>)
    ensures
        final(out)@ == old(out)@ + lit_k4(),
{
    out.push(44u8);
    out.push(34u8);
    out.push(115u8);
    out.push(101u8);
    out.push(110u8);
    out.push(115u8);
    out.push(111u8);
    out.push(114u8);
    out.push(95u8);
    out.push(116u8);
    out.push(121u8);
    out.push(112u8);
    out.push(101u8);
    out.push(34u8);
    out.push(58u8);
    out.push(34u8);
    assert(out@ =~= old(out)@ + lit_k4());
}

fn put_k5(out: &mut Vec<u8>)
    ensures
        final(out)@ == old(out)@ + lit_k5(),
{
    out.push(44u8);
    out.push(34u8);
    out.push(116u8);
    out.push(105u8);
    out.push(109u8);
    out.push(101u8);
    out.push(115u8);
    out.push(116u8);
    out.push(97u8);
    out.push(109u8);
    out.push(112u8);
    out.push(34u8);
    out.push(58u8);
    assert(out@ =~= old(out)@ + lit_k5());
}

fn put_k6(out: &mut Vec<u8>)
    ensures
        final(out)@ == old(out)@ + lit_k6(),
{
    out.push(44u8);
    out.push(34u8);
    out.push(117u8);
    out.push(110u8);
    out.push(105u8);
    out.push(116u8);
    out.push(34u8);
    out.push(58u8);
    out.push(34u8);
    assert(out@ =~= old(out)@ + lit_k6());
}

fn put_k7(out: &mut Vec<u8>)
    ensures
        final(out)@ == old(out)@ + lit_k7(),
{
    out.push(44u8);
    out.push(34u8);
    out.push(118u8);
    out.push(97u8);
    out.push(108u8);
    out.push(117u8);
    out.push(101u8);
    out.push(34u8);
    out.push(58u8);
    out.push(34u8);
    assert(out@ =~= old(out)@ + lit_k7());
}

fn put_k8(out: &mut Vec<u8>)
    ensures
        final(out)@ == old(out)@ + lit_k8(),
{
    out.push(44u8);
    out.push(34u8);
    out.push(118u8);
    out.push(101u8);
    out.push(114u8);
    out.push(105u8);
    out.push(102u8);
    out.push(105u8);
    out.push(97u8);
    out.push(98u8);
    out.push(108u8);
    out.push(101u8);
    out.push(95u8);
    out.push(99u8);
    out.push(114u8);
    out.push(101u8);
    out.push(100u8);
    out.push(101u8);
    out.push(110u8);
    out.push(116u8);
    out.push(105u8);
    out.push(97u8);
    out.push(108u8);
    out.push(34u8);
    out.push(58u8);
    out.push(34u8);
    assert(out@ =~= old(out)@ + lit_k8());
}

fn put_k9(out: &mut Vec<u8>)
    ensures
        final(out)@ == old(out)@ + lit_k9(),
{
    out.push(125u8);
    assert(out@ =~= old(out)@ + lit_k9());
}

// ----- string escaping -----

/// The byte a hexadecimal digit stands for must read back as itself.
pub open spec fn hex_digit(n: u8) -> u8
    recommends
        n < 16,
{
    if n < 10 {
        (48 + n) as u8
    } else {
        (87 + n) as u8
    }
}

/// How one byte appears inside a JSON string: quotes and backslashes are
/// escaped, control bytes take the six-byte form, everything else stands as
/// it is.
pub open spec fn esc_byte(b: u8) -> Seq<u8> {
    if b == 34 {
        seq![92u8, 34u8]
    } else if b == 92 {
        seq![92u8, 92u8]
    } else if b < 32 {
        seq![92u8, 117u8, 48u8, 48u8, hex_digit(b / 16), hex_digit(b % 16)]
    } else {
        seq![b]
    }
}

pub open spec fn escape(s: Seq<u8>) -> Seq<u8>
    decreases s.len(),
{
    if s.len() == 0 {
        Seq::empty()
    } else {
        esc_byte(s[0]) + escape(s.skip(1))
    }
}

/// Escaping distributes over appending one byte at the end.
proof fn lemma_escape_push(s: Seq<u8>, b: u8)
    ensures
        escape(s.push(b)) == escape(s) + esc_byte(b),
    decreases s.len(),
{
    if s.len() == 0 {
        assert(s.push(b)[0] == b);
        assert(s.push(b).skip(1) =~= Seq::<u8>::empty());
        assert(escape(s.push(b)) == esc_byte(b) + escape(Seq::<u8>::empty()));
        assert(escape(s.push(b)) =~= escape(s) + esc_byte(b));
    } else {
        assert(s.push(b)[0] == s[0]);
        assert(s.push(b).skip(1) =~= s.skip(1).push(b));
        lemma_escape_push(s.skip(1), b);
        assert(escape(s.push(b)) =~= escape(s) + esc_byte(b));
    }
}

/// Append the escaped form of a byte string.
fn escape_into(out: &mut Vec<u8>, s: &Vec<u8>)
    ensures
        final(out)@ == old(out)@ + escape(s@),
{
    let mut i: usize = 0;
    while i < s.len()
        invariant
            i <= s@.len(),
            out@ == old(out)@ + escape(s@.subrange(0, i as int)),
        decreases s@.len() - i,
    {
        let ghost pre = out@;
        let b = s[i];
        if b == 34 {
            out.push(92);
            out.push(34);
        } else if b == 92 {
            out.push(92);
            out.push(92);
        } else if b < 32 {
            out.push(92);
            out.push(117);
            out.push(48);
            out.push(48);
            let hi = b / 16;
            let lo = b % 16;
            out.push(if hi < 10 { 48 + hi } else { 87 + hi });
            out.push(if lo < 10 { 48 + lo } else { 87 + lo });
        } else {
            out.push(b);
        }
        proof {
            assert(out@ =~= pre + esc_byte(s@[i as int]));
            assert(s@.subrange(0, i + 1) =~= s@.subrange(0, i as int).push(s@[i as int]));
            lemma_escape_push(s@.subrange(0, i as int), s@[i as int]);
            assert(out@ =~= old(out)@ + escape(s@.subrange(0, i + 1)));
        }
        i = i + 1;
    }
    assert(s@.subrange(0, s@.len() as int) =~= s@);
}

// ----- non-negative decimal numbers -----

/// The digits of `n`, most significant first; zero has none.
pub open spec fn dec_digits(n: int) -> Seq<u8>
    decreases n,
{
    if n <= 0 {
        Seq::empty()
    } else {
        dec_digits(n / 10).push((48 + n % 10) as u8)
    }
}

/// The decimal text of a non-negative number.
pub open spec fn dec_rep(n: int) -> Seq<u8> {
    if n == 0 {
        seq![48u8]
    } else {
        dec_digits(n)
    }
}

/// The decimal text of any number: a minus sign ahead of the magnitude.
pub open spec fn dec_rep_signed(n: int) -> Seq<u8> {
    if n < 0 {
        seq![45u8] + dec_rep(-n)
    } else {
        dec_rep(n)
    }
}

/// The digits of `n`, least significant first.
pub open spec fn dec_digits_rev(n: int) -> Seq<u8>
    decreases n,
{
    if n <= 0 {
        Seq::empty()
    } else {
        seq![(48 + n % 10) as u8] + dec_digits_rev(n / 10)
    }
}

proof fn lemma_dec_digits_reverse(n: int)
    ensures
        dec_digits(n) == dec_digits_rev(n).reverse(),
    decreases n,
{
    if n <= 0 {
        assert(dec_digits_rev(n).reverse() =~= Seq::<u8>::empty());
    } else {
        lemma_dec_digits_reverse(n / 10);
        assert(dec_digits_rev(n).reverse() =~= dec_digits_rev(n / 10).reverse().push(
            (48 + n % 10) as u8,
        ));
    }
}

/// Append the decimal text of a magnitude.
fn dec_into_u64(out: &mut Vec<u8>, n: u64)
    ensures
        final(out)@ == old(out)@ + dec_rep(n as int),
{
    if n == 0 {
        out.push(48);
        assert(out@ =~= old(out)@ + dec_rep(0));
        return ;
    }
    let mut tmp: Vec<u8> = Vec::new();
    let mut cur: u64 = n;
    while cur > 0
        invariant
            0 <= cur <= n,
            dec_digits_rev(n as int) == tmp@ + dec_digits_rev(cur as int),
        decreases cur,
    {
        tmp.push(48 + (cur % 10) as u8);
        proof {
            assert(dec_digits_rev(cur as int) =~= seq![(48 + cur as int % 10) as u8]
                + dec_digits_rev(cur as int / 10));
            assert(dec_digits_rev(n as int) =~= tmp@ + dec_digits_rev(cur as int / 10));
        }
        cur = cur / 10;
    }
    assert(dec_digits_rev(n as int) =~= tmp@);
    proof {
        lemma_dec_digits_reverse(n as int);
    }
    let mut j: usize = tmp.len();
    while j > 0
        invariant
            j <= tmp@.len(),
            out@ == old(out)@ + tmp@.reverse().subrange(0, tmp@.len() - j),
        decreases j,
    {
        out.push(tmp[j - 1]);
        proof {
            assert(tmp@.reverse()[tmp@.len() - j] == tmp@[j - 1]);
            assert(out@ =~= old(out)@ + tmp@.reverse().subrange(0, tmp@.len() - j + 1));
        }
        j = j - 1;
    }
    assert(tmp@.reverse().subrange(0, tmp@.len() as int) =~= tmp@.reverse());
    assert(out@ =~= old(out)@ + dec_rep(n as int));
}

/// Append the decimal text of a timestamp, sign included.
fn dec_into_signed(out: &mut Vec<u8>, n: i64)
    ensures
        final(out)@ == old(out)@ + dec_rep_signed(n as int),
{
    if n >= 0 {
        dec_into_u64(out, n as u64);
    } else {
        out.push(45);
        let m: u64 = if n == -0x8000_0000_0000_0000 {
            0x8000_0000_0000_0000
        } else {
            (-n) as u64
        };
        proof {
            assert(m as int == -(n as int));
        }
        let ghost pre = out@;
        dec_into_u64(out, m);
        assert(out@ =~= old(out)@ + dec_rep_signed(n as int));
    }
}

// ----- the payload -----

/// One escaped field, its closing quote, and what follows.
pub open spec fn field(f: Seq<u8>, rest: Seq<u8>) -> Seq<u8> {
    escape(f) + (seq![34u8] + rest)
}

/// The payload text of a reading.
pub open spec fn spec_ledger_json(m: LedgerReadingModel) -> Seq<u8> {
    lit_l1() + field(
        m.did,
        lit_k2() + field(
            m.sensor_id,
            lit_k3() + field(
                m.sensor_name,
                lit_k4() + field(
                    m.sensor_type,
                    lit_k5() + (dec_rep_signed(m.timestamp as int) + (lit_k6() + field(
                        m.unit,
                        lit_k7() + field(
                            m.value,
                            lit_k8() + field(m.vc, lit_k9()),
                        ),
                    ))),
                ),
            ),
        ),
    )
}

// Each helper appends one suffix of the payload, so every regrouping stays
// small.

fn enc_from_vc(out: &mut Vec<u8>, m: &LedgerReading)
    ensures
        final(out)@ == old(out)@ + (lit_k8() + field(m@.vc, lit_k9())),
{
    put_k8(out);
    escape_into(out, &m.vc);
    out.push(34);
    put_k9(out);
    assert(out@ =~= old(out)@ + (lit_k8() + field(m@.vc, lit_k9())));
}

fn enc_from_value(out: &mut Vec<u8>, m: &LedgerReading)
    ensures
        final(out)@ == old(out)@ + (lit_k7() + field(
            m@.value,
            lit_k8() + field(m@.vc, lit_k9()),
        )),
{
    put_k7(out);
    escape_into(out, &m.value);
    out.push(34);
    let ghost mid = out@;
    enc_from_vc(out, m);
    assert(out@ =~= old(out)@ + (lit_k7() + field(
        m@.value,
        lit_k8() + field(m@.vc, lit_k9()),
    )));
}

fn enc_from_unit(out: &mut Vec<u8>, m: &LedgerReading)
    ensures
        final(out)@ == old(out)@ + (lit_k6() + field(
            m@.unit,
            lit_k7() + field(m@.value, lit_k8() + field(m@.vc, lit_k9())),
        )),
{
    put_k6(out);
    escape_into(out, &m.unit);
    out.push(34);
    enc_from_value(out, m);
    assert(out@ =~= old(out)@ + (lit_k6() + field(
        m@.unit,
        lit_k7() + field(m@.value, lit_k8() + field(m@.vc, lit_k9())),
    )));
}

fn enc_from_timestamp(out: &mut Vec<u8>, m: &LedgerReading)
    ensures
        final(out)@ == old(out)@ + (lit_k5() + (dec_rep_signed(m@.timestamp as int) + (lit_k6() + field(
            m@.unit,
            lit_k7() + field(m@.value, lit_k8() + field(m@.vc, lit_k9())),
        )))),
{
    put_k5(out);
    dec_into_signed(out, m.timestamp);
    enc_from_unit(out, m);
    assert(out@ =~= old(out)@ + (lit_k5() + (dec_rep_signed(m@.timestamp as int) + (lit_k6() + field(
        m@.unit,
        lit_k7() + field(m@.value, lit_k8() + field(m@.vc, lit_k9())),
    )))));
}

fn enc_from_type(out: &mut Vec<u8>, m: &LedgerReading)
    ensures
        final(out)@ == old(out)@ + (lit_k4() + field(
            m@.sensor_type,
            lit_k5() + (dec_rep_signed(m@.timestamp as int) + (lit_k6() + field(
                m@.unit,
                lit_k7() + field(m@.value, lit_k8() + field(m@.vc, lit_k9())),
            ))),
        )),
{
    put_k4(out);
    escape_into(out, &m.sensor_type);
    out.push(34);
    enc_from_timestamp(out, m);
    assert(out@ =~= old(out)@ + (lit_k4() + field(
        m@.sensor_type,
        lit_k5() + (dec_rep_signed(m@.timestamp as int) + (lit_k6() + field(
            m@.unit,
            lit_k7() + field(m@.value, lit_k8() + field(m@.vc, lit_k9())),
        ))),
    )));
}

fn enc_from_name(out: &mut Vec<u8>, m: &LedgerReading)
    ensures
        final(out)@ == old(out)@ + (lit_k3() + field(
            m@.sensor_name,
            lit_k4() + field(
                m@.sensor_type,
                lit_k5() + (dec_rep_signed(m@.timestamp as int) + (lit_k6() + field(
                    m@.unit,
                    lit_k7() + field(m@.value, lit_k8() + field(m@.vc, lit_k9())),
                ))),
            ),
        )),
{
    put_k3(out);
    escape_into(out, &m.sensor_name);
    out.push(34);
    enc_from_type(out, m);
    assert(out@ =~= old(out)@ + (lit_k3() + field(
        m@.sensor_name,
        lit_k4() + field(
            m@.sensor_type,
            lit_k5() + (dec_rep_signed(m@.timestamp as int) + (lit_k6() + field(
                m@.unit,
                lit_k7() + field(m@.value, lit_k8() + field(m@.vc, lit_k9())),
            ))),
        ),
    )));
}

fn enc_from_sid(out: &mut Vec<u8>, m: &LedgerReading)
    ensures
        final(out)@ == old(out)@ + (lit_k2() + field(
            m@.sensor_id,
            lit_k3() + field(
                m@.sensor_name,
                lit_k4() + field(
                    m@.sensor_type,
                    lit_k5() + (dec_rep_signed(m@.timestamp as int) + (lit_k6() + field(
                        m@.unit,
                        lit_k7() + field(m@.value, lit_k8() + field(m@.vc, lit_k9())),
                    ))),
                ),
            ),
        )),
{
    put_k2(out);
    escape_into(out, &m.sensor_id);
    out.push(34);
    enc_from_name(out, m);
    assert(out@ =~= old(out)@ + (lit_k2() + field(
        m@.sensor_id,
        lit_k3() + field(
            m@.sensor_name,
            lit_k4() + field(
                m@.sensor_type,
                lit_k5() + (dec_rep_signed(m@.timestamp as int) + (lit_k6() + field(
                    m@.unit,
                    lit_k7() + field(m@.value, lit_k8() + field(m@.vc, lit_k9())),
                ))),
            ),
        ),
    )));
}

/// Encode a reading as its ledger payload.
pub fn encode_ledger_payload(m: &LedgerReading) -> (r: Vec<u8>)
    ensures
        r@ == spec_ledger_json(m@),
{
    let mut out: Vec<u8> = Vec::new();
    put_l1(&mut out);
    escape_into(&mut out, &m.did);
    out.push(34);
    enc_from_sid(&mut out, m);
    assert(out@ =~= spec_ledger_json(m@));
    out
}


// ----- parsing -----

pub open spec fn is_hex_digit(b: u8) -> bool {
    (48 <= b <= 57) || (97 <= b <= 102)
}

pub open spec fn hex_val(b: u8) -> u8
    recommends
        is_hex_digit(b),
{
    if b <= 57 {
        (b - 48) as u8
    } else {
        (b - 87) as u8
    }
}

proof fn lemma_hex_round(n: u8)
    requires
        n < 16,
    ensures
        is_hex_digit(hex_digit(n)),
        hex_val(hex_digit(n)) == n,
{
}

/// Scan one JSON string up to its closing quote, undoing the escaping; hands
/// back the content and what follows the quote.
pub open spec fn scan_string(s: Seq<u8>) -> Option<(Seq<u8>, Seq<u8>)>
    decreases s.len(),
{
    if s.len() == 0 {
        None
    } else if s[0] == 34 {
        Some((Seq::empty(), s.skip(1)))
    } else if s[0] == 92 {
        if s.len() >= 2 && s[1] == 117 {
            if s.len() >= 6 && s[2] == 48 && s[3] == 48 && is_hex_digit(s[4]) && is_hex_digit(s[5])
                && hex_val(s[4]) * 16 + hex_val(s[5]) < 32 {
                match scan_string(s.skip(6)) {
                    Some((c, r)) => Some(
                        (seq![(hex_val(s[4]) * 16 + hex_val(s[5])) as u8] + c, r),
                    ),
                    None => None,
                }
            } else {
                None
            }
        } else if s.len() >= 2 && (s[1] == 34 || s[1] == 92) {
            match scan_string(s.skip(2)) {
                Some((c, r)) => Some((seq![s[1]] + c, r)),
                None => None,
            }
        } else {
            None
        }
    } else if s[0] < 32 {
        None
    } else {
        match scan_string(s.skip(1)) {
            Some((c, r)) => Some((seq![s[0]] + c, r)),
            None => None,
        }
    }
}

/// Scanning undoes escaping: a field followed by its closing quote scans to
/// exactly the field.
proof fn lemma_scan_field(f: Seq<u8>, rest: Seq<u8>)
    ensures
        scan_string(field(f, rest)) == Some((f, rest)),
    decreases f.len(),
{
    let s = field(f, rest);
    if f.len() == 0 {
        assert(s =~= seq![34u8] + rest);
        assert(s.skip(1) =~= rest);
    } else {
        let b = f[0];
        let tail = field(f.skip(1), rest);
        assert(s =~= esc_byte(b) + tail);
        lemma_scan_field(f.skip(1), rest);
        if b == 34 || b == 92 {
            assert(s[0] == 92 && s[1] == b);
            assert(s.skip(2) =~= tail);
            assert(seq![b] + f.skip(1) =~= f);
        } else if b < 32 {
            lemma_hex_round(b / 16);
            lemma_hex_round(b % 16);
            assert(s[0] == 92 && s[1] == 117 && s[2] == 48 && s[3] == 48);
            assert(s[4] == hex_digit(b / 16) && s[5] == hex_digit(b % 16));
            assert(hex_val(s[4]) * 16 + hex_val(s[5]) == b);
            assert(s.skip(6) =~= tail);
            assert(seq![b] + f.skip(1) =~= f);
        } else {
            assert(s[0] == b);
            assert(s.skip(1) =~= tail);
            assert(seq![b] + f.skip(1) =~= f);
        }
    }
}

pub open spec fn is_digit(b: u8) -> bool {
    48 <= b <= 57
}

/// Split off the leading run of decimal digits.
pub open spec fn scan_digits(s: Seq<u8>) -> (Seq<u8>, Seq<u8>)
    decreases s.len(),
{
    if s.len() > 0 && is_digit(s[0]) {
        let (d, r) = scan_digits(s.skip(1));
        (seq![s[0]] + d, r)
    } else {
        (Seq::empty(), s)
    }
}

/// The number a digit run denotes.
pub open spec fn dec_val(ds: Seq<u8>) -> int
    decreases ds.len(),
{
    if ds.len() == 0 {
        0
    } else {
        dec_val(ds.drop_last()) * 10 + (ds.last() - 48)
    }
}

proof fn lemma_dec_digits_val(n: int)
    requires
        n >= 0,
    ensures
        dec_val(dec_digits(n)) == n,
        forall|i: int| 0 <= i < dec_digits(n).len() ==> is_digit(#[trigger] dec_digits(n)[i]),
        n > 0 ==> dec_digits(n).len() >= 1,
    decreases n,
{
    if n > 0 {
        lemma_dec_digits_val(n / 10);
        let ds = dec_digits(n);
        assert(ds.drop_last() =~= dec_digits(n / 10));
        assert(ds.last() == (48 + n % 10) as u8);
    }
}

proof fn lemma_dec_rep_val(n: int)
    requires
        n >= 0,
    ensures
        dec_val(dec_rep(n)) == n,
        forall|i: int| 0 <= i < dec_rep(n).len() ==> is_digit(#[trigger] dec_rep(n)[i]),
        dec_rep(n).len() >= 1,
{
    lemma_dec_digits_val(n);
    if n == 0 {
        assert(dec_rep(0).drop_last() =~= Seq::<u8>::empty());
    }
}

proof fn lemma_scan_digits(ds: Seq<u8>, rest: Seq<u8>)
    requires
        forall|i: int| 0 <= i < ds.len() ==> is_digit(#[trigger] ds[i]),
        rest.len() == 0 || !is_digit(rest[0]),
    ensures
        scan_digits(ds + rest) == (ds, rest),
    decreases ds.len(),
{
    let s = ds + rest;
    if ds.len() == 0 {
        assert(s =~= rest);
    } else {
        assert(s[0] == ds[0]);
        assert(s.skip(1) =~= ds.skip(1) + rest);
        lemma_scan_digits(ds.skip(1), rest);
        assert(seq![ds[0]] + ds.skip(1) =~= ds);
    }
}

/// Read a signed number that fits the timestamp type.
pub open spec fn parse_number(s: Seq<u8>) -> Option<(i64, Seq<u8>)> {
    if s.len() > 0 && s[0] == 45 {
        let (ds, r) = scan_digits(s.skip(1));
        if ds.len() == 0 || dec_val(ds) > 0x8000_0000_0000_0000 {
            None
        } else {
            Some(((-dec_val(ds)) as i64, r))
        }
    } else {
        let (ds, r) = scan_digits(s);
        if ds.len() == 0 || dec_val(ds) > 0x7FFF_FFFF_FFFF_FFFF {
            None
        } else {
            Some((dec_val(ds) as i64, r))
        }
    }
}

/// Strip an expected literal from the front.
pub open spec fn strip_lit(s: Seq<u8>, l: Seq<u8>) -> Option<Seq<u8>> {
    if l.len() <= s.len() && s.subrange(0, l.len() as int) == l {
        Some(s.skip(l.len() as int))
    } else {
        None
    }
}

proof fn lemma_strip(l: Seq<u8>, rest: Seq<u8>)
    ensures
        strip_lit(l + rest, l) == Some(rest),
{
    assert((l + rest).subrange(0, l.len() as int) =~= l);
    assert((l + rest).skip(l.len() as int) =~= rest);
}

/// Parse a ledger payload: the fixed frame, the six escaped fields, and the
/// timestamp, with nothing left over.
pub open spec fn spec_parse_ledger(s: Seq<u8>) -> Option<LedgerReadingModel> {
    match strip_lit(s, lit_l1()) {
        None => None,
        Some(s1) => match scan_string(s1) {
            None => None,
            Some((did, s2)) => match strip_lit(s2, lit_k2()) {
                None => None,
                Some(s3) => match scan_string(s3) {
                    None => None,
                    Some((sensor_id, s4)) => match strip_lit(s4, lit_k3()) {
                        None => None,
                        Some(s5) => match scan_string(s5) {
                            None => None,
                            Some((sensor_name, s6)) => match strip_lit(s6, lit_k4()) {
                                None => None,
                                Some(s7) => match scan_string(s7) {
                                    None => None,
                                    Some((sensor_type, s8)) => match strip_lit(s8, lit_k5()) {
                                        None => None,
                                        Some(s9) => match parse_number(s9) {
                                            None => None,
                                            Some((timestamp, s10)) => match strip_lit(
                                                s10,
                                                lit_k6(),
                                            ) {
                                                None => None,
                                                Some(s11) => match scan_string(s11) {
                                                    None => None,
                                                    Some((unit, s12)) => match strip_lit(
                                                        s12,
                                                        lit_k7(),
                                                    ) {
                                                        None => None,
                                                        Some(s13) => match scan_string(s13) {
                                                            None => None,
                                                            Some((value, s14)) => match strip_lit(
                                                                s14,
                                                                lit_k8(),
                                                            ) {
                                                                None => None,
                                                                Some(s15) => match scan_string(
                                                                    s15,
                                                                ) {
                                                                    None => None,
                                                                    Some((vc, s16)) => match strip_lit(
                                                                        s16,
                                                                        lit_k9(),
                                                                    ) {
                                                                        None => None,
                                                                        Some(s17) => if s17.len()
                                                                            == 0 {
                                                                            Some(
                                                                                LedgerReadingModel {
                                                                                    did,
                                                                                    vc,
                                                                                    sensor_id,
                                                                                    sensor_name,
                                                                                    sensor_type,
                                                                                    value,
                                                                                    unit,
                                                                                    timestamp,
                                                                                },
                                                                            )
                                                                        } else {
                                                                            None
                                                                        },
                                                                    },
                                                                },
                                                            },
                                                        },
                                                    },
                                                },
                                            },
                                        },
                                    },
                                },
                            },
                        },
                    },
                },
            },
        },
    }
}

/// Law: the ledger payload codec round-trips on every reading.
#[verifier::rlimit(100)]
pub proof fn lemma_ledger_round_trip(m: LedgerReadingModel)
    ensures
        spec_parse_ledger(spec_ledger_json(m)) == Some(m),
{
    let t8 = lit_k8() + field(m.vc, lit_k9());
    let t7 = lit_k7() + field(m.value, t8);
    let t6 = lit_k6() + field(m.unit, t7);
    let t5d = dec_rep_signed(m.timestamp as int) + t6;
    let t5 = lit_k5() + t5d;
    let t4 = lit_k4() + field(m.sensor_type, t5);
    let t3 = lit_k3() + field(m.sensor_name, t4);
    let t2 = lit_k2() + field(m.sensor_id, t3);
    let s = spec_ledger_json(m);
    assert(s == lit_l1() + field(m.did, t2));
    lemma_strip(lit_l1(), field(m.did, t2));
    lemma_scan_field(m.did, t2);
    lemma_strip(lit_k2(), field(m.sensor_id, t3));
    lemma_scan_field(m.sensor_id, t3);
    lemma_strip(lit_k3(), field(m.sensor_name, t4));
    lemma_scan_field(m.sensor_name, t4);
    lemma_strip(lit_k4(), field(m.sensor_type, t5));
    lemma_scan_field(m.sensor_type, t5);
    lemma_strip(lit_k5(), t5d);
    assert(t6[0] == 44 && !is_digit(t6[0]));
    if m.timestamp < 0 {
        let mag = -(m.timestamp as int);
        lemma_dec_rep_val(mag);
        assert(t5d[0] == 45);
        assert(t5d.skip(1) =~= dec_rep(mag) + t6);
        lemma_scan_digits(dec_rep(mag), t6);
        assert(dec_val(dec_rep(mag)) <= 0x8000_0000_0000_0000);
        assert((-dec_val(dec_rep(mag))) as i64 == m.timestamp);
    } else {
        lemma_dec_rep_val(m.timestamp as int);
        assert(dec_rep_signed(m.timestamp as int) == dec_rep(m.timestamp as int));
        assert(t5d[0] != 45) by {
            assert(is_digit(dec_rep(m.timestamp as int)[0]));
        }
        lemma_scan_digits(dec_rep(m.timestamp as int), t6);
    }
    lemma_strip(lit_k6(), field(m.unit, t7));
    lemma_scan_field(m.unit, t7);
    lemma_strip(lit_k7(), field(m.value, t8));
    lemma_scan_field(m.value, t8);
    lemma_strip(lit_k8(), field(m.vc, lit_k9()));
    lemma_scan_field(m.vc, lit_k9());
    lemma_strip(lit_k9(), Seq::<u8>::empty());
    assert(lit_k9() + Seq::<u8>::empty() =~= lit_k9());
}


// ----- the executable decoder -----

/// The scan of the whole suffix is the scanned prefix plus the scan of the
/// current suffix.
pub open spec fn scan_cont(s0: Seq<u8>, out: Seq<u8>, srem: Seq<u8>) -> bool {
    scan_string(s0) == (match scan_string(srem) {
        Some((c, r)) => Some((out + c, r)),
        None => None,
    })
}

/// Extending the scanned prefix by the byte one escape unit decodes to.
proof fn lemma_scan_cont_step(s0: Seq<u8>, out0: Seq<u8>, rem: Seq<u8>, x: u8, rem2: Seq<u8>)
    requires
        scan_cont(s0, out0, rem),
        scan_string(rem) == (match scan_string(rem2) {
            Some((c, r)) => Some((seq![x] + c, r)),
            None => None,
        }),
    ensures
        scan_cont(s0, out0.push(x), rem2),
{
    match scan_string(rem2) {
        Some((c, r)) => {
            assert(out0 + (seq![x] + c) =~= out0.push(x) + c);
        },
        None => {},
    }
}

fn lit_l1_vec() -> (r: Vec<u8>)
    ensures
        r@ == lit_l1(),
{
    let mut v: Vec<u8> = Vec::new();
    put_l1(&mut v);
    v
}

fn lit_k2_vec() -> (r: Vec<u8>)
    ensures
        r@ == lit_k2(),
{
    let mut v: Vec<u8> = Vec::new();
    put_k2(&mut v);
    v
}

fn lit_k3_vec() -> (r: Vec<u8>)
    ensures
        r@ == lit_k3(),
{
    let mut v: Vec<u8> = Vec::new();
    put_k3(&mut v);
    v
}

fn lit_k4_vec() -> (r: Vec<u8>)
    ensures
        r@ == lit_k4(),
{
    let mut v: Vec<u8> = Vec::new();
    put_k4(&mut v);
    v
}

fn lit_k5_vec() -> (r: Vec<u8>)
    ensures
        r@ == lit_k5(),
{
    let mut v: Vec<u8> = Vec::new();
    put_k5(&mut v);
    v
}

fn lit_k6_vec() -> (r: Vec<u8>)
    ensures
        r@ == lit_k6(),
{
    let mut v: Vec<u8> = Vec::new();
    put_k6(&mut v);
    v
}

fn lit_k7_vec() -> (r: Vec<u8>)
    ensures
        r@ == lit_k7(),
{
    let mut v: Vec<u8> = Vec::new();
    put_k7(&mut v);
    v
}

fn lit_k8_vec() -> (r: Vec<u8>)
    ensures
        r@ == lit_k8(),
{
    let mut v: Vec<u8> = Vec::new();
    put_k8(&mut v);
    v
}

fn lit_k9_vec() -> (r: Vec<u8>)
    ensures
        r@ == lit_k9(),
{
    let mut v: Vec<u8> = Vec::new();
    put_k9(&mut v);
    v
}

/// Consume an expected literal.
fn eat_lit(s: &Vec<u8>, pos: usize, l: &Vec<u8>) -> (r: Option<usize>)
    requires
        pos <= s@.len(),
    ensures
        match r {
            Some(p) => pos <= p <= s@.len() && strip_lit(s@.skip(pos as int), l@) == Some(
                s@.skip(p as int),
            ),
            None => strip_lit(s@.skip(pos as int), l@) is None,
        },
{
    let total = s.len();
    if l.len() > total - pos {
        return None;
    }
    let mut i: usize = 0;
    while i < l.len()
        invariant
            total == s@.len(),
            pos + l@.len() <= total,
            i <= l@.len(),
            forall|j: int| 0 <= j < i ==> s@[pos + j] == l@[j],
        decreases l@.len() - i,
    {
        if s[pos + i] != l[i] {
            proof {
                assert(s@.skip(pos as int).subrange(0, l@.len() as int)[i as int] == s@[pos + i]);
            }
            return None;
        }
        i = i + 1;
    }
    proof {
        assert(s@.skip(pos as int).subrange(0, l@.len() as int) =~= l@);
        assert(s@.skip(pos as int).skip(l@.len() as int) =~= s@.skip(pos + l@.len()));
    }
    Some(pos + l.len())
}

/// Scan one escaped string starting at `pos`, up to its closing quote.
fn scan_string_at(s: &Vec<u8>, pos: usize) -> (r: Option<(Vec<u8>, usize)>)
    requires
        pos <= s@.len(),
    ensures
        match r {
            Some((c, p)) => pos <= p <= s@.len() && scan_string(s@.skip(pos as int)) == Some(
                (c@, s@.skip(p as int)),
            ),
            None => scan_string(s@.skip(pos as int)) is None,
        },
{
    let mut out: Vec<u8> = Vec::new();
    let mut i: usize = pos;
    while i < s.len()
        invariant
            pos <= i <= s@.len(),
            scan_cont(s@.skip(pos as int), out@, s@.skip(i as int)),
        decreases s@.len() - i,
    {
        let ghost rem = s@.skip(i as int);
        let b = s[i];
        proof {
            assert(rem[0] == b);
        }
        if b == 34 {
            proof {
                assert(rem.skip(1) =~= s@.skip(i + 1));
                assert(out@ + Seq::<u8>::empty() =~= out@);
            }
            return Some((out, i + 1));
        } else if b == 92 {
            if s.len() - i > 1 && s[i + 1] == 117 {
                if s.len() - i > 5 && s[i + 2] == 48 && s[i + 3] == 48 {
                    let h1 = s[i + 4];
                    let h2 = s[i + 5];
                    let ok1 = (48 <= h1 && h1 <= 57) || (97 <= h1 && h1 <= 102);
                    let ok2 = (48 <= h2 && h2 <= 57) || (97 <= h2 && h2 <= 102);
                    if !(ok1 && ok2) {
                        proof {
                            assert(rem[1] == 117);
                            assert(scan_string(rem) is None);
                        }
                        return None;
                    }
                    let v1 = if h1 <= 57 { h1 - 48 } else { h1 - 87 };
                    let v2 = if h2 <= 57 { h2 - 48 } else { h2 - 87 };
                    if !(v1 < 2) {
                        proof {
                            assert(rem[1] == 117 && rem[2] == 48 && rem[3] == 48);
                            assert(rem[4] == h1 && rem[5] == h2);
                            assert(hex_val(rem[4]) * 16 + hex_val(rem[5]) >= 32);
                            assert(scan_string(rem) is None);
                        }
                        return None;
                    }
                    let x = v1 * 16 + v2;
                    let ghost out0 = out@;
                    out.push(x);
                    proof {
                        assert(rem[1] == 117 && rem[2] == 48 && rem[3] == 48);
                        assert(rem[4] == h1 && rem[5] == h2);
                        assert(hex_val(rem[4]) * 16 + hex_val(rem[5]) == x);
                        assert(hex_val(rem[4]) * 16 + hex_val(rem[5]) < 32);
                        assert(rem.skip(6) =~= s@.skip(i + 6));
                        assert(scan_string(rem) == (match scan_string(s@.skip(i + 6)) {
                            Some((c, r2)) => Some((seq![x] + c, r2)),
                            None => None,
                        }));
                        lemma_scan_cont_step(s@.skip(pos as int), out0, rem, x, s@.skip(i + 6));
                        assert(out@ == out0.push(x));
                    }
                    i = i + 6;
                } else {
                    proof {
                        assert(rem[1] == 117);
                        if rem.len() >= 6 {
                            assert(rem[2] == s@[i + 2] && rem[3] == s@[i + 3]);
                        }
                        assert(scan_string(rem) is None);
                    }
                    return None;
                }
            } else if s.len() - i > 1 && (s[i + 1] == 34 || s[i + 1] == 92) {
                let x = s[i + 1];
                let ghost out0 = out@;
                out.push(x);
                proof {
                    assert(rem[1] == x);
                    assert(rem.skip(2) =~= s@.skip(i + 2));
                    assert(scan_string(rem) == (match scan_string(s@.skip(i + 2)) {
                        Some((c, r2)) => Some((seq![x] + c, r2)),
                        None => None,
                    }));
                    lemma_scan_cont_step(s@.skip(pos as int), out0, rem, x, s@.skip(i + 2));
                    assert(out@ == out0.push(x));
                }
                i = i + 2;
            } else {
                proof {
                    if rem.len() >= 2 {
                        assert(rem[1] == s@[i + 1]);
                    }
                    assert(scan_string(rem) is None);
                }
                return None;
            }
        } else if b < 32 {
            proof {
                assert(scan_string(rem) is None);
            }
            return None;
        } else {
            let ghost out0 = out@;
            out.push(b);
            proof {
                assert(rem.skip(1) =~= s@.skip(i + 1));
                assert(scan_string(rem) == (match scan_string(s@.skip(i + 1)) {
                    Some((c, r2)) => Some((seq![b] + c, r2)),
                    None => None,
                }));
                lemma_scan_cont_step(s@.skip(pos as int), out0, rem, b, s@.skip(i + 1));
                assert(out@ == out0.push(b));
            }
            i = i + 1;
        }
    }
    proof {
        assert(s@.skip(i as int).len() == 0);
        assert(scan_string(s@.skip(i as int)) is None);
    }
    None
}

proof fn lemma_dec_val_nonneg(ds: Seq<u8>)
    requires
        forall|i: int| 0 <= i < ds.len() ==> is_digit(#[trigger] ds[i]),
    ensures
        dec_val(ds) >= 0,
    decreases ds.len(),
{
    if ds.len() > 0 {
        lemma_dec_val_nonneg(ds.drop_last());
    }
}

/// A digit run's value only grows as more digits follow.
proof fn lemma_dec_val_prefix(ds: Seq<u8>, k: int)
    requires
        forall|i: int| 0 <= i < ds.len() ==> is_digit(#[trigger] ds[i]),
        0 <= k <= ds.len(),
    ensures
        dec_val(ds.subrange(0, k)) <= dec_val(ds),
    decreases ds.len(),
{
    if k == ds.len() {
        assert(ds.subrange(0, k) =~= ds);
    } else {
        assert(ds.drop_last().subrange(0, k) =~= ds.subrange(0, k));
        lemma_dec_val_prefix(ds.drop_last(), k);
        lemma_dec_val_nonneg(ds.drop_last());
    }
}

/// Read the leading digit run as a magnitude no larger than `cap`.
fn read_magnitude_at(s: &Vec<u8>, pos: usize, cap: u64) -> (r: Option<(u64, usize)>)
    requires
        pos <= s@.len(),
    ensures
        match r {
            Some((n, p)) => {
                &&& pos < p <= s@.len()
                &&& scan_digits(s@.skip(pos as int)) == (
                    s@.subrange(pos as int, p as int),
                    s@.skip(p as int),
                )
                &&& n as int == dec_val(s@.subrange(pos as int, p as int))
                &&& n <= cap
            },
            None => {
                let (ds, _) = scan_digits(s@.skip(pos as int));
                ds.len() == 0 || dec_val(ds) > cap
            },
        },
{
    // find the end of the digit run
    let mut e: usize = pos;
    while e < s.len() && 48 <= s[e] && s[e] <= 57
        invariant
            pos <= e <= s@.len(),
            forall|j: int| pos <= j < e ==> is_digit(#[trigger] s@[j]),
        decreases s@.len() - e,
    {
        e = e + 1;
    }
    let ghost ds = s@.subrange(pos as int, e as int);
    let ghost rest = s@.skip(e as int);
    proof {
        assert(s@.skip(pos as int) =~= ds + rest);
        assert(rest.len() == 0 || !is_digit(rest[0]));
        assert forall|q: int| 0 <= q < ds.len() implies is_digit(#[trigger] ds[q]) by {
            assert(ds[q] == s@[pos + q]);
        }
        lemma_scan_digits(ds, rest);
    }
    if e == pos {
        return None;
    }
    // accumulate the value, refusing a run over the cap
    let mut val: u64 = 0;
    let mut j: usize = pos;
    while j < e
        invariant
            pos <= j <= e <= s@.len(),
            ds == s@.subrange(pos as int, e as int),
            scan_digits(s@.skip(pos as int)) == (ds, s@.skip(e as int)),
            forall|q: int| pos <= q < e ==> is_digit(#[trigger] s@[q]),
            val <= cap,
            val as int == dec_val(ds.subrange(0, j - pos)),
        decreases e - j,
    {
        let d = s[j] - 48;
        if d as u64 > cap || val > (cap - d as u64) / 10 {
            proof {
                assert(ds.subrange(0, j - pos + 1).drop_last() =~= ds.subrange(0, j - pos));
                assert(ds.subrange(0, j - pos + 1).last() == s@[j as int]);
                assert(val * 10 + (d as int) > cap) by (nonlinear_arith)
                    requires
                        d as u64 > cap || val > (cap - d as u64) / 10,
                        0 <= d < 10,
                        0 <= val,
                ;
                assert(dec_val(ds.subrange(0, j - pos + 1)) > cap);
                assert forall|q: int| 0 <= q < ds.len() implies is_digit(#[trigger] ds[q]) by {
                    assert(ds[q] == s@[pos + q]);
                }
                lemma_dec_val_prefix(ds, j - pos + 1);
                assert(dec_val(ds) > cap);
            }
            return None;
        }
        val = val * 10 + d as u64;
        proof {
            assert(ds.subrange(0, j - pos + 1).drop_last() =~= ds.subrange(0, j - pos));
            assert(ds.subrange(0, j - pos + 1).last() == s@[j as int]);
        }
        j = j + 1;
    }
    proof {
        assert(ds.subrange(0, e - pos) =~= ds);
    }
    Some((val, e))
}

/// Read the leading signed number.
fn parse_number_at(s: &Vec<u8>, pos: usize) -> (r: Option<(i64, usize)>)
    requires
        pos <= s@.len(),
    ensures
        match r {
            Some((n, p)) => pos <= p <= s@.len() && parse_number(s@.skip(pos as int)) == Some(
                (n, s@.skip(p as int)),
            ),
            None => parse_number(s@.skip(pos as int)) is None,
        },
{
    if pos < s.len() && s[pos] == 45 {
        proof {
            assert(s@.skip(pos as int)[0] == 45);
            assert(s@.skip(pos as int).skip(1) =~= s@.skip(pos + 1));
        }
        match read_magnitude_at(s, pos + 1, 0x8000_0000_0000_0000) {
            Some((m, p)) => {
                let n: i64 = if m == 0x8000_0000_0000_0000 {
                    -0x7FFF_FFFF_FFFF_FFFF - 1
                } else {
                    -(m as i64)
                };
                proof {
                    assert(n as int == -(m as int));
                }
                Some((n, p))
            },
            None => None,
        }
    } else {
        proof {
            if pos < s@.len() {
                assert(s@.skip(pos as int)[0] == s@[pos as int]);
            }
        }
        match read_magnitude_at(s, pos, 0x7FFF_FFFF_FFFF_FFFF) {
            Some((m, p)) => Some((m as i64, p)),
            None => None,
        }
    }
}

/// Decode a ledger payload; accepted exactly when it parses under the
/// payload grammar, handing back its fields.
pub fn decode_ledger_payload(s: &Vec<u8>) -> (r: Option<LedgerReading>)
    ensures
        match r {
            Some(m) => spec_parse_ledger(s@) == Some(m@),
            None => spec_parse_ledger(s@) is None,
        },
{
    proof {
        assert(s@.skip(0) =~= s@);
    }
    let p = match eat_lit(s, 0, &lit_l1_vec()) {
        Some(p) => p,
        None => {
            return None;
        },
    };
    let (did, p) = match scan_string_at(s, p) {
        Some(x) => x,
        None => {
            return None;
        },
    };
    let p = match eat_lit(s, p, &lit_k2_vec()) {
        Some(p) => p,
        None => {
            return None;
        },
    };
    let (sensor_id, p) = match scan_string_at(s, p) {
        Some(x) => x,
        None => {
            return None;
        },
    };
    let p = match eat_lit(s, p, &lit_k3_vec()) {
        Some(p) => p,
        None => {
            return None;
        },
    };
    let (sensor_name, p) = match scan_string_at(s, p) {
        Some(x) => x,
        None => {
            return None;
        },
    };
    let p = match eat_lit(s, p, &lit_k4_vec()) {
        Some(p) => p,
        None => {
            return None;
        },
    };
    let (sensor_type, p) = match scan_string_at(s, p) {
        Some(x) => x,
        None => {
            return None;
        },
    };
    let p = match eat_lit(s, p, &lit_k5_vec()) {
        Some(p) => p,
        None => {
            return None;
        },
    };
    let (timestamp, p) = match parse_number_at(s, p) {
        Some(x) => x,
        None => {
            return None;
        },
    };
    let p = match eat_lit(s, p, &lit_k6_vec()) {
        Some(p) => p,
        None => {
            return None;
        },
    };
    let (unit, p) = match scan_string_at(s, p) {
        Some(x) => x,
        None => {
            return None;
        },
    };
    let p = match eat_lit(s, p, &lit_k7_vec()) {
        Some(p) => p,
        None => {
            return None;
        },
    };
    let (value, p) = match scan_string_at(s, p) {
        Some(x) => x,
        None => {
            return None;
        },
    };
    let p = match eat_lit(s, p, &lit_k8_vec()) {
        Some(p) => p,
        None => {
            return None;
        },
    };
    let (vc, p) = match scan_string_at(s, p) {
        Some(x) => x,
        None => {
            return None;
        },
    };
    let p = match eat_lit(s, p, &lit_k9_vec()) {
        Some(p) => p,
        None => {
            return None;
        },
    };
    if p != s.len() {
        return None;
    }
    Some(LedgerReading { did, vc, sensor_id, sensor_name, sensor_type, value, unit, timestamp })
}

} // verus!


