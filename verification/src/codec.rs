//! The wire codec for the bus topics.
//!
//! Every topic payload is a fixed sequence of fields; a byte-string field is
//! length-delimited with a four-byte little-endian prefix, an integer field
//! is eight bytes little-endian, a flag is one byte. A decoder accepts
//! exactly the encodings and hands back the encoded fields; the round-trip
//! laws at the end of this module say so for every schema.

use vstd::prelude::*;

verus! {

/// The largest byte-string field an encoding can carry (its length prefix is
/// a `u32`).
pub open spec fn max_field_len() -> int {
    0xFFFF_FFFF
}

// ----- little-endian primitives -----

#[verifier::opaque]
pub open spec fn spec_u32_le(n: u32) -> Seq<u8> {
    seq![
        (n & 0xff) as u8,
        ((n >> 8) & 0xff) as u8,
        ((n >> 16) & 0xff) as u8,
        ((n >> 24) & 0xff) as u8,
    ]
}

#[verifier::opaque]
pub open spec fn spec_u32_of(b0: u8, b1: u8, b2: u8, b3: u8) -> u32 {
    (b0 as u32) | ((b1 as u32) << 8) | ((b2 as u32) << 16) | ((b3 as u32) << 24)
}

#[verifier::opaque]
pub open spec fn spec_u64_le(n: u64) -> Seq<u8> {
    seq![
        (n & 0xff) as u8,
        ((n >> 8) & 0xff) as u8,
        ((n >> 16) & 0xff) as u8,
        ((n >> 24) & 0xff) as u8,
        ((n >> 32) & 0xff) as u8,
        ((n >> 40) & 0xff) as u8,
        ((n >> 48) & 0xff) as u8,
        ((n >> 56) & 0xff) as u8,
    ]
}

#[verifier::opaque]
pub open spec fn spec_u64_of(
    b0: u8,
    b1: u8,
    b2: u8,
    b3: u8,
    b4: u8,
    b5: u8,
    b6: u8,
    b7: u8,
) -> u64 {
    (b0 as u64) | ((b1 as u64) << 8) | ((b2 as u64) << 16) | ((b3 as u64) << 24) | ((b4
        as u64) << 32) | ((b5 as u64) << 40) | ((b6 as u64) << 48) | ((b7 as u64) << 56)
}

proof fn lemma_u32_le_round(n: u32)
    ensures
        spec_u32_of(
            spec_u32_le(n)[0],
            spec_u32_le(n)[1],
            spec_u32_le(n)[2],
            spec_u32_le(n)[3],
        ) == n,
{
    reveal(spec_u32_le);
    reveal(spec_u32_of);
    assert(((n & 0xff) as u8 as u32) | ((((n >> 8) & 0xff) as u8 as u32) << 8) | ((((n >> 16)
        & 0xff) as u8 as u32) << 16) | ((((n >> 24) & 0xff) as u8 as u32) << 24) == n)
        by (bit_vector);
}

proof fn lemma_u64_le_round(n: u64)
    ensures
        spec_u64_of(
            spec_u64_le(n)[0],
            spec_u64_le(n)[1],
            spec_u64_le(n)[2],
            spec_u64_le(n)[3],
            spec_u64_le(n)[4],
            spec_u64_le(n)[5],
            spec_u64_le(n)[6],
            spec_u64_le(n)[7],
        ) == n,
{
    reveal(spec_u64_le);
    reveal(spec_u64_of);
    assert(((n & 0xff) as u8 as u64) | ((((n >> 8) & 0xff) as u8 as u64) << 8) | ((((n >> 16)
        & 0xff) as u8 as u64) << 16) | ((((n >> 24) & 0xff) as u8 as u64) << 24) | ((((n >> 32)
        & 0xff) as u8 as u64) << 32) | ((((n >> 40) & 0xff) as u8 as u64) << 40) | ((((n >> 48)
        & 0xff) as u8 as u64) << 48) | ((((n >> 56) & 0xff) as u8 as u64) << 56) == n)
        by (bit_vector);
}

proof fn lemma_i64_cast_round(n: i64)
    ensures
        (n as u64) as i64 == n,
{
    assert((n as u64) as i64 == n) by (bit_vector);
}

// ----- field encodings -----

#[verifier::opaque]
pub open spec fn spec_enc_bytes(b: Seq<u8>) -> Seq<u8>
    recommends
        b.len() <= max_field_len(),
{
    spec_u32_le(b.len() as u32) + b
}

#[verifier::opaque]
pub open spec fn spec_enc_bool(p: bool) -> Seq<u8> {
    seq![if p { 1u8 } else { 0u8 }]
}

#[verifier::opaque]
pub open spec fn spec_enc_i64(n: i64) -> Seq<u8> {
    spec_u64_le(n as u64)
}

// ----- field readers -----

#[verifier::opaque]
pub open spec fn spec_read_u32(s: Seq<u8>, pos: int) -> Option<(u32, int)> {
    if 0 <= pos && pos + 4 <= s.len() {
        Some((spec_u32_of(s[pos], s[pos + 1], s[pos + 2], s[pos + 3]), pos + 4))
    } else {
        None
    }
}

#[verifier::opaque]
pub open spec fn spec_read_bytes(s: Seq<u8>, pos: int) -> Option<(Seq<u8>, int)> {
    match spec_read_u32(s, pos) {
        Some((n, p)) => if p + n <= s.len() {
            Some((s.subrange(p, p + n), p + n))
        } else {
            None
        },
        None => None,
    }
}

#[verifier::opaque]
pub open spec fn spec_read_bool(s: Seq<u8>, pos: int) -> Option<(bool, int)> {
    if 0 <= pos && pos + 1 <= s.len() && (s[pos] == 0u8 || s[pos] == 1u8) {
        Some((s[pos] == 1u8, pos + 1))
    } else {
        None
    }
}

#[verifier::opaque]
pub open spec fn spec_read_i64(s: Seq<u8>, pos: int) -> Option<(i64, int)> {
    if 0 <= pos && pos + 8 <= s.len() {
        Some(
            (
                spec_u64_of(
                    s[pos],
                    s[pos + 1],
                    s[pos + 2],
                    s[pos + 3],
                    s[pos + 4],
                    s[pos + 5],
                    s[pos + 6],
                    s[pos + 7],
                ) as i64,
                pos + 8,
            ),
        )
    } else {
        None
    }
}

// ----- reader laws: read the head field, or skip past a leading block -----

proof fn lemma_read_u32_head(n: u32, rest: Seq<u8>)
    ensures
        spec_read_u32(spec_u32_le(n) + rest, 0) == Some((n, 4int)),
{
    reveal(spec_read_u32);
    reveal(spec_u32_le);
    let s = spec_u32_le(n) + rest;
    assert(s[0] == spec_u32_le(n)[0]);
    assert(s[1] == spec_u32_le(n)[1]);
    assert(s[2] == spec_u32_le(n)[2]);
    assert(s[3] == spec_u32_le(n)[3]);
    lemma_u32_le_round(n);
}

proof fn lemma_read_bytes_head(b: Seq<u8>, rest: Seq<u8>)
    requires
        b.len() <= max_field_len(),
    ensures
        spec_read_bytes(spec_enc_bytes(b) + rest, 0) == Some((b, 4 + b.len() as int)),
{
    reveal(spec_read_bytes);
    reveal(spec_enc_bytes);
    reveal(spec_u32_le);
    let n = b.len() as u32;
    let s = spec_enc_bytes(b) + rest;
    assert(s =~= spec_u32_le(n) + (b + rest));
    lemma_read_u32_head(n, b + rest);
    assert(s.subrange(4, 4 + n as int) =~= b);
}

proof fn lemma_read_bool_head(p: bool, rest: Seq<u8>)
    ensures
        spec_read_bool(spec_enc_bool(p) + rest, 0) == Some((p, 1int)),
{
    reveal(spec_read_bool);
    reveal(spec_enc_bool);
    let s = spec_enc_bool(p) + rest;
    assert(s[0] == spec_enc_bool(p)[0]);
}

proof fn lemma_read_i64_head(n: i64, rest: Seq<u8>)
    ensures
        spec_read_i64(spec_enc_i64(n) + rest, 0) == Some((n, 8int)),
{
    reveal(spec_read_i64);
    reveal(spec_enc_i64);
    reveal(spec_u64_le);
    let s = spec_enc_i64(n) + rest;
    let u = n as u64;
    assert(s[0] == spec_u64_le(u)[0]);
    assert(s[1] == spec_u64_le(u)[1]);
    assert(s[2] == spec_u64_le(u)[2]);
    assert(s[3] == spec_u64_le(u)[3]);
    assert(s[4] == spec_u64_le(u)[4]);
    assert(s[5] == spec_u64_le(u)[5]);
    assert(s[6] == spec_u64_le(u)[6]);
    assert(s[7] == spec_u64_le(u)[7]);
    lemma_u64_le_round(u);
    lemma_i64_cast_round(n);
}

proof fn lemma_read_u32_skip(head: Seq<u8>, rest: Seq<u8>, pos: int)
    requires
        0 <= pos,
    ensures
        spec_read_u32(head + rest, head.len() + pos) == (match spec_read_u32(rest, pos) {
            Some((n, q)) => Some((n, head.len() + q)),
            None => None,
        }),
{
    reveal(spec_read_u32);
    let s = head + rest;
    let off = head.len() as int;
    if pos + 4 <= rest.len() {
        assert(s[off + pos] == rest[pos]);
        assert(s[off + pos + 1] == rest[pos + 1]);
        assert(s[off + pos + 2] == rest[pos + 2]);
        assert(s[off + pos + 3] == rest[pos + 3]);
    }
}

proof fn lemma_read_bytes_skip(head: Seq<u8>, rest: Seq<u8>, pos: int)
    requires
        0 <= pos,
    ensures
        spec_read_bytes(head + rest, head.len() + pos) == (match spec_read_bytes(rest, pos) {
            Some((b, q)) => Some((b, head.len() + q)),
            None => None,
        }),
{
    reveal(spec_read_bytes);
    reveal(spec_read_u32);
    lemma_read_u32_skip(head, rest, pos);
    let off = head.len() as int;
    match spec_read_u32(rest, pos) {
        Some((n, q)) => {
            if q + n <= rest.len() {
                assert((head + rest).subrange(off + q, off + q + n) =~= rest.subrange(q, q + n));
            }
        },
        None => {},
    }
}

proof fn lemma_read_bool_skip(head: Seq<u8>, rest: Seq<u8>, pos: int)
    requires
        0 <= pos,
    ensures
        spec_read_bool(head + rest, head.len() + pos) == (match spec_read_bool(rest, pos) {
            Some((p, q)) => Some((p, head.len() + q)),
            None => None,
        }),
{
    reveal(spec_read_bool);
    let s = head + rest;
    let off = head.len() as int;
    if pos + 1 <= rest.len() {
        assert(s[off + pos] == rest[pos]);
    }
}

proof fn lemma_read_i64_skip(head: Seq<u8>, rest: Seq<u8>, pos: int)
    requires
        0 <= pos,
    ensures
        spec_read_i64(head + rest, head.len() + pos) == (match spec_read_i64(rest, pos) {
            Some((n, q)) => Some((n, head.len() + q)),
            None => None,
        }),
{
    reveal(spec_read_i64);
    let s = head + rest;
    let off = head.len() as int;
    if pos + 8 <= rest.len() {
        assert(s[off + pos] == rest[pos]);
        assert(s[off + pos + 1] == rest[pos + 1]);
        assert(s[off + pos + 2] == rest[pos + 2]);
        assert(s[off + pos + 3] == rest[pos + 3]);
        assert(s[off + pos + 4] == rest[pos + 4]);
        assert(s[off + pos + 5] == rest[pos + 5]);
        assert(s[off + pos + 6] == rest[pos + 6]);
        assert(s[off + pos + 7] == rest[pos + 7]);
    }
}

// ----- executable writers -----

fn put_u32(out: &mut Vec<u8>, n: u32)
    ensures
        final(out)@ == old(out)@ + spec_u32_le(n),
{
    reveal(spec_u32_le);
    out.push((n & 0xff) as u8);
    out.push(((n >> 8) & 0xff) as u8);
    out.push(((n >> 16) & 0xff) as u8);
    out.push(((n >> 24) & 0xff) as u8);
    assert(out@ =~= old(out)@ + spec_u32_le(n));
}

fn put_u64(out: &mut Vec<u8>, n: u64)
    ensures
        final(out)@ == old(out)@ + spec_u64_le(n),
{
    reveal(spec_u64_le);
    out.push((n & 0xff) as u8);
    out.push(((n >> 8) & 0xff) as u8);
    out.push(((n >> 16) & 0xff) as u8);
    out.push(((n >> 24) & 0xff) as u8);
    out.push(((n >> 32) & 0xff) as u8);
    out.push(((n >> 40) & 0xff) as u8);
    out.push(((n >> 48) & 0xff) as u8);
    out.push(((n >> 56) & 0xff) as u8);
    assert(out@ =~= old(out)@ + spec_u64_le(n));
}

fn put_i64(out: &mut Vec<u8>, n: i64)
    ensures
        final(out)@ == old(out)@ + spec_enc_i64(n),
{
    reveal(spec_enc_i64);
    put_u64(out, n as u64);
}

fn put_bool(out: &mut Vec<u8>, p: bool)
    ensures
        final(out)@ == old(out)@ + spec_enc_bool(p),
{
    reveal(spec_enc_bool);
    out.push(if p { 1u8 } else { 0u8 });
    assert(out@ =~= old(out)@ + spec_enc_bool(p));
}

fn put_bytes(out: &mut Vec<u8>, b: &Vec<u8>)
    requires
        b@.len() <= max_field_len(),
    ensures
        final(out)@ == old(out)@ + spec_enc_bytes(b@),
{
    reveal(spec_enc_bytes);
    put_u32(out, b.len() as u32);
    let ghost mid = out@;
    let mut i: usize = 0;
    while i < b.len()
        invariant
            i <= b@.len(),
            out@ == mid + b@.subrange(0, i as int),
        decreases b@.len() - i,
    {
        out.push(b[i]);
        assert(out@ =~= mid + b@.subrange(0, i + 1));
        i = i + 1;
    }
    assert(b@.subrange(0, b@.len() as int) =~= b@);
    assert(out@ =~= old(out)@ + spec_enc_bytes(b@));
}

// ----- executable readers -----

fn read_u32(s: &Vec<u8>, pos: usize) -> (r: Option<(u32, usize)>)
    ensures
        match r {
            Some((n, p)) => spec_read_u32(s@, pos as int) == Some((n, p as int)),
            None => spec_read_u32(s@, pos as int) is None,
        },
{
    proof {
        reveal(spec_read_u32);
        reveal(spec_u32_of);
    }
    if s.len() >= 4 && pos <= s.len() - 4 {
        let n = (s[pos] as u32) | ((s[pos + 1] as u32) << 8) | ((s[pos + 2] as u32) << 16) | ((s[pos
            + 3] as u32) << 24);
        Some((n, pos + 4))
    } else {
        None
    }
}

fn read_bytes(s: &Vec<u8>, pos: usize) -> (r: Option<(Vec<u8>, usize)>)
    ensures
        match r {
            Some((b, p)) => spec_read_bytes(s@, pos as int) == Some((b@, p as int)),
            None => spec_read_bytes(s@, pos as int) is None,
        },
{
    proof {
        reveal(spec_read_bytes);
        reveal(spec_read_u32);
    }
    match read_u32(s, pos) {
        None => None,
        Some((n, p)) => {
            if n as usize <= s.len() - p {
                let end = p + n as usize;
                let mut b: Vec<u8> = Vec::new();
                let mut i: usize = p;
                while i < end
                    invariant
                        p <= i <= end,
                        end <= s@.len(),
                        b@ == s@.subrange(p as int, i as int),
                    decreases end - i,
                {
                    b.push(s[i]);
                    assert(b@ =~= s@.subrange(p as int, i + 1));
                    i = i + 1;
                }
                Some((b, end))
            } else {
                None
            }
        },
    }
}

fn read_bool(s: &Vec<u8>, pos: usize) -> (r: Option<(bool, usize)>)
    ensures
        match r {
            Some((p, q)) => spec_read_bool(s@, pos as int) == Some((p, q as int)),
            None => spec_read_bool(s@, pos as int) is None,
        },
{
    proof {
        reveal(spec_read_bool);
    }
    if pos < s.len() {
        if s[pos] == 0 {
            Some((false, pos + 1))
        } else if s[pos] == 1 {
            Some((true, pos + 1))
        } else {
            None
        }
    } else {
        None
    }
}

// ----- topic payloads -----
//
// The `did` and `identity` topics share the `Did` schema; `proof_request`
// set means "please sign this challenge", clear means "here is my signed
// credential".

pub struct Did {
    pub did: Vec<u8>,
    pub challenge: Vec<u8>,
    pub vc: Vec<u8>,
    pub proof_request: bool,
}

pub struct Streams {
    pub did: Vec<u8>,
    pub vc: Vec<u8>,
    pub announcement_link: Vec<u8>,
    pub subscription_link: Vec<u8>,
    pub keyload_link: Vec<u8>,
}

pub struct Sensor {
    pub sensor_id: Vec<u8>,
    pub name: Vec<u8>,
    pub typ: Vec<u8>,
    pub value: Vec<u8>,
    pub unit: Vec<u8>,
    pub timestamp: i64,
}

pub struct Setting {
    pub ip: Vec<u8>,
    pub pk_timestamp: i64,
    pub pk: Vec<u8>,
}

pub struct Command {
    pub command: Vec<u8>,
}

// ----- their mathematical models -----

pub ghost struct DidModel {
    pub did: Seq<u8>,
    pub challenge: Seq<u8>,
    pub vc: Seq<u8>,
    pub proof_request: bool,
}

pub ghost struct StreamsModel {
    pub did: Seq<u8>,
    pub vc: Seq<u8>,
    pub announcement_link: Seq<u8>,
    pub subscription_link: Seq<u8>,
    pub keyload_link: Seq<u8>,
}

pub ghost struct SensorModel {
    pub sensor_id: Seq<u8>,
    pub name: Seq<u8>,
    pub typ: Seq<u8>,
    pub value: Seq<u8>,
    pub unit: Seq<u8>,
    pub timestamp: i64,
}

pub ghost struct SettingModel {
    pub ip: Seq<u8>,
    pub pk_timestamp: i64,
    pub pk: Seq<u8>,
}

pub ghost struct CommandModel {
    pub command: Seq<u8>,
}

impl View for Did {
    type V = DidModel;

    open spec fn view(&self) -> DidModel {
        DidModel {
            did: self.did@,
            challenge: self.challenge@,
            vc: self.vc@,
            proof_request: self.proof_request,
        }
    }
}

impl View for Streams {
    type V = StreamsModel;

    open spec fn view(&self) -> StreamsModel {
        StreamsModel {
            did: self.did@,
            vc: self.vc@,
            announcement_link: self.announcement_link@,
            subscription_link: self.subscription_link@,
            keyload_link: self.keyload_link@,
        }
    }
}

impl View for Sensor {
    type V = SensorModel;

    open spec fn view(&self) -> SensorModel {
        SensorModel {
            sensor_id: self.sensor_id@,
            name: self.name@,
            typ: self.typ@,
            value: self.value@,
            unit: self.unit@,
            timestamp: self.timestamp,
        }
    }
}

impl View for Setting {
    type V = SettingModel;

    open spec fn view(&self) -> SettingModel {
        SettingModel { ip: self.ip@, pk_timestamp: self.pk_timestamp, pk: self.pk@ }
    }
}

impl View for Command {
    type V = CommandModel;

    open spec fn view(&self) -> CommandModel {
        CommandModel { command: self.command@ }
    }
}

// ----- schema encodings -----

pub open spec fn did_encodable(m: DidModel) -> bool {
    m.did.len() <= max_field_len() && m.challenge.len() <= max_field_len() && m.vc.len()
        <= max_field_len()
}

pub open spec fn spec_enc_did(m: DidModel) -> Seq<u8> {
    spec_enc_bytes(m.did) + (spec_enc_bytes(m.challenge) + (spec_enc_bytes(m.vc) + spec_enc_bool(
        m.proof_request,
    )))
}

pub open spec fn streams_encodable(m: StreamsModel) -> bool {
    m.did.len() <= max_field_len() && m.vc.len() <= max_field_len() && m.announcement_link.len()
        <= max_field_len() && m.subscription_link.len() <= max_field_len()
        && m.keyload_link.len() <= max_field_len()
}

pub open spec fn spec_enc_streams(m: StreamsModel) -> Seq<u8> {
    spec_enc_bytes(m.did) + (spec_enc_bytes(m.vc) + (spec_enc_bytes(m.announcement_link) + (
    spec_enc_bytes(m.subscription_link) + spec_enc_bytes(m.keyload_link))))
}

pub open spec fn sensor_encodable(m: SensorModel) -> bool {
    m.sensor_id.len() <= max_field_len() && m.name.len() <= max_field_len() && m.typ.len()
        <= max_field_len() && m.value.len() <= max_field_len() && m.unit.len() <= max_field_len()
}

pub open spec fn spec_enc_sensor(m: SensorModel) -> Seq<u8> {
    spec_enc_bytes(m.sensor_id) + (spec_enc_bytes(m.name) + (spec_enc_bytes(m.typ) + (
    spec_enc_bytes(m.value) + (spec_enc_bytes(m.unit) + spec_enc_i64(m.timestamp)))))
}

pub open spec fn setting_encodable(m: SettingModel) -> bool {
    m.ip.len() <= max_field_len() && m.pk.len() <= max_field_len()
}

pub open spec fn spec_enc_setting(m: SettingModel) -> Seq<u8> {
    spec_enc_bytes(m.ip) + (spec_enc_i64(m.pk_timestamp) + spec_enc_bytes(m.pk))
}

pub open spec fn command_encodable(m: CommandModel) -> bool {
    m.command.len() <= max_field_len()
}

pub open spec fn spec_enc_command(m: CommandModel) -> Seq<u8> {
    spec_enc_bytes(m.command)
}

// ----- schema decodings -----

pub open spec fn spec_dec_did(s: Seq<u8>) -> Option<DidModel> {
    match spec_read_bytes(s, 0) {
        None => None,
        Some((did, p1)) => match spec_read_bytes(s, p1) {
            None => None,
            Some((challenge, p2)) => match spec_read_bytes(s, p2) {
                None => None,
                Some((vc, p3)) => match spec_read_bool(s, p3) {
                    None => None,
                    Some((proof_request, p4)) => if p4 == s.len() {
                        Some(DidModel { did, challenge, vc, proof_request })
                    } else {
                        None
                    },
                },
            },
        },
    }
}

pub open spec fn spec_dec_streams(s: Seq<u8>) -> Option<StreamsModel> {
    match spec_read_bytes(s, 0) {
        None => None,
        Some((did, p1)) => match spec_read_bytes(s, p1) {
            None => None,
            Some((vc, p2)) => match spec_read_bytes(s, p2) {
                None => None,
                Some((announcement_link, p3)) => match spec_read_bytes(s, p3) {
                    None => None,
                    Some((subscription_link, p4)) => match spec_read_bytes(s, p4) {
                        None => None,
                        Some((keyload_link, p5)) => if p5 == s.len() {
                            Some(
                                StreamsModel {
                                    did,
                                    vc,
                                    announcement_link,
                                    subscription_link,
                                    keyload_link,
                                },
                            )
                        } else {
                            None
                        },
                    },
                },
            },
        },
    }
}

pub open spec fn spec_dec_sensor(s: Seq<u8>) -> Option<SensorModel> {
    match spec_read_bytes(s, 0) {
        None => None,
        Some((sensor_id, p1)) => match spec_read_bytes(s, p1) {
            None => None,
            Some((name, p2)) => match spec_read_bytes(s, p2) {
                None => None,
                Some((typ, p3)) => match spec_read_bytes(s, p3) {
                    None => None,
                    Some((value, p4)) => match spec_read_bytes(s, p4) {
                        None => None,
                        Some((unit, p5)) => match spec_read_i64(s, p5) {
                            None => None,
                            Some((timestamp, p6)) => if p6 == s.len() {
                                Some(SensorModel { sensor_id, name, typ, value, unit, timestamp })
                            } else {
                                None
                            },
                        },
                    },
                },
            },
        },
    }
}

pub open spec fn spec_dec_setting(s: Seq<u8>) -> Option<SettingModel> {
    match spec_read_bytes(s, 0) {
        None => None,
        Some((ip, p1)) => match spec_read_i64(s, p1) {
            None => None,
            Some((pk_timestamp, p2)) => match spec_read_bytes(s, p2) {
                None => None,
                Some((pk, p3)) => if p3 == s.len() {
                    Some(SettingModel { ip, pk_timestamp, pk })
                } else {
                    None
                },
            },
        },
    }
}

pub open spec fn spec_dec_command(s: Seq<u8>) -> Option<CommandModel> {
    match spec_read_bytes(s, 0) {
        None => None,
        Some((command, p1)) => if p1 == s.len() {
            Some(CommandModel { command })
        } else {
            None
        },
    }
}

// ----- executable encoders -----

pub fn encode_did(m: &Did) -> (r: Vec<u8>)
    requires
        did_encodable(m@),
    ensures
        r@ == spec_enc_did(m@),
{
    let mut out: Vec<u8> = Vec::new();
    put_bytes(&mut out, &m.did);
    put_bytes(&mut out, &m.challenge);
    put_bytes(&mut out, &m.vc);
    put_bool(&mut out, m.proof_request);
    assert(out@ =~= spec_enc_did(m@));
    out
}

pub fn encode_streams(m: &Streams) -> (r: Vec<u8>)
    requires
        streams_encodable(m@),
    ensures
        r@ == spec_enc_streams(m@),
{
    let mut out: Vec<u8> = Vec::new();
    put_bytes(&mut out, &m.did);
    put_bytes(&mut out, &m.vc);
    put_bytes(&mut out, &m.announcement_link);
    put_bytes(&mut out, &m.subscription_link);
    put_bytes(&mut out, &m.keyload_link);
    assert(out@ =~= spec_enc_streams(m@));
    out
}

pub fn encode_sensor(m: &Sensor) -> (r: Vec<u8>)
    requires
        sensor_encodable(m@),
    ensures
        r@ == spec_enc_sensor(m@),
{
    let mut out: Vec<u8> = Vec::new();
    put_bytes(&mut out, &m.sensor_id);
    put_bytes(&mut out, &m.name);
    put_bytes(&mut out, &m.typ);
    put_bytes(&mut out, &m.value);
    put_bytes(&mut out, &m.unit);
    put_i64(&mut out, m.timestamp);
    assert(out@ =~= spec_enc_sensor(m@));
    out
}

pub fn encode_setting(m: &Setting) -> (r: Vec<u8>)
    requires
        setting_encodable(m@),
    ensures
        r@ == spec_enc_setting(m@),
{
    let mut out: Vec<u8> = Vec::new();
    put_bytes(&mut out, &m.ip);
    put_i64(&mut out, m.pk_timestamp);
    put_bytes(&mut out, &m.pk);
    assert(out@ =~= spec_enc_setting(m@));
    out
}

pub fn encode_command(m: &Command) -> (r: Vec<u8>)
    requires
        command_encodable(m@),
    ensures
        r@ == spec_enc_command(m@),
{
    let mut out: Vec<u8> = Vec::new();
    put_bytes(&mut out, &m.command);
    assert(out@ =~= spec_enc_command(m@));
    out
}

// ----- executable decoders -----

pub fn decode_did(s: &Vec<u8>) -> (r: Option<Did>)
    ensures
        match r {
            Some(m) => spec_dec_did(s@) == Some(m@),
            None => spec_dec_did(s@) is None,
        },
{
    let (did, p1) = match read_bytes(s, 0) {
        Some(x) => x,
        None => { return None },
    };
    let (challenge, p2) = match read_bytes(s, p1) {
        Some(x) => x,
        None => { return None },
    };
    let (vc, p3) = match read_bytes(s, p2) {
        Some(x) => x,
        None => { return None },
    };
    let (proof_request, p4) = match read_bool(s, p3) {
        Some(x) => x,
        None => { return None },
    };
    if p4 == s.len() {
        Some(Did { did, challenge, vc, proof_request })
    } else {
        None
    }
}

pub fn decode_streams(s: &Vec<u8>) -> (r: Option<Streams>)
    ensures
        match r {
            Some(m) => spec_dec_streams(s@) == Some(m@),
            None => spec_dec_streams(s@) is None,
        },
{
    let (did, p1) = match read_bytes(s, 0) {
        Some(x) => x,
        None => { return None },
    };
    let (vc, p2) = match read_bytes(s, p1) {
        Some(x) => x,
        None => { return None },
    };
    let (announcement_link, p3) = match read_bytes(s, p2) {
        Some(x) => x,
        None => { return None },
    };
    let (subscription_link, p4) = match read_bytes(s, p3) {
        Some(x) => x,
        None => { return None },
    };
    let (keyload_link, p5) = match read_bytes(s, p4) {
        Some(x) => x,
        None => { return None },
    };
    if p5 == s.len() {
        Some(Streams { did, vc, announcement_link, subscription_link, keyload_link })
    } else {
        None
    }
}

pub fn decode_sensor(s: &Vec<u8>) -> (r: Option<Sensor>)
    ensures
        match r {
            Some(m) => spec_dec_sensor(s@) == Some(m@),
            None => spec_dec_sensor(s@) is None,
        },
{
    let (sensor_id, p1) = match read_bytes(s, 0) {
        Some(x) => x,
        None => { return None },
    };
    let (name, p2) = match read_bytes(s, p1) {
        Some(x) => x,
        None => { return None },
    };
    let (typ, p3) = match read_bytes(s, p2) {
        Some(x) => x,
        None => { return None },
    };
    let (value, p4) = match read_bytes(s, p3) {
        Some(x) => x,
        None => { return None },
    };
    let (unit, p5) = match read_bytes(s, p4) {
        Some(x) => x,
        None => { return None },
    };
    let (timestamp, p6) = match read_i64(s, p5) {
        Some(x) => x,
        None => { return None },
    };
    if p6 == s.len() {
        Some(Sensor { sensor_id, name, typ, value, unit, timestamp })
    } else {
        None
    }
}

pub fn decode_setting(s: &Vec<u8>) -> (r: Option<Setting>)
    ensures
        match r {
            Some(m) => spec_dec_setting(s@) == Some(m@),
            None => spec_dec_setting(s@) is None,
        },
{
    let (ip, p1) = match read_bytes(s, 0) {
        Some(x) => x,
        None => { return None },
    };
    let (pk_timestamp, p2) = match read_i64(s, p1) {
        Some(x) => x,
        None => { return None },
    };
    let (pk, p3) = match read_bytes(s, p2) {
        Some(x) => x,
        None => { return None },
    };
    if p3 == s.len() {
        Some(Setting { ip, pk_timestamp, pk })
    } else {
        None
    }
}

pub fn decode_command(s: &Vec<u8>) -> (r: Option<Command>)
    ensures
        match r {
            Some(m) => spec_dec_command(s@) == Some(m@),
            None => spec_dec_command(s@) is None,
        },
{
    let (command, p1) = match read_bytes(s, 0) {
        Some(x) => x,
        None => { return None },
    };
    if p1 == s.len() {
        Some(Command { command })
    } else {
        None
    }
}


// ----- encoded field lengths -----

proof fn lemma_enc_bytes_len(b: Seq<u8>)
    ensures
        spec_enc_bytes(b).len() == 4 + b.len(),
{
    reveal(spec_enc_bytes);
    reveal(spec_u32_le);
}

proof fn lemma_enc_bool_len(p: bool)
    ensures
        spec_enc_bool(p).len() == 1,
{
    reveal(spec_enc_bool);
}

proof fn lemma_enc_i64_len(n: i64)
    ensures
        spec_enc_i64(n).len() == 8,
{
    reveal(spec_enc_i64);
    reveal(spec_u64_le);
}

// ----- round-trip laws -----
//
// Decoding inverts encoding on every topic schema: for each schema, the
// decoder applied to the encoding of any encodable message yields exactly
// that message.

/// Law: the `did` / `identity` schema round-trips.
#[verifier::rlimit(100)]
pub proof fn lemma_did_round_trip(m: DidModel)
    requires
        did_encodable(m),
    ensures
        spec_dec_did(spec_enc_did(m)) == Some(m),
{
    let e1 = spec_enc_bytes(m.did);
    let e2 = spec_enc_bytes(m.challenge);
    let e3 = spec_enc_bytes(m.vc);
    let e4 = spec_enc_bool(m.proof_request);
    let r2 = e3 + e4;
    let r1 = e2 + r2;
    let s = e1 + r1;
    assert(s == spec_enc_did(m));
    lemma_enc_bytes_len(m.did);
    lemma_enc_bytes_len(m.challenge);
    lemma_enc_bytes_len(m.vc);
    lemma_enc_bool_len(m.proof_request);
    let p1 = e1.len() as int;
    let p2 = p1 + e2.len();
    let p3 = p2 + e3.len();
    lemma_read_bytes_head(m.did, r1);
    assert(spec_read_bytes(s, 0) == Some((m.did, p1)));
    lemma_read_bytes_skip(e1, r1, 0);
    lemma_read_bytes_head(m.challenge, r2);
    assert(spec_read_bytes(s, p1) == Some((m.challenge, p2)));
    lemma_read_bytes_skip(e1, r1, e2.len() as int);
    lemma_read_bytes_skip(e2, r2, 0);
    lemma_read_bytes_head(m.vc, e4);
    assert(spec_read_bytes(s, p2) == Some((m.vc, p3)));
    lemma_read_bool_skip(e1, r1, e2.len() + e3.len() as int);
    lemma_read_bool_skip(e2, r2, e3.len() as int);
    lemma_read_bool_skip(e3, e4, 0);
    lemma_read_bool_head(m.proof_request, Seq::<u8>::empty());
    assert(e4 + Seq::<u8>::empty() =~= e4);
    assert(spec_read_bool(s, p3) == Some((m.proof_request, p3 + 1)));
    assert(p3 + 1 == s.len());
    assert(spec_dec_did(s) == Some(DidModel { did: m.did, challenge: m.challenge, vc: m.vc, proof_request: m.proof_request }));
}

/// Law: the `stream` schema round-trips.
#[verifier::rlimit(100)]
pub proof fn lemma_streams_round_trip(m: StreamsModel)
    requires
        streams_encodable(m),
    ensures
        spec_dec_streams(spec_enc_streams(m)) == Some(m),
{
    let e1 = spec_enc_bytes(m.did);
    let e2 = spec_enc_bytes(m.vc);
    let e3 = spec_enc_bytes(m.announcement_link);
    let e4 = spec_enc_bytes(m.subscription_link);
    let e5 = spec_enc_bytes(m.keyload_link);
    let r3 = e4 + e5;
    let r2 = e3 + r3;
    let r1 = e2 + r2;
    let s = e1 + r1;
    assert(s == spec_enc_streams(m));
    lemma_enc_bytes_len(m.did);
    lemma_enc_bytes_len(m.vc);
    lemma_enc_bytes_len(m.announcement_link);
    lemma_enc_bytes_len(m.subscription_link);
    lemma_enc_bytes_len(m.keyload_link);
    lemma_read_bytes_head(m.did, r1);
    lemma_read_bytes_skip(e1, r1, 0);
    lemma_read_bytes_head(m.vc, r2);
    lemma_read_bytes_skip(e1, r1, e2.len() as int);
    lemma_read_bytes_skip(e2, r2, 0);
    lemma_read_bytes_head(m.announcement_link, r3);
    lemma_read_bytes_skip(e1, r1, e2.len() + e3.len() as int);
    lemma_read_bytes_skip(e2, r2, e3.len() as int);
    lemma_read_bytes_skip(e3, r3, 0);
    lemma_read_bytes_head(m.subscription_link, e5);
    lemma_read_bytes_skip(e1, r1, e2.len() + e3.len() + e4.len() as int);
    lemma_read_bytes_skip(e2, r2, e3.len() + e4.len() as int);
    lemma_read_bytes_skip(e3, r3, e4.len() as int);
    lemma_read_bytes_skip(e4, e5, 0);
    lemma_read_bytes_head(m.keyload_link, Seq::<u8>::empty());
    assert(e5 + Seq::<u8>::empty() =~= e5);
}

/// Law: the `sensors` schema round-trips.
#[verifier::rlimit(100)]
pub proof fn lemma_sensor_round_trip(m: SensorModel)
    requires
        sensor_encodable(m),
    ensures
        spec_dec_sensor(spec_enc_sensor(m)) == Some(m),
{
    let e1 = spec_enc_bytes(m.sensor_id);
    let e2 = spec_enc_bytes(m.name);
    let e3 = spec_enc_bytes(m.typ);
    let e4 = spec_enc_bytes(m.value);
    let e5 = spec_enc_bytes(m.unit);
    let e6 = spec_enc_i64(m.timestamp);
    let r4 = e5 + e6;
    let r3 = e4 + r4;
    let r2 = e3 + r3;
    let r1 = e2 + r2;
    let s = e1 + r1;
    assert(s == spec_enc_sensor(m));
    lemma_enc_bytes_len(m.sensor_id);
    lemma_enc_bytes_len(m.name);
    lemma_enc_bytes_len(m.typ);
    lemma_enc_bytes_len(m.value);
    lemma_enc_bytes_len(m.unit);
    lemma_enc_i64_len(m.timestamp);
    lemma_read_bytes_head(m.sensor_id, r1);
    lemma_read_bytes_skip(e1, r1, 0);
    lemma_read_bytes_head(m.name, r2);
    lemma_read_bytes_skip(e1, r1, e2.len() as int);
    lemma_read_bytes_skip(e2, r2, 0);
    lemma_read_bytes_head(m.typ, r3);
    lemma_read_bytes_skip(e1, r1, e2.len() + e3.len() as int);
    lemma_read_bytes_skip(e2, r2, e3.len() as int);
    lemma_read_bytes_skip(e3, r3, 0);
    lemma_read_bytes_head(m.value, r4);
    lemma_read_bytes_skip(e1, r1, e2.len() + e3.len() + e4.len() as int);
    lemma_read_bytes_skip(e2, r2, e3.len() + e4.len() as int);
    lemma_read_bytes_skip(e3, r3, e4.len() as int);
    lemma_read_bytes_skip(e4, r4, 0);
    lemma_read_bytes_head(m.unit, e6);
    lemma_read_i64_skip(e1, r1, e2.len() + e3.len() + e4.len() + e5.len() as int);
    lemma_read_i64_skip(e2, r2, e3.len() + e4.len() + e5.len() as int);
    lemma_read_i64_skip(e3, r3, e4.len() + e5.len() as int);
    lemma_read_i64_skip(e4, r4, e5.len() as int);
    lemma_read_i64_skip(e5, e6, 0);
    lemma_read_i64_head(m.timestamp, Seq::<u8>::empty());
    assert(e6 + Seq::<u8>::empty() =~= e6);
}

/// Law: the `settings` schema round-trips.
#[verifier::rlimit(100)]
pub proof fn lemma_setting_round_trip(m: SettingModel)
    requires
        setting_encodable(m),
    ensures
        spec_dec_setting(spec_enc_setting(m)) == Some(m),
{
    let e1 = spec_enc_bytes(m.ip);
    let e2 = spec_enc_i64(m.pk_timestamp);
    let e3 = spec_enc_bytes(m.pk);
    let r1 = e2 + e3;
    let s = e1 + r1;
    assert(s == spec_enc_setting(m));
    lemma_enc_bytes_len(m.ip);
    lemma_enc_i64_len(m.pk_timestamp);
    lemma_enc_bytes_len(m.pk);
    lemma_read_bytes_head(m.ip, r1);
    lemma_read_i64_skip(e1, r1, 0);
    lemma_read_i64_head(m.pk_timestamp, e3);
    lemma_read_bytes_skip(e1, r1, e2.len() as int);
    lemma_read_bytes_skip(e2, e3, 0);
    lemma_read_bytes_head(m.pk, Seq::<u8>::empty());
    assert(e3 + Seq::<u8>::empty() =~= e3);
}

/// Law: the `command` schema round-trips.
pub proof fn lemma_command_round_trip(m: CommandModel)
    requires
        command_encodable(m),
    ensures
        spec_dec_command(spec_enc_command(m)) == Some(m),
{
    lemma_enc_bytes_len(m.command);
    lemma_read_bytes_head(m.command, Seq::<u8>::empty());
    assert(spec_enc_command(m) + Seq::<u8>::empty() =~= spec_enc_command(m));
}

fn read_i64(s: &Vec<u8>, pos: usize) -> (r: Option<(i64, usize)>)
    ensures
        match r {
            Some((n, p)) => spec_read_i64(s@, pos as int) == Some((n, p as int)),
            None => spec_read_i64(s@, pos as int) is None,
        },
{
    proof {
        reveal(spec_read_i64);
        reveal(spec_u64_of);
    }
    if s.len() >= 8 && pos <= s.len() - 8 {
        let u = (s[pos] as u64) | ((s[pos + 1] as u64) << 8) | ((s[pos + 2] as u64) << 16) | ((s[pos
            + 3] as u64) << 24) | ((s[pos + 4] as u64) << 32) | ((s[pos + 5] as u64) << 40) | ((s[pos
            + 6] as u64) << 48) | ((s[pos + 7] as u64) << 56);
        Some((u as i64, pos + 8))
    } else {
        None
    }
}


// ----- encodability checks for callers outside the proof -----

pub fn check_did_encodable(m: &Did) -> (r: bool)
    ensures
        r == did_encodable(m@),
{
    m.did.len() <= 0xFFFF_FFFF && m.challenge.len() <= 0xFFFF_FFFF && m.vc.len() <= 0xFFFF_FFFF
}

pub fn check_streams_encodable(m: &Streams) -> (r: bool)
    ensures
        r == streams_encodable(m@),
{
    m.did.len() <= 0xFFFF_FFFF && m.vc.len() <= 0xFFFF_FFFF && m.announcement_link.len()
        <= 0xFFFF_FFFF && m.subscription_link.len() <= 0xFFFF_FFFF && m.keyload_link.len()
        <= 0xFFFF_FFFF
}

pub fn check_sensor_encodable(m: &Sensor) -> (r: bool)
    ensures
        r == sensor_encodable(m@),
{
    m.sensor_id.len() <= 0xFFFF_FFFF && m.name.len() <= 0xFFFF_FFFF && m.typ.len() <= 0xFFFF_FFFF
        && m.value.len() <= 0xFFFF_FFFF && m.unit.len() <= 0xFFFF_FFFF
}

pub fn check_setting_encodable(m: &Setting) -> (r: bool)
    ensures
        r == setting_encodable(m@),
{
    m.ip.len() <= 0xFFFF_FFFF && m.pk.len() <= 0xFFFF_FFFF
}


} // verus!
