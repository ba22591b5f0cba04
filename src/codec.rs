//! The wire format of the gateway's messages.
//!
//! Integers are written in a variable-length form: a value up to 250 is one
//! byte; a larger one is a marker byte (251, 252 or 253) followed by the value
//! in two, four or eight bytes, least significant first. A byte buffer or a
//! string is its length in that form followed by its bytes. A struct is its
//! fields in order, and an enum is the index of its variant followed by the
//! variant's fields.
use vstd::prelude::*;

use crate::protocol::{
    param_type_code, param_type_of, CARequest, CARequestModel, CAResponse, CAResponseModel,
    ParamModel, ParamType, Parameter, Parameters, TARequest, TARequestModel, TEEParam, Value,
};

verus! {

/// Decoding failed: the input was truncated, malformed, or carried an
/// unknown variant index.
#[derive(Clone, Copy, Debug, PartialEq, Eq, Structural)]
pub struct DecodeError;

/// The two low bytes of `n`, least significant first.
pub open spec fn le2(n: u64) -> Seq<u8> {
    seq![n as u8, (n >> 8u64) as u8]
}

/// The four low bytes of `n`, least significant first.
pub open spec fn le4(n: u64) -> Seq<u8> {
    seq![n as u8, (n >> 8u64) as u8, (n >> 16u64) as u8, (n >> 24u64) as u8]
}

/// The eight bytes of `n`, least significant first.
pub open spec fn le8(n: u64) -> Seq<u8> {
    seq![
        n as u8,
        (n >> 8u64) as u8,
        (n >> 16u64) as u8,
        (n >> 24u64) as u8,
        (n >> 32u64) as u8,
        (n >> 40u64) as u8,
        (n >> 48u64) as u8,
        (n >> 56u64) as u8,
    ]
}

/// The value of two bytes, least significant first.
pub open spec fn from_le2(s: Seq<u8>) -> u64 {
    s[0] as u64 | (s[1] as u64) << 8u64
}

/// The value of four bytes, least significant first.
pub open spec fn from_le4(s: Seq<u8>) -> u64 {
    s[0] as u64 | (s[1] as u64) << 8u64 | (s[2] as u64) << 16u64 | (s[3] as u64) << 24u64
}

/// The value of eight bytes, least significant first.
pub open spec fn from_le8(s: Seq<u8>) -> u64 {
    s[0] as u64 | (s[1] as u64) << 8u64 | (s[2] as u64) << 16u64 | (s[3] as u64) << 24u64 | (
    s[4] as u64) << 32u64 | (s[5] as u64) << 40u64 | (s[6] as u64) << 48u64 | (s[7] as u64)
        << 56u64
}

/// The variable-length form of an integer.
pub open spec fn varint(n: u64) -> Seq<u8> {
    if n <= 250 {
        seq![n as u8]
    } else if n <= 0xffff {
        seq![251u8] + le2(n)
    } else if n <= 0xffff_ffff {
        seq![252u8] + le4(n)
    } else {
        seq![253u8] + le8(n)
    }
}

/// Reads an integer of at most 64 bits from the front of `s`, giving it and
/// the bytes after it.
#[verifier::opaque]
pub open spec fn parse_u64(s: Seq<u8>) -> Option<(u64, Seq<u8>)> {
    if s.len() == 0 {
        None
    } else if s[0] <= 250 {
        Some((s[0] as u64, s.subrange(1, s.len() as int)))
    } else if s[0] == 251 {
        if s.len() >= 3 {
            Some((from_le2(s.subrange(1, 3)), s.subrange(3, s.len() as int)))
        } else {
            None
        }
    } else if s[0] == 252 {
        if s.len() >= 5 {
            Some((from_le4(s.subrange(1, 5)), s.subrange(5, s.len() as int)))
        } else {
            None
        }
    } else if s[0] == 253 {
        if s.len() >= 9 {
            Some((from_le8(s.subrange(1, 9)), s.subrange(9, s.len() as int)))
        } else {
            None
        }
    } else {
        None
    }
}

/// Reads a 32-bit integer from the front of `s`: as `parse_u64`, but the
/// eight-byte form is refused.
pub open spec fn parse_u32(s: Seq<u8>) -> Option<(u32, Seq<u8>)> {
    if s.len() > 0 && s[0] == 253 {
        None
    } else {
        match parse_u64(s) {
            Some((v, rest)) => Some((v as u32, rest)),
            None => None,
        }
    }
}

/// A byte buffer: its length, then its bytes.
pub open spec fn enc_bytes(b: Seq<u8>) -> Seq<u8> {
    varint(b.len() as u64) + b
}

/// Reads a byte buffer from the front of `s`.
pub open spec fn parse_bytes(s: Seq<u8>) -> Option<(Seq<u8>, Seq<u8>)> {
    match parse_u64(s) {
        Some((n, rest)) => if n <= rest.len() {
            Some((rest.subrange(0, n as int), rest.subrange(n as int, rest.len() as int)))
        } else {
            None
        },
        None => None,
    }
}

proof fn lemma_le_round_trip(n: u64)
    ensures
        n <= 0xffff ==> from_le2(le2(n)) == n,
        n <= 0xffff_ffff ==> from_le4(le4(n)) == n,
        from_le8(le8(n)) == n,
{
    assert(n <= 0xffff ==> (n as u8) as u64 | (((n >> 8u64) as u8) as u64) << 8u64 == n)
        by (bit_vector);
    assert(n <= 0xffff_ffff ==> (n as u8) as u64 | (((n >> 8u64) as u8) as u64) << 8u64 | (((n
        >> 16u64) as u8) as u64) << 16u64 | (((n >> 24u64) as u8) as u64) << 24u64 == n)
        by (bit_vector);
    assert((n as u8) as u64 | (((n >> 8u64) as u8) as u64) << 8u64 | (((n >> 16u64) as u8) as u64)
        << 16u64 | (((n >> 24u64) as u8) as u64) << 24u64 | (((n >> 32u64) as u8) as u64) << 32u64
        | (((n >> 40u64) as u8) as u64) << 40u64 | (((n >> 48u64) as u8) as u64) << 48u64 | (((n
        >> 56u64) as u8) as u64) << 56u64 == n) by (bit_vector);
}

/// Reading back the variable-length form of an integer gives the integer
/// and leaves what followed it.
pub proof fn lemma_varint_round_trip(n: u64, rest: Seq<u8>)
    ensures
        parse_u64(varint(n) + rest) == Some((n, rest)),
        n <= u32::MAX ==> parse_u32(varint(n) + rest) == Some((n as u32, rest)),
{
    reveal(parse_u64);
    lemma_le_round_trip(n);
    let s = varint(n) + rest;
    if n <= 250 {
        assert(s.subrange(1, s.len() as int) =~= rest);
    } else if n <= 0xffff {
        assert(s.subrange(1, 3) =~= le2(n));
        assert(s.subrange(3, s.len() as int) =~= rest);
    } else if n <= 0xffff_ffff {
        assert(s.subrange(1, 5) =~= le4(n));
        assert(s.subrange(5, s.len() as int) =~= rest);
    } else {
        assert(s.subrange(1, 9) =~= le8(n));
        assert(s.subrange(9, s.len() as int) =~= rest);
    }
}

/// Reading back an encoded byte buffer gives the buffer and leaves what
/// followed it.
pub proof fn lemma_bytes_round_trip(b: Seq<u8>, rest: Seq<u8>)
    requires
        b.len() <= u64::MAX,
    ensures
        parse_bytes(enc_bytes(b) + rest) == Some((b, rest)),
{
    lemma_varint_round_trip(b.len() as u64, b + rest);
    assert(enc_bytes(b) + rest =~= varint(b.len() as u64) + (b + rest));
    assert((b + rest).subrange(0, b.len() as int) =~= b);
    assert((b + rest).subrange(b.len() as int, (b + rest).len() as int) =~= rest);
}

/// Appends the variable-length form of `n`.
pub fn write_varint(out: &mut Vec<u8>, n: u64)
    ensures
        final(out)@ == old(out)@ + varint(n),
{
    if n <= 250 {
        out.push(n as u8);
        assert(final(out)@ =~= old(out)@ + varint(n));
    } else if n <= 0xffff {
        out.push(251u8);
        out.push(n as u8);
        out.push((n >> 8u64) as u8);
        assert(final(out)@ =~= old(out)@ + varint(n));
    } else if n <= 0xffff_ffff {
        out.push(252u8);
        out.push(n as u8);
        out.push((n >> 8u64) as u8);
        out.push((n >> 16u64) as u8);
        out.push((n >> 24u64) as u8);
        assert(final(out)@ =~= old(out)@ + varint(n));
    } else {
        out.push(253u8);
        out.push(n as u8);
        out.push((n >> 8u64) as u8);
        out.push((n >> 16u64) as u8);
        out.push((n >> 24u64) as u8);
        out.push((n >> 32u64) as u8);
        out.push((n >> 40u64) as u8);
        out.push((n >> 48u64) as u8);
        out.push((n >> 56u64) as u8);
        assert(final(out)@ =~= old(out)@ + varint(n));
    }
}

/// The bytes of `b` from `pos` on.
pub open spec fn tail(b: Seq<u8>, pos: int) -> Seq<u8> {
    b.subrange(pos, b.len() as int)
}

/// Reads an integer of at most 64 bits at `pos`, giving it and the position
/// after it.
pub fn read_u64(b: &[u8], pos: usize) -> (r: Option<(u64, usize)>)
    requires
        pos <= b@.len(),
    ensures
        match parse_u64(tail(b@, pos as int)) {
            Some((v, rest)) => r matches Some((w, p)) && w == v && pos <= p <= b@.len() && rest
                == tail(b@, p as int),
            None => r is None,
        },
{
    reveal(parse_u64);
    let s = Ghost(tail(b@, pos as int));
    if pos >= b.len() {
        return None;
    }
    let first = b[pos];
    let avail = b.len() - pos;
    if first <= 250 {
        assert(tail(s@, 1) =~= tail(b@, pos + 1));
        Some((first as u64, pos + 1))
    } else if first == 251 {
        if avail < 3 {
            return None;
        }
        let v = b[pos + 1] as u64 | (b[pos + 2] as u64) << 8u64;
        assert(s@.subrange(1, 3) =~= b@.subrange(pos + 1, pos + 3));
        assert(tail(s@, 3) =~= tail(b@, pos + 3));
        Some((v, pos + 3))
    } else if first == 252 {
        if avail < 5 {
            return None;
        }
        let v = b[pos + 1] as u64 | (b[pos + 2] as u64) << 8u64 | (b[pos + 3] as u64) << 16u64 | (
        b[pos + 4] as u64) << 24u64;
        assert(s@.subrange(1, 5) =~= b@.subrange(pos + 1, pos + 5));
        assert(tail(s@, 5) =~= tail(b@, pos + 5));
        Some((v, pos + 5))
    } else if first == 253 {
        if avail < 9 {
            return None;
        }
        let v = b[pos + 1] as u64 | (b[pos + 2] as u64) << 8u64 | (b[pos + 3] as u64) << 16u64 | (
        b[pos + 4] as u64) << 24u64 | (b[pos + 5] as u64) << 32u64 | (b[pos + 6] as u64) << 40u64
            | (b[pos + 7] as u64) << 48u64 | (b[pos + 8] as u64) << 56u64;
        assert(s@.subrange(1, 9) =~= b@.subrange(pos + 1, pos + 9));
        assert(tail(s@, 9) =~= tail(b@, pos + 9));
        Some((v, pos + 9))
    } else {
        None
    }
}

/// Reads a 32-bit integer at `pos`, giving it and the position after it.
pub fn read_u32(b: &[u8], pos: usize) -> (r: Option<(u32, usize)>)
    requires
        pos <= b@.len(),
    ensures
        match parse_u32(tail(b@, pos as int)) {
            Some((v, rest)) => r matches Some((w, p)) && w == v && pos <= p <= b@.len() && rest
                == tail(b@, p as int),
            None => r is None,
        },
{
    if pos < b.len() && b[pos] == 253 {
        return None;
    }
    match read_u64(b, pos) {
        Some((v, p)) => Some((v as u32, p)),
        None => None,
    }
}

/// Reads a byte buffer at `pos`, giving a copy of it and the position after
/// it.
pub fn read_bytes(b: &[u8], pos: usize) -> (r: Option<(Vec<u8>, usize)>)
    requires
        pos <= b@.len(),
    ensures
        match parse_bytes(tail(b@, pos as int)) {
            Some((v, rest)) => r matches Some((w, p)) && w@ == v && pos <= p <= b@.len() && rest
                == tail(b@, p as int),
            None => r is None,
        },
{
    match read_u64(b, pos) {
        Some((n, start)) => {
            if n > (b.len() - start) as u64 {
                return None;
            }
            let end = start + n as usize;
            let mut out: Vec<u8> = Vec::new();
            let mut i: usize = start;
            while i < end
                invariant
                    start <= i <= end <= b@.len(),
                    out@ == b@.subrange(start as int, i as int),
                decreases end - i,
            {
                out.push(b[i]);
                i = i + 1;
                assert(out@ =~= b@.subrange(start as int, i as int));
            }
            let ghost rest = tail(b@, start as int);
            assert(rest.subrange(0, n as int) =~= out@);
            assert(rest.subrange(n as int, rest.len() as int) =~= tail(b@, end as int));
            Some((out, end))
        },
        None => None,
    }
}

/// Appends an encoded byte buffer.
pub fn write_bytes(out: &mut Vec<u8>, data: &[u8])
    ensures
        final(out)@ == old(out)@ + enc_bytes(data@),
{
    write_varint(out, data.len() as u64);
    let ghost mid = out@;
    let mut i: usize = 0;
    while i < data.len()
        invariant
            i <= data@.len(),
            out@ == mid + data@.subrange(0, i as int),
        decreases data@.len() - i,
    {
        out.push(data[i]);
        i = i + 1;
        assert(out@ =~= mid + data@.subrange(0, i as int));
    }
    assert(data@.subrange(0, data@.len() as int) =~= data@);
    assert(out@ =~= old(out)@ + enc_bytes(data@));
}

/// A 32-bit integer in variable-length form.
pub open spec fn enc_u32(n: u32) -> Seq<u8> {
    varint(n as u64)
}

/// A parameter slot: its buffer, its two words, then the tag of its kind.
pub open spec fn enc_param(p: ParamModel) -> Seq<u8> {
    enc_bytes(p.data) + enc_u32(p.value.a) + enc_u32(p.value.b) + enc_u32(
        param_type_code(p.param_type),
    )
}

/// The four slots of a parameter block, in order.
pub open spec fn enc_params(ps: Seq<ParamModel>) -> Seq<u8> {
    enc_param(ps[0]) + enc_param(ps[1]) + enc_param(ps[2]) + enc_param(ps[3])
}

/// A slot whose buffer length fits the length field.
pub open spec fn param_fits(p: ParamModel) -> bool {
    p.data.len() <= u64::MAX
}

/// A block of four slots that all fit.
pub open spec fn params_fit(ps: Seq<ParamModel>) -> bool {
    ps.len() == 4 && param_fits(ps[0]) && param_fits(ps[1]) && param_fits(ps[2]) && param_fits(
        ps[3],
    )
}

/// Reads a parameter slot; an unknown kind tag is read as `Empty`.
pub open spec fn parse_param(s: Seq<u8>) -> Option<(ParamModel, Seq<u8>)> {
    match parse_bytes(s) {
        Some((data, s1)) => match parse_u32(s1) {
            Some((a, s2)) => match parse_u32(s2) {
                Some((b, s3)) => match parse_u32(s3) {
                    Some((t, s4)) => Some(
                        (
                            ParamModel {
                                param_type: param_type_of(t),
                                value: Value { a, b },
                                data,
                            },
                            s4,
                        ),
                    ),
                    None => None,
                },
                None => None,
            },
            None => None,
        },
        None => None,
    }
}

/// Reads the four slots of a parameter block.
pub open spec fn parse_params(s: Seq<u8>) -> Option<(Seq<ParamModel>, Seq<u8>)> {
    match parse_param(s) {
        Some((p0, s1)) => match parse_param(s1) {
            Some((p1, s2)) => match parse_param(s2) {
                Some((p2, s3)) => match parse_param(s3) {
                    Some((p3, s4)) => Some((seq![p0, p1, p2, p3], s4)),
                    None => None,
                },
                None => None,
            },
            None => None,
        },
        None => None,
    }
}

/// Reading back an encoded slot gives the slot and leaves what followed it.
pub proof fn lemma_param_round_trip(p: ParamModel, rest: Seq<u8>)
    requires
        param_fits(p),
    ensures
        parse_param(enc_param(p) + rest) == Some((p, rest)),
{
    let t = param_type_code(p.param_type);
    let s3 = enc_u32(t) + rest;
    let s2 = enc_u32(p.value.b) + s3;
    let s1 = enc_u32(p.value.a) + s2;
    assert(enc_param(p) + rest =~= enc_bytes(p.data) + s1);
    lemma_bytes_round_trip(p.data, s1);
    lemma_varint_round_trip(p.value.a as u64, s2);
    lemma_varint_round_trip(p.value.b as u64, s3);
    lemma_varint_round_trip(t as u64, rest);
}

/// Reading back an encoded parameter block gives the block and leaves what
/// followed it.
pub proof fn lemma_params_round_trip(ps: Seq<ParamModel>, rest: Seq<u8>)
    requires
        params_fit(ps),
    ensures
        parse_params(enc_params(ps) + rest) == Some((ps, rest)),
{
    let s3 = enc_param(ps[3]) + rest;
    let s2 = enc_param(ps[2]) + s3;
    let s1 = enc_param(ps[1]) + s2;
    assert(enc_params(ps) + rest =~= enc_param(ps[0]) + s1);
    lemma_param_round_trip(ps[0], s1);
    lemma_param_round_trip(ps[1], s2);
    lemma_param_round_trip(ps[2], s3);
    lemma_param_round_trip(ps[3], rest);
    assert(seq![ps[0], ps[1], ps[2], ps[3]] =~= ps);
}

/// Appends an encoded 32-bit integer.
pub fn write_u32(out: &mut Vec<u8>, n: u32)
    ensures
        final(out)@ == old(out)@ + enc_u32(n),
{
    write_varint(out, n as u64);
}

/// Appends an encoded parameter slot.
pub fn write_param(out: &mut Vec<u8>, p: &Parameter)
    ensures
        final(out)@ == old(out)@ + enc_param(p@),
{
    write_bytes(out, p.raw.data.as_slice());
    write_u32(out, p.raw.value.a);
    write_u32(out, p.raw.value.b);
    write_u32(out, p.param_type.code());
    assert(final(out)@ =~= old(out)@ + enc_param(p@));
}

/// Appends an encoded parameter block.
pub fn write_params(out: &mut Vec<u8>, ps: &Parameters)
    ensures
        final(out)@ == old(out)@ + enc_params(ps@),
{
    write_param(out, &ps.0);
    write_param(out, &ps.1);
    write_param(out, &ps.2);
    write_param(out, &ps.3);
    assert(final(out)@ =~= old(out)@ + enc_params(ps@));
}

/// Reads a parameter slot at `pos`.
pub fn read_param(b: &[u8], pos: usize) -> (r: Option<(Parameter, usize)>)
    requires
        pos <= b@.len(),
    ensures
        match parse_param(tail(b@, pos as int)) {
            Some((v, rest)) => r matches Some((w, p)) && w@ == v && pos <= p <= b@.len() && rest
                == tail(b@, p as int),
            None => r is None,
        },
{
    let (data, p1) = match read_bytes(b, pos) {
        Some(x) => x,
        None => return None,
    };
    let (a, p2) = match read_u32(b, p1) {
        Some(x) => x,
        None => return None,
    };
    let (bw, p3) = match read_u32(b, p2) {
        Some(x) => x,
        None => return None,
    };
    let (t, p4) = match read_u32(b, p3) {
        Some(x) => x,
        None => return None,
    };
    let param_type = ParamType::from(t);
    Some((Parameter { raw: TEEParam { data, value: Value { a, b: bw } }, param_type }, p4))
}

/// Reads a parameter block at `pos`.
pub fn read_params(b: &[u8], pos: usize) -> (r: Option<(Parameters, usize)>)
    requires
        pos <= b@.len(),
    ensures
        match parse_params(tail(b@, pos as int)) {
            Some((v, rest)) => r matches Some((w, p)) && w@ == v && pos <= p <= b@.len() && rest
                == tail(b@, p as int),
            None => r is None,
        },
{
    let (p0, q1) = match read_param(b, pos) {
        Some(x) => x,
        None => return None,
    };
    let (p1, q2) = match read_param(b, q1) {
        Some(x) => x,
        None => return None,
    };
    let (p2, q3) = match read_param(b, q2) {
        Some(x) => x,
        None => return None,
    };
    let (p3, q4) = match read_param(b, q3) {
        Some(x) => x,
        None => return None,
    };
    Some((Parameters(p0, p1, p2, p3), q4))
}

/// The encoded form of a client request.
pub open spec fn enc_request(m: CARequestModel) -> Seq<u8> {
    match m {
        CARequestModel::OpenSession { params } => enc_u32(0) + enc_params(params),
        CARequestModel::CloseSession { session_id } => enc_u32(1) + enc_u32(session_id),
        CARequestModel::Destroy => enc_u32(2),
        CARequestModel::InvokeCommand { session_id, cmd_id, params } => enc_u32(3) + enc_u32(
            session_id,
        ) + enc_u32(cmd_id) + enc_params(params),
        CARequestModel::RequestCancellation { session_id } => enc_u32(4) + enc_u32(session_id),
    }
}

/// Reads a client request from the front of `s`.
pub open spec fn parse_request(s: Seq<u8>) -> Option<(CARequestModel, Seq<u8>)> {
    match parse_u32(s) {
        Some((tag, s1)) => if tag == 0 {
            match parse_params(s1) {
                Some((params, s2)) => Some((CARequestModel::OpenSession { params }, s2)),
                None => None,
            }
        } else if tag == 1 {
            match parse_u32(s1) {
                Some((session_id, s2)) => Some((CARequestModel::CloseSession { session_id }, s2)),
                None => None,
            }
        } else if tag == 2 {
            Some((CARequestModel::Destroy, s1))
        } else if tag == 3 {
            match parse_u32(s1) {
                Some((session_id, s2)) => match parse_u32(s2) {
                    Some((cmd_id, s3)) => match parse_params(s3) {
                        Some((params, s4)) => Some(
                            (CARequestModel::InvokeCommand { session_id, cmd_id, params }, s4),
                        ),
                        None => None,
                    },
                    None => None,
                },
                None => None,
            }
        } else if tag == 4 {
            match parse_u32(s1) {
                Some((session_id, s2)) => Some(
                    (CARequestModel::RequestCancellation { session_id }, s2),
                ),
                None => None,
            }
        } else {
            None
        },
        None => None,
    }
}

/// The buffers of a request fit their length fields.
pub open spec fn request_fits(m: CARequestModel) -> bool {
    match m {
        CARequestModel::OpenSession { params } => params_fit(params),
        CARequestModel::InvokeCommand { params, .. } => params_fit(params),
        _ => true,
    }
}

/// The encoded form of a response to a client.
pub open spec fn enc_response(m: CAResponseModel) -> Seq<u8> {
    match m {
        CAResponseModel::OpenSession { status, session_id } => enc_u32(0) + enc_u32(status)
            + enc_u32(session_id),
        CAResponseModel::CloseSession { status, session_id } => enc_u32(1) + enc_u32(status)
            + enc_u32(session_id),
        CAResponseModel::Destroy { status } => enc_u32(2) + enc_u32(status),
        CAResponseModel::InvokeCommand { status, session_id, cmd_id, params } => enc_u32(3)
            + enc_u32(status) + enc_u32(session_id) + enc_u32(cmd_id) + enc_params(params),
        CAResponseModel::RequestCancellation { status, session_id } => enc_u32(4) + enc_u32(
            status,
        ) + enc_u32(session_id),
    }
}

/// Reads a response from the front of `s`.
pub open spec fn parse_response(s: Seq<u8>) -> Option<(CAResponseModel, Seq<u8>)> {
    match parse_u32(s) {
        Some((tag, s1)) => match parse_u32(s1) {
            Some((status, s2)) => if tag == 2 {
                Some((CAResponseModel::Destroy { status }, s2))
            } else {
                match parse_u32(s2) {
                    Some((session_id, s3)) => if tag == 0 {
                        Some((CAResponseModel::OpenSession { status, session_id }, s3))
                    } else if tag == 1 {
                        Some((CAResponseModel::CloseSession { status, session_id }, s3))
                    } else if tag == 3 {
                        match parse_u32(s3) {
                            Some((cmd_id, s4)) => match parse_params(s4) {
                                Some((params, s5)) => Some(
                                    (
                                        CAResponseModel::InvokeCommand {
                                            status,
                                            session_id,
                                            cmd_id,
                                            params,
                                        },
                                        s5,
                                    ),
                                ),
                                None => None,
                            },
                            None => None,
                        }
                    } else if tag == 4 {
                        Some((CAResponseModel::RequestCancellation { status, session_id }, s3))
                    } else {
                        None
                    },
                    None => None,
                }
            },
            None => None,
        },
        None => None,
    }
}

/// The buffers of a response fit their length fields.
pub open spec fn response_fits(m: CAResponseModel) -> bool {
    match m {
        CAResponseModel::InvokeCommand { params, .. } => params_fit(params),
        _ => true,
    }
}

/// The encoded form of a registration: variant index, then the identifier
/// as UTF-8 bytes.
pub open spec fn enc_register(m: TARequestModel) -> Seq<u8> {
    match m {
        TARequestModel::Register { uuid } => enc_u32(0) + enc_bytes(
            vstd::utf8::encode_utf8(uuid),
        ),
    }
}

/// Reads a registration from the front of `s`; the identifier must be valid
/// UTF-8.
pub open spec fn parse_register(s: Seq<u8>) -> Option<(TARequestModel, Seq<u8>)> {
    match parse_u32(s) {
        Some((tag, s1)) => if tag == 0 {
            match parse_bytes(s1) {
                Some((bytes, s2)) => if vstd::utf8::valid_utf8(bytes) {
                    Some(
                        (TARequestModel::Register { uuid: vstd::utf8::decode_utf8(bytes) }, s2),
                    )
                } else {
                    None
                },
                None => None,
            }
        } else {
            None
        },
        None => None,
    }
}

/// Decoding an encoded client request gives the request back, for every
/// variant, and leaves the bytes that followed it.
pub proof fn lemma_request_round_trip(m: CARequestModel, rest: Seq<u8>)
    requires
        request_fits(m),
    ensures
        parse_request(enc_request(m) + rest) == Some((m, rest)),
{
    match m {
        CARequestModel::OpenSession { params } => {
            assert(enc_request(m) + rest =~= enc_u32(0) + (enc_params(params) + rest));
            lemma_varint_round_trip(0, enc_params(params) + rest);
            lemma_params_round_trip(params, rest);
        },
        CARequestModel::CloseSession { session_id } => {
            assert(enc_request(m) + rest =~= enc_u32(1) + (enc_u32(session_id) + rest));
            lemma_varint_round_trip(1, enc_u32(session_id) + rest);
            lemma_varint_round_trip(session_id as u64, rest);
        },
        CARequestModel::Destroy => {
            lemma_varint_round_trip(2, rest);
        },
        CARequestModel::InvokeCommand { session_id, cmd_id, params } => {
            let s3 = enc_params(params) + rest;
            let s2 = enc_u32(cmd_id) + s3;
            let s1 = enc_u32(session_id) + s2;
            assert(enc_request(m) + rest =~= enc_u32(3) + s1);
            lemma_varint_round_trip(3, s1);
            lemma_varint_round_trip(session_id as u64, s2);
            lemma_varint_round_trip(cmd_id as u64, s3);
            lemma_params_round_trip(params, rest);
        },
        CARequestModel::RequestCancellation { session_id } => {
            assert(enc_request(m) + rest =~= enc_u32(4) + (enc_u32(session_id) + rest));
            lemma_varint_round_trip(4, enc_u32(session_id) + rest);
            lemma_varint_round_trip(session_id as u64, rest);
        },
    }
}

/// Decoding an encoded response gives the response back, for every variant,
/// and leaves the bytes that followed it.
pub proof fn lemma_response_round_trip(m: CAResponseModel, rest: Seq<u8>)
    requires
        response_fits(m),
    ensures
        parse_response(enc_response(m) + rest) == Some((m, rest)),
{
    match m {
        CAResponseModel::OpenSession { status, session_id } => {
            let s2 = enc_u32(session_id) + rest;
            let s1 = enc_u32(status) + s2;
            assert(enc_response(m) + rest =~= enc_u32(0) + s1);
            lemma_varint_round_trip(0, s1);
            lemma_varint_round_trip(status as u64, s2);
            lemma_varint_round_trip(session_id as u64, rest);
        },
        CAResponseModel::CloseSession { status, session_id } => {
            let s2 = enc_u32(session_id) + rest;
            let s1 = enc_u32(status) + s2;
            assert(enc_response(m) + rest =~= enc_u32(1) + s1);
            lemma_varint_round_trip(1, s1);
            lemma_varint_round_trip(status as u64, s2);
            lemma_varint_round_trip(session_id as u64, rest);
        },
        CAResponseModel::Destroy { status } => {
            assert(enc_response(m) + rest =~= enc_u32(2) + (enc_u32(status) + rest));
            lemma_varint_round_trip(2, enc_u32(status) + rest);
            lemma_varint_round_trip(status as u64, rest);
        },
        CAResponseModel::InvokeCommand { status, session_id, cmd_id, params } => {
            let s4 = enc_params(params) + rest;
            let s3 = enc_u32(cmd_id) + s4;
            let s2 = enc_u32(session_id) + s3;
            let s1 = enc_u32(status) + s2;
            assert(enc_response(m) + rest =~= enc_u32(3) + s1);
            lemma_varint_round_trip(3, s1);
            lemma_varint_round_trip(status as u64, s2);
            lemma_varint_round_trip(session_id as u64, s3);
            lemma_varint_round_trip(cmd_id as u64, s4);
            lemma_params_round_trip(params, rest);
        },
        CAResponseModel::RequestCancellation { status, session_id } => {
            let s2 = enc_u32(session_id) + rest;
            let s1 = enc_u32(status) + s2;
            assert(enc_response(m) + rest =~= enc_u32(4) + s1);
            lemma_varint_round_trip(4, s1);
            lemma_varint_round_trip(status as u64, s2);
            lemma_varint_round_trip(session_id as u64, rest);
        },
    }
}

/// Decoding an encoded registration gives it back and leaves the bytes that
/// followed it.
pub proof fn lemma_register_round_trip(m: TARequestModel, rest: Seq<u8>)
    requires
        m matches TARequestModel::Register { uuid } && vstd::utf8::encode_utf8(uuid).len()
            <= u64::MAX,
    ensures
        parse_register(enc_register(m) + rest) == Some((m, rest)),
{
    match m {
        TARequestModel::Register { uuid } => {
            let bytes = vstd::utf8::encode_utf8(uuid);
            assert(enc_register(m) + rest =~= enc_u32(0) + (enc_bytes(bytes) + rest));
            lemma_varint_round_trip(0, enc_bytes(bytes) + rest);
            lemma_bytes_round_trip(bytes, rest);
            vstd::utf8::encode_utf8_valid_utf8(uuid);
            vstd::utf8::encode_utf8_decode_utf8(uuid);
        },
    }
}

/// Encodes a client request.
pub fn encode_request(m: &CARequest) -> (r: Vec<u8>)
    ensures
        r@ == enc_request(m@),
{
    let mut out: Vec<u8> = Vec::new();
    match m {
        CARequest::OpenSession { params } => {
            write_u32(&mut out, 0);
            write_params(&mut out, params);
        },
        CARequest::CloseSession { session_id } => {
            write_u32(&mut out, 1);
            write_u32(&mut out, *session_id);
        },
        CARequest::Destroy => {
            write_u32(&mut out, 2);
        },
        CARequest::InvokeCommand { session_id, cmd_id, params } => {
            write_u32(&mut out, 3);
            write_u32(&mut out, *session_id);
            write_u32(&mut out, *cmd_id);
            write_params(&mut out, params);
        },
        CARequest::RequestCancellation { session_id } => {
            write_u32(&mut out, 4);
            write_u32(&mut out, *session_id);
        },
    }
    assert(out@ =~= enc_request(m@));
    out
}

/// Decodes a client request from the front of `b`, giving it and the number
/// of bytes it took.
pub fn decode_request(b: &[u8]) -> (r: Result<(CARequest, usize), DecodeError>)
    ensures
        match parse_request(b@) {
            Some((m, rest)) => r matches Ok((x, n)) && x@ == m && n <= b@.len() && rest == tail(
                b@,
                n as int,
            ),
            None => r is Err,
        },
{
    assert(tail(b@, 0) =~= b@);
    let (tag, p1) = match read_u32(b, 0) {
        Some(x) => x,
        None => return Err(DecodeError),
    };
    if tag == 0 {
        match read_params(b, p1) {
            Some((params, p2)) => Ok((CARequest::OpenSession { params }, p2)),
            None => Err(DecodeError),
        }
    } else if tag == 1 {
        match read_u32(b, p1) {
            Some((session_id, p2)) => Ok((CARequest::CloseSession { session_id }, p2)),
            None => Err(DecodeError),
        }
    } else if tag == 2 {
        Ok((CARequest::Destroy, p1))
    } else if tag == 3 {
        let (session_id, p2) = match read_u32(b, p1) {
            Some(x) => x,
            None => return Err(DecodeError),
        };
        let (cmd_id, p3) = match read_u32(b, p2) {
            Some(x) => x,
            None => return Err(DecodeError),
        };
        match read_params(b, p3) {
            Some((params, p4)) => Ok((CARequest::InvokeCommand { session_id, cmd_id, params }, p4)),
            None => Err(DecodeError),
        }
    } else if tag == 4 {
        match read_u32(b, p1) {
            Some((session_id, p2)) => Ok((CARequest::RequestCancellation { session_id }, p2)),
            None => Err(DecodeError),
        }
    } else {
        Err(DecodeError)
    }
}

/// Encodes a response to a client.
pub fn encode_response(m: &CAResponse) -> (r: Vec<u8>)
    ensures
        r@ == enc_response(m@),
{
    let mut out: Vec<u8> = Vec::new();
    match m {
        CAResponse::OpenSession { status, session_id } => {
            write_u32(&mut out, 0);
            write_u32(&mut out, *status);
            write_u32(&mut out, *session_id);
        },
        CAResponse::CloseSession { status, session_id } => {
            write_u32(&mut out, 1);
            write_u32(&mut out, *status);
            write_u32(&mut out, *session_id);
        },
        CAResponse::Destroy { status } => {
            write_u32(&mut out, 2);
            write_u32(&mut out, *status);
        },
        CAResponse::InvokeCommand { status, session_id, cmd_id, params } => {
            write_u32(&mut out, 3);
            write_u32(&mut out, *status);
            write_u32(&mut out, *session_id);
            write_u32(&mut out, *cmd_id);
            write_params(&mut out, params);
        },
        CAResponse::RequestCancellation { status, session_id } => {
            write_u32(&mut out, 4);
            write_u32(&mut out, *status);
            write_u32(&mut out, *session_id);
        },
    }
    assert(out@ =~= enc_response(m@));
    out
}

/// Decodes a response from the front of `b`, giving it and the number of
/// bytes it took.
pub fn decode_response(b: &[u8]) -> (r: Result<(CAResponse, usize), DecodeError>)
    ensures
        match parse_response(b@) {
            Some((m, rest)) => r matches Ok((x, n)) && x@ == m && n <= b@.len() && rest == tail(
                b@,
                n as int,
            ),
            None => r is Err,
        },
{
    assert(tail(b@, 0) =~= b@);
    let (tag, p1) = match read_u32(b, 0) {
        Some(x) => x,
        None => return Err(DecodeError),
    };
    let (status, p2) = match read_u32(b, p1) {
        Some(x) => x,
        None => return Err(DecodeError),
    };
    if tag == 2 {
        return Ok((CAResponse::Destroy { status }, p2));
    }
    let (session_id, p3) = match read_u32(b, p2) {
        Some(x) => x,
        None => return Err(DecodeError),
    };
    if tag == 0 {
        Ok((CAResponse::OpenSession { status, session_id }, p3))
    } else if tag == 1 {
        Ok((CAResponse::CloseSession { status, session_id }, p3))
    } else if tag == 3 {
        let (cmd_id, p4) = match read_u32(b, p3) {
            Some(x) => x,
            None => return Err(DecodeError),
        };
        match read_params(b, p4) {
            Some((params, p5)) => Ok(
                (CAResponse::InvokeCommand { status, session_id, cmd_id, params }, p5),
            ),
            None => Err(DecodeError),
        }
    } else if tag == 4 {
        Ok((CAResponse::RequestCancellation { status, session_id }, p3))
    } else {
        Err(DecodeError)
    }
}

/// Encodes a registration message.
pub fn encode_register(m: &TARequest) -> (r: Vec<u8>)
    ensures
        r@ == enc_register(m@),
{
    let mut out: Vec<u8> = Vec::new();
    match m {
        TARequest::Register { uuid } => {
            write_u32(&mut out, 0);
            write_bytes(&mut out, uuid.as_str().as_bytes());
        },
    }
    assert(out@ =~= enc_register(m@));
    out
}

/// Relies on `String::from_utf8`: it succeeds exactly when the bytes are
/// valid UTF-8, and the string then holds the characters they encode.
#[verifier::external_body]
fn string_from_utf8(bytes: Vec<u8>) -> (r: Option<String>)
    ensures
        r is Some <==> vstd::utf8::valid_utf8(bytes@),
        r matches Some(s) ==> s@ == vstd::utf8::decode_utf8(bytes@),
{
    String::from_utf8(bytes).ok()
}

/// Decodes a registration message from the front of `b`, giving it and the
/// number of bytes it took.
pub fn decode_register(b: &[u8]) -> (r: Result<(TARequest, usize), DecodeError>)
    ensures
        match parse_register(b@) {
            Some((m, rest)) => r matches Ok((x, n)) && x@ == m && n <= b@.len() && rest == tail(
                b@,
                n as int,
            ),
            None => r is Err,
        },
{
    assert(tail(b@, 0) =~= b@);
    let (tag, p1) = match read_u32(b, 0) {
        Some(x) => x,
        None => return Err(DecodeError),
    };
    if tag != 0 {
        return Err(DecodeError);
    }
    let (bytes, p2) = match read_bytes(b, p1) {
        Some(x) => x,
        None => return Err(DecodeError),
    };
    match string_from_utf8(bytes) {
        Some(uuid) => Ok((TARequest::Register { uuid }, p2)),
        None => Err(DecodeError),
    }
}

} // verus!
