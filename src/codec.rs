//! Byte layout of an envelope, its encoder, and the version-gated decoder.
//!
//! Layout: one discriminant byte, then the fields in order. Integers of
//! 32 bits are little-endian; a payload is its length as such an integer,
//! then its bytes. An error message carries the error discriminant, then
//! for a parsing error the version byte and the echoed message.

use vstd::prelude::*;
use crate::message::{
    error_tag_of, tag_of, DirectSendMsg, Envelope, ErrorCode, ErrorModel,
    MessagingProtocolVersion, NetworkMessage, Nonce, ProtocolId, RpcRequest, RpcResponse, V1,
};

verus! {

/// Little-endian bytes of a 32-bit integer.
pub open spec fn le32(x: u32) -> Seq<u8> {
    seq![
        (x % 256) as u8,
        ((x / 256) % 256) as u8,
        ((x / 65536) % 256) as u8,
        (x / 16777216) as u8,
    ]
}

/// A payload behind its length.
pub open spec fn framed(p: Seq<u8>) -> Seq<u8> {
    le32(p.len() as u32) + p
}

/// The bytes that stand for a message on the wire.
pub open spec fn encoding(m: Envelope) -> Seq<u8>
    decreases m,
{
    match m {
        Envelope::Error(ErrorModel::ParsingError(v, inner)) => seq![0u8, 0u8, v] + encoding(*inner),
        Envelope::Error(ErrorModel::TimedOut) => seq![0u8, 1u8],
        Envelope::Ping(n) => seq![1u8] + le32(n),
        Envelope::Pong(n) => seq![2u8] + le32(n),
        Envelope::RpcRequest { request_id, protocol, priority, payload } => seq![3u8] + le32(
            request_id,
        ) + seq![protocol, priority] + framed(payload),
        Envelope::RpcResponse { request_id, priority, payload } => seq![4u8] + le32(request_id)
            + seq![priority] + framed(payload),
        Envelope::DirectSend { protocol, priority, payload } => seq![5u8, protocol, priority]
            + framed(payload),
    }
}

/// A message has an encoding: every payload's length fits the length field.
pub open spec fn encodable(m: Envelope) -> bool
    decreases m,
{
    match m {
        Envelope::Error(ErrorModel::ParsingError(_, inner)) => encodable(*inner),
        Envelope::Error(ErrorModel::TimedOut) => true,
        Envelope::Ping(_) => true,
        Envelope::Pong(_) => true,
        Envelope::RpcRequest { payload, .. } => payload.len() <= u32::MAX,
        Envelope::RpcResponse { payload, .. } => payload.len() <= u32::MAX,
        Envelope::DirectSend { payload, .. } => payload.len() <= u32::MAX,
    }
}

/// The bytes `s` start with `p`.
pub open spec fn starts_with(s: Seq<u8>, p: Seq<u8>) -> bool {
    p.len() <= s.len() && s.subrange(0, p.len() as int) == p
}

/// For each discriminant, the version at which it was introduced.
/// The discriminants legal under a version are those introduced at it or
/// before it.
#[derive(Clone, Copy, Debug, PartialEq, Eq)]
pub struct VersionGate {
    pub error: u8,
    pub ping: u8,
    pub pong: u8,
    pub rpc_request: u8,
    pub rpc_response: u8,
    pub direct_send: u8,
    pub parsing_error: u8,
    pub timed_out: u8,
}

/// Version at which the message's discriminant was introduced.
pub open spec fn introduced(g: VersionGate, m: Envelope) -> u8 {
    match m {
        Envelope::Error(_) => g.error,
        Envelope::Ping(_) => g.ping,
        Envelope::Pong(_) => g.pong,
        Envelope::RpcRequest { .. } => g.rpc_request,
        Envelope::RpcResponse { .. } => g.rpc_response,
        Envelope::DirectSend { .. } => g.direct_send,
    }
}

/// Version at which the error code's discriminant was introduced.
pub open spec fn error_introduced(g: VersionGate, e: ErrorModel) -> u8 {
    match e {
        ErrorModel::ParsingError(..) => g.parsing_error,
        ErrorModel::TimedOut => g.timed_out,
    }
}

/// Whether a message's discriminants are all legal under `version`. The
/// message echoed inside a parsing error is diagnostic data and is not gated.
pub open spec fn permits(g: VersionGate, version: u8, m: Envelope) -> bool {
    &&& introduced(g, m) <= version
    &&& (m matches Envelope::Error(e) ==> error_introduced(g, e) <= version)
}

impl VersionGate {
    /// The discriminants of the first messaging protocol version.
    pub fn v1() -> (r: VersionGate)
        ensures
            r == (VersionGate {
                error: V1,
                ping: V1,
                pong: V1,
                rpc_request: V1,
                rpc_response: V1,
                direct_send: V1,
                parsing_error: V1,
                timed_out: V1,
            }),
    {
        VersionGate {
            error: V1,
            ping: V1,
            pong: V1,
            rpc_request: V1,
            rpc_response: V1,
            direct_send: V1,
            parsing_error: V1,
            timed_out: V1,
        }
    }

    /// Whether `m` may be exchanged under `version`.
    pub fn permits(&self, version: MessagingProtocolVersion, m: &NetworkMessage) -> (r: bool)
        ensures
            r == permits(*self, version.0, m@),
    {
        let v = version.0;
        match m {
            NetworkMessage::Error(e) => self.error <= v && match e {
                ErrorCode::ParsingError(..) => self.parsing_error <= v,
                ErrorCode::TimedOut => self.timed_out <= v,
            },
            NetworkMessage::Ping(_) => self.ping <= v,
            NetworkMessage::Pong(_) => self.pong <= v,
            NetworkMessage::RpcRequest(_) => self.rpc_request <= v,
            NetworkMessage::RpcResponse(_) => self.rpc_response <= v,
            NetworkMessage::DirectSendMsg(_) => self.direct_send <= v,
        }
    }
}

/// Appends the little-endian bytes of `x`.
fn put_u32(out: &mut Vec<u8>, x: u32)
    ensures
        final(out)@ == old(out)@ + le32(x),
{
    out.push((x % 256) as u8);
    out.push(((x / 256) % 256) as u8);
    out.push(((x / 65536) % 256) as u8);
    out.push((x / 16777216) as u8);
    assert(final(out)@ =~= old(out)@ + le32(x));
}

/// Appends a payload behind its length.
fn put_framed(out: &mut Vec<u8>, p: &Vec<u8>)
    requires
        p@.len() <= u32::MAX,
    ensures
        final(out)@ == old(out)@ + framed(p@),
{
    put_u32(out, p.len() as u32);
    let ghost start = out@;
    let mut i: usize = 0;
    while i < p.len()
        invariant
            i <= p@.len(),
            out@ == start + p@.subrange(0, i as int),
        decreases p@.len() - i,
    {
        out.push(p[i]);
        i += 1;
        assert(out@ =~= start + p@.subrange(0, i as int));
    }
    assert(p@.subrange(0, p@.len() as int) =~= p@);
    assert(final(out)@ =~= old(out)@ + framed(p@));
}

/// Appends the encoding of `m`.
pub fn encode_into(m: &NetworkMessage, out: &mut Vec<u8>)
    requires
        encodable(m@),
    ensures
        final(out)@ == old(out)@ + encoding(m@),
    decreases m,
{
    match m {
        NetworkMessage::Error(ErrorCode::ParsingError(v, inner)) => {
            out.push(0);
            out.push(0);
            out.push(v.0);
            encode_into(&**inner, out);
            assert(final(out)@ =~= old(out)@ + encoding(m@));
        },
        NetworkMessage::Error(ErrorCode::TimedOut) => {
            out.push(0);
            out.push(1);
            assert(final(out)@ =~= old(out)@ + encoding(m@));
        },
        NetworkMessage::Ping(n) => {
            out.push(1);
            put_u32(out, n.0);
            assert(final(out)@ =~= old(out)@ + encoding(m@));
        },
        NetworkMessage::Pong(n) => {
            out.push(2);
            put_u32(out, n.0);
            assert(final(out)@ =~= old(out)@ + encoding(m@));
        },
        NetworkMessage::RpcRequest(r) => {
            out.push(3);
            put_u32(out, r.request_id);
            out.push(r.protocol_id.as_u8());
            out.push(r.priority);
            put_framed(out, &r.raw_request);
            assert(final(out)@ =~= old(out)@ + encoding(m@));
        },
        NetworkMessage::RpcResponse(r) => {
            out.push(4);
            put_u32(out, r.request_id);
            out.push(r.priority);
            put_framed(out, &r.raw_response);
            assert(final(out)@ =~= old(out)@ + encoding(m@));
        },
        NetworkMessage::DirectSendMsg(d) => {
            out.push(5);
            out.push(d.protocol_id.as_u8());
            out.push(d.priority);
            put_framed(out, &d.raw_msg);
            assert(final(out)@ =~= old(out)@ + encoding(m@));
        },
    }
}

/// The encoding of `m`, as one wire unit.
pub fn encode(m: &NetworkMessage) -> (r: Vec<u8>)
    requires
        encodable(m@),
    ensures
        r@ == encoding(m@),
{
    let mut out: Vec<u8> = Vec::new();
    encode_into(m, &mut out);
    assert(out@ =~= encoding(m@));
    out
}

/// The integer that four little-endian bytes stand for.
pub open spec fn le32_value(b: Seq<u8>) -> int {
    b[0] + 256 * b[1] + 65536 * b[2] + 16777216 * b[3]
}

proof fn lemma_le32_value(x: u32)
    ensures
        le32(x).len() == 4,
        le32_value(le32(x)) == x,
{
    let a = x as int;
    assert(a == a % 256 + 256 * ((a / 256) % 256) + 65536 * ((a / 65536) % 256) + 16777216 * (a
        / 16777216)) by (nonlinear_arith);
}

proof fn lemma_le32_injective(x: u32, y: u32)
    requires
        le32(x) == le32(y),
    ensures
        x == y,
{
    lemma_le32_value(x);
    lemma_le32_value(y);
}

/// A window inside a prefix is the same window of the whole.
proof fn lemma_window(s: Seq<u8>, p: Seq<u8>, i: int, j: int)
    requires
        starts_with(s, p),
        0 <= i <= j <= p.len(),
    ensures
        s.subrange(i, j) == p.subrange(i, j),
{
    assert forall|k: int| 0 <= k < j - i implies s.subrange(i, j)[k] == p.subrange(i, j)[k] by {
        assert(s.subrange(0, p.len() as int)[i + k] == s[i + k]);
    }
    assert(s.subrange(i, j) =~= p.subrange(i, j));
}

/// What the first bytes of an encoding say.
proof fn lemma_shape(m: Envelope)
    ensures
        encoding(m).len() >= 2,
        encoding(m)[0] == tag_of(m),
        m matches Envelope::Error(e) ==> encoding(m)[1] == error_tag_of(e),
    decreases m,
{
    match m {
        Envelope::Error(ErrorModel::ParsingError(v, inner)) => {
            lemma_shape(*inner);
        },
        _ => {},
    }
}

/// The encoding is prefix-free: two messages whose encodings both start the
/// same bytes are the same message.
#[verifier::rlimit(60)]
pub proof fn lemma_prefix_unique(s: Seq<u8>, a: Envelope, b: Envelope)
    requires
        encodable(a),
        encodable(b),
        starts_with(s, encoding(a)),
        starts_with(s, encoding(b)),
    ensures
        a == b,
    decreases a,
{
    let ea = encoding(a);
    let eb = encoding(b);
    lemma_shape(a);
    lemma_shape(b);
    lemma_window(s, ea, 0, 2);
    lemma_window(s, eb, 0, 2);
    assert(ea[0] == ea.subrange(0, 2)[0] && eb[0] == eb.subrange(0, 2)[0]);
    assert(ea[1] == ea.subrange(0, 2)[1] && eb[1] == eb.subrange(0, 2)[1]);
    match (a, b) {
        (
            Envelope::Error(ErrorModel::ParsingError(va, ia)),
            Envelope::Error(ErrorModel::ParsingError(vb, ib)),
        ) => {
            lemma_window(s, ea, 0, 3);
            lemma_window(s, eb, 0, 3);
            assert(ea.subrange(0, 3)[2] == va && eb.subrange(0, 3)[2] == vb);
            let rest = s.subrange(3, s.len() as int);
            lemma_window(s, ea, 3, ea.len() as int);
            lemma_window(s, eb, 3, eb.len() as int);
            assert(ea.subrange(3, ea.len() as int) =~= encoding(*ia));
            assert(eb.subrange(3, eb.len() as int) =~= encoding(*ib));
            assert(rest.subrange(0, encoding(*ia).len() as int) =~= encoding(*ia));
            assert(rest.subrange(0, encoding(*ib).len() as int) =~= encoding(*ib));
            lemma_prefix_unique(rest, *ia, *ib);
        },
        (Envelope::Ping(x), Envelope::Ping(y)) | (Envelope::Pong(x), Envelope::Pong(y)) => {
            lemma_window(s, ea, 1, 5);
            lemma_window(s, eb, 1, 5);
            assert(ea.subrange(1, 5) =~= le32(x));
            assert(eb.subrange(1, 5) =~= le32(y));
            lemma_le32_injective(x, y);
        },
        (
            Envelope::RpcRequest { request_id: ia, protocol: pa, priority: qa, payload: da },
            Envelope::RpcRequest { request_id: ib, protocol: pb, priority: qb, payload: db },
        ) => {
            lemma_window(s, ea, 1, 11);
            lemma_window(s, eb, 1, 11);
            assert(ea.subrange(1, 11) =~= le32(ia) + seq![pa, qa] + le32(da.len() as u32));
            assert(eb.subrange(1, 11) =~= le32(ib) + seq![pb, qb] + le32(db.len() as u32));
            assert(le32(ia) =~= s.subrange(1, 11).subrange(0, 4));
            assert(le32(ib) =~= s.subrange(1, 11).subrange(0, 4));
            assert(le32(da.len() as u32) =~= s.subrange(1, 11).subrange(6, 10));
            assert(le32(db.len() as u32) =~= s.subrange(1, 11).subrange(6, 10));
            assert(pa == s.subrange(1, 11)[4] && pb == s.subrange(1, 11)[4]);
            assert(qa == s.subrange(1, 11)[5] && qb == s.subrange(1, 11)[5]);
            lemma_le32_injective(ia, ib);
            lemma_le32_injective(da.len() as u32, db.len() as u32);
            lemma_window(s, ea, 11, ea.len() as int);
            lemma_window(s, eb, 11, eb.len() as int);
            assert(ea.subrange(11, ea.len() as int) =~= da);
            assert(eb.subrange(11, eb.len() as int) =~= db);
            assert(da =~= db);
        },
        (
            Envelope::RpcResponse { request_id: ia, priority: qa, payload: da },
            Envelope::RpcResponse { request_id: ib, priority: qb, payload: db },
        ) => {
            lemma_window(s, ea, 1, 10);
            lemma_window(s, eb, 1, 10);
            assert(ea.subrange(1, 10) =~= le32(ia) + seq![qa] + le32(da.len() as u32));
            assert(eb.subrange(1, 10) =~= le32(ib) + seq![qb] + le32(db.len() as u32));
            assert(le32(ia) =~= s.subrange(1, 10).subrange(0, 4));
            assert(le32(ib) =~= s.subrange(1, 10).subrange(0, 4));
            assert(le32(da.len() as u32) =~= s.subrange(1, 10).subrange(5, 9));
            assert(le32(db.len() as u32) =~= s.subrange(1, 10).subrange(5, 9));
            assert(qa == s.subrange(1, 10)[4] && qb == s.subrange(1, 10)[4]);
            lemma_le32_injective(ia, ib);
            lemma_le32_injective(da.len() as u32, db.len() as u32);
            lemma_window(s, ea, 10, ea.len() as int);
            lemma_window(s, eb, 10, eb.len() as int);
            assert(ea.subrange(10, ea.len() as int) =~= da);
            assert(eb.subrange(10, eb.len() as int) =~= db);
            assert(da =~= db);
        },
        (
            Envelope::DirectSend { protocol: pa, priority: qa, payload: da },
            Envelope::DirectSend { protocol: pb, priority: qb, payload: db },
        ) => {
            lemma_window(s, ea, 1, 7);
            lemma_window(s, eb, 1, 7);
            assert(ea.subrange(1, 7) =~= seq![pa, qa] + le32(da.len() as u32));
            assert(eb.subrange(1, 7) =~= seq![pb, qb] + le32(db.len() as u32));
            assert(le32(da.len() as u32) =~= s.subrange(1, 7).subrange(2, 6));
            assert(le32(db.len() as u32) =~= s.subrange(1, 7).subrange(2, 6));
            assert(pa == s.subrange(1, 7)[0] && pb == s.subrange(1, 7)[0]);
            assert(qa == s.subrange(1, 7)[1] && qb == s.subrange(1, 7)[1]);
            lemma_le32_injective(da.len() as u32, db.len() as u32);
            lemma_window(s, ea, 7, ea.len() as int);
            lemma_window(s, eb, 7, eb.len() as int);
            assert(ea.subrange(7, ea.len() as int) =~= da);
            assert(eb.subrange(7, eb.len() as int) =~= db);
            assert(da =~= db);
        },
        _ => {},
    }
}

/// What any bytes that start with an encoding must look like.
proof fn lemma_necessary(rest: Seq<u8>, v: Envelope)
    requires
        encodable(v),
        starts_with(rest, encoding(v)),
    ensures
        rest.len() >= 2,
        rest[0] == tag_of(v),
        rest[0] <= 5,
        rest[0] == 0 ==> rest[1] <= 1,
        rest[0] == 0 && rest[1] == 0 ==> {
            &&& rest.len() >= 3
            &&& v matches Envelope::Error(ErrorModel::ParsingError(_, inner))
            &&& encodable(*inner)
            &&& starts_with(rest.subrange(3, rest.len() as int), encoding(*inner))
        },
        rest[0] == 1 || rest[0] == 2 ==> rest.len() >= 5,
        rest[0] == 3 ==> rest.len() >= 11 && rest.len() >= 11 + le32_value(rest.subrange(7, 11)),
        rest[0] == 4 ==> rest.len() >= 10 && rest.len() >= 10 + le32_value(rest.subrange(6, 10)),
        rest[0] == 5 ==> rest.len() >= 7 && rest.len() >= 7 + le32_value(rest.subrange(3, 7)),
{
    let e = encoding(v);
    lemma_shape(v);
    lemma_window(rest, e, 0, 2);
    assert(e[0] == e.subrange(0, 2)[0] && e[1] == e.subrange(0, 2)[1]);
    assert(rest[0] == rest.subrange(0, 2)[0] && rest[1] == rest.subrange(0, 2)[1]);
    match v {
        Envelope::Error(ErrorModel::ParsingError(_, inner)) => {
            let tail = rest.subrange(3, rest.len() as int);
            lemma_window(rest, e, 3, e.len() as int);
            assert(e.subrange(3, e.len() as int) =~= encoding(*inner));
            assert(tail.subrange(0, encoding(*inner).len() as int) =~= encoding(*inner));
        },
        Envelope::RpcRequest { payload, .. } => {
            lemma_window(rest, e, 7, 11);
            assert(e.subrange(7, 11) =~= le32(payload.len() as u32));
            lemma_le32_value(payload.len() as u32);
        },
        Envelope::RpcResponse { payload, .. } => {
            lemma_window(rest, e, 6, 10);
            assert(e.subrange(6, 10) =~= le32(payload.len() as u32));
            lemma_le32_value(payload.len() as u32);
        },
        Envelope::DirectSend { payload, .. } => {
            lemma_window(rest, e, 3, 7);
            assert(e.subrange(3, 7) =~= le32(payload.len() as u32));
            lemma_le32_value(payload.len() as u32);
        },
        _ => {},
    }
}

/// Reads four little-endian bytes.
fn get_u32(b: &[u8], at: usize) -> (r: u32)
    requires
        at + 4 <= b@.len(),
    ensures
        le32(r) == b@.subrange(at as int, at + 4),
        r == le32_value(b@.subrange(at as int, at + 4)),
{
    let r = b[at] as u32 + 256 * (b[at + 1] as u32) + 65536 * (b[at + 2] as u32) + 16777216 * (
    b[at + 3] as u32);
    let ghost w = b@.subrange(at as int, at + 4);
    let ghost l = le32(r);
    proof {
    assert(w[0] == b[at as int] && w[1] == b[at + 1] && w[2] == b[at + 2] && w[3] == b[at + 3]);
    lemma_le32_value(r);
    assert(l[0] + 256 * l[1] + 65536 * l[2] + 16777216 * l[3] == w[0] + 256 * w[1] + 65536 * w[2]
        + 16777216 * w[3]);
    assert(l[0] == w[0] && l[1] == w[1] && l[2] == w[2] && l[3] == w[3]) by (nonlinear_arith)
        requires
            l[0] + 256 * l[1] + 65536 * l[2] + 16777216 * l[3] == w[0] + 256 * w[1] + 65536 * w[2]
                + 16777216 * w[3],
            0 <= l[0] < 256,
            0 <= l[1] < 256,
            0 <= l[2] < 256,
            0 <= l[3] < 256,
            0 <= w[0] < 256,
            0 <= w[1] < 256,
            0 <= w[2] < 256,
            0 <= w[3] < 256,
    ;
    assert(l =~= w);
    }
    r
}

/// Copies `b[start..end]`.
fn get_payload(b: &[u8], start: usize, end: usize) -> (r: Vec<u8>)
    requires
        start <= end <= b@.len(),
    ensures
        r@ == b@.subrange(start as int, end as int),
{
    vstd::slice::slice_to_vec(vstd::slice::slice_subrange(b, start, end))
}

/// No message's encoding starts `rest`.
pub open spec fn no_message_at(rest: Seq<u8>) -> bool {
    forall|v: Envelope| encodable(v) ==> !starts_with(rest, #[trigger] encoding(v))
}

/// Parses one message at `pos`: the message and the position after it, or
/// `None` where no message's encoding starts there.
#[verifier::rlimit(60)]
fn parse_at(b: &[u8], pos: usize) -> (r: Option<(NetworkMessage, usize)>)
    requires
        pos <= b@.len(),
    ensures
        match r {
            Some((m, end)) => {
                &&& pos <= end <= b@.len()
                &&& encodable(m@)
                &&& b@.subrange(pos as int, end as int) == encoding(m@)
            },
            None => no_message_at(b@.subrange(pos as int, b@.len() as int)),
        },
    decreases b@.len() - pos,
{
    let ghost rest = b@.subrange(pos as int, b@.len() as int);
    let len = b.len();
    if len - pos < 2 {
        proof {
            assert forall|v: Envelope| encodable(v) implies !starts_with(rest, #[trigger] encoding(v)) by {
                if starts_with(rest, encoding(v)) {
                    lemma_necessary(rest, v);
                }
            }
        }
        return None;
    }
    let tag = b[pos];
    proof {
        assert(rest[0] == tag);
        assert(rest[1] == b@[pos + 1]);
    }
    if tag == 0 {
        if b[pos + 1] == 1 {
            let m = NetworkMessage::Error(ErrorCode::TimedOut);
            assert(b@.subrange(pos as int, pos + 2) =~= encoding(m@));
            return Some((m, pos + 2));
        }
        if b[pos + 1] == 0 && len - pos >= 3 {
            let v = b[pos + 2];
            match parse_at(b, pos + 3) {
                Some((inner, end)) => {
                    let m = NetworkMessage::Error(
                        ErrorCode::ParsingError(MessagingProtocolVersion(v), Box::new(inner)),
                    );
                    assert(b@.subrange(pos as int, end as int) =~= seq![0u8, 0u8, v]
                        + b@.subrange(pos + 3, end as int));
                    return Some((m, end));
                },
                None => {
                    proof {
                        assert(rest.subrange(3, rest.len() as int) =~= b@.subrange(
                            pos + 3,
                            b@.len() as int,
                        ));
                        assert forall|v: Envelope| encodable(v) implies !starts_with(
                            rest,
                            #[trigger] encoding(v),
                        ) by {
                            if starts_with(rest, encoding(v)) {
                                lemma_necessary(rest, v);
                                if let Envelope::Error(ErrorModel::ParsingError(_, inner)) = v {
                                    assert(encodable(*inner));
                                    assert(!starts_with(
                                        b@.subrange(pos + 3, b@.len() as int),
                                        encoding(*inner),
                                    ));
                                }
                            }
                        }
                    }
                    return None;
                },
            }
        }
        proof {
            assert forall|v: Envelope| encodable(v) implies !starts_with(rest, #[trigger] encoding(v)) by {
                if starts_with(rest, encoding(v)) {
                    lemma_necessary(rest, v);
                }
            }
        }
        return None;
    }
    if tag == 1 || tag == 2 {
        if len - pos < 5 {
            proof {
                assert forall|v: Envelope| encodable(v) implies !starts_with(rest, #[trigger] encoding(v)) by {
                    if starts_with(rest, encoding(v)) {
                        lemma_necessary(rest, v);
                    }
                }
            }
            return None;
        }
        let n = get_u32(b, pos + 1);
        let m = if tag == 1 {
            NetworkMessage::Ping(Nonce(n))
        } else {
            NetworkMessage::Pong(Nonce(n))
        };
        assert(b@.subrange(pos as int, pos + 5) =~= seq![tag] + b@.subrange(pos + 1, pos + 5));
        return Some((m, pos + 5));
    }
    if tag == 3 {
        if len - pos < 11 {
            proof {
                assert forall|v: Envelope| encodable(v) implies !starts_with(rest, #[trigger] encoding(v)) by {
                    if starts_with(rest, encoding(v)) {
                        lemma_necessary(rest, v);
                    }
                }
            }
            return None;
        }
        let request_id = get_u32(b, pos + 1);
        let protocol = b[pos + 5];
        let priority = b[pos + 6];
        let size = get_u32(b, pos + 7);
        if ((len - pos - 11) as u64) < size as u64 {
            proof {
                assert(rest.subrange(7, 11) =~= b@.subrange(pos + 7, pos + 11));
                assert forall|v: Envelope| encodable(v) implies !starts_with(rest, #[trigger] encoding(v)) by {
                    if starts_with(rest, encoding(v)) {
                        lemma_necessary(rest, v);
                    }
                }
            }
            return None;
        }
        let end = pos + 11 + size as usize;
        let raw_request = get_payload(b, pos + 11, end);
        let m = NetworkMessage::RpcRequest(
            RpcRequest { request_id, protocol_id: ProtocolId::from_u8(protocol), priority, raw_request },
        );
        assert(b@.subrange(pos as int, end as int) =~= seq![3u8] + b@.subrange(pos + 1, pos + 5)
            + seq![protocol, priority] + b@.subrange(pos + 7, pos + 11) + b@.subrange(
            pos + 11,
            end as int,
        ));
        return Some((m, end));
    }
    if tag == 4 {
        if len - pos < 10 {
            proof {
                assert forall|v: Envelope| encodable(v) implies !starts_with(rest, #[trigger] encoding(v)) by {
                    if starts_with(rest, encoding(v)) {
                        lemma_necessary(rest, v);
                    }
                }
            }
            return None;
        }
        let request_id = get_u32(b, pos + 1);
        let priority = b[pos + 5];
        let size = get_u32(b, pos + 6);
        if ((len - pos - 10) as u64) < size as u64 {
            proof {
                assert(rest.subrange(6, 10) =~= b@.subrange(pos + 6, pos + 10));
                assert forall|v: Envelope| encodable(v) implies !starts_with(rest, #[trigger] encoding(v)) by {
                    if starts_with(rest, encoding(v)) {
                        lemma_necessary(rest, v);
                    }
                }
            }
            return None;
        }
        let end = pos + 10 + size as usize;
        let raw_response = get_payload(b, pos + 10, end);
        let m = NetworkMessage::RpcResponse(RpcResponse { request_id, priority, raw_response });
        assert(b@.subrange(pos as int, end as int) =~= seq![4u8] + b@.subrange(pos + 1, pos + 5)
            + seq![priority] + b@.subrange(pos + 6, pos + 10) + b@.subrange(pos + 10, end as int));
        return Some((m, end));
    }
    if tag == 5 {
        if len - pos < 7 {
            proof {
                assert forall|v: Envelope| encodable(v) implies !starts_with(rest, #[trigger] encoding(v)) by {
                    if starts_with(rest, encoding(v)) {
                        lemma_necessary(rest, v);
                    }
                }
            }
            return None;
        }
        let protocol = b[pos + 1];
        let priority = b[pos + 2];
        let size = get_u32(b, pos + 3);
        if ((len - pos - 7) as u64) < size as u64 {
            proof {
                assert(rest.subrange(3, 7) =~= b@.subrange(pos + 3, pos + 7));
                assert forall|v: Envelope| encodable(v) implies !starts_with(rest, #[trigger] encoding(v)) by {
                    if starts_with(rest, encoding(v)) {
                        lemma_necessary(rest, v);
                    }
                }
            }
            return None;
        }
        let end = pos + 7 + size as usize;
        let raw_msg = get_payload(b, pos + 7, end);
        let m = NetworkMessage::DirectSendMsg(
            DirectSendMsg { protocol_id: ProtocolId::from_u8(protocol), priority, raw_msg },
        );
        assert(b@.subrange(pos as int, end as int) =~= seq![5u8, protocol, priority] + b@.subrange(
            pos + 3,
            pos + 7,
        ) + b@.subrange(pos + 7, end as int));
        return Some((m, end));
    }
    proof {
        assert forall|v: Envelope| encodable(v) implies !starts_with(rest, #[trigger] encoding(v)) by {
            if starts_with(rest, encoding(v)) {
                lemma_necessary(rest, v);
            }
        }
    }
    None
}

/// Why bytes were not accepted as a message.
#[derive(Debug)]
pub enum DecodeError {
    /// The bytes are no message's encoding.
    Malformed,
    /// The bytes encode a message that the negotiated version does not
    /// allow; holds `ErrorCode::ParsingError` with that version and the
    /// decoded message.
    Rejected(ErrorCode),
}

/// Decoding in the model.
pub enum Decoded {
    Accepted(Envelope),
    Rejected(u8, Envelope),
    Malformed,
}

/// `bytes` are exactly the encoding of `m`.
pub open spec fn decodes_to(bytes: Seq<u8>, m: Envelope) -> bool {
    encodable(m) && encoding(m) == bytes
}

/// The message that `bytes` encode, judged under `version`.
pub open spec fn decoded(bytes: Seq<u8>, version: u8, g: VersionGate) -> Decoded {
    if exists|m: Envelope| decodes_to(bytes, m) {
        let m = choose|m: Envelope| decodes_to(bytes, m);
        if permits(g, version, m) {
            Decoded::Accepted(m)
        } else {
            Decoded::Rejected(version, m)
        }
    } else {
        Decoded::Malformed
    }
}

/// A decoder's result in the model.
pub open spec fn outcome(r: Result<NetworkMessage, DecodeError>) -> Decoded {
    match r {
        Ok(m) => Decoded::Accepted(m@),
        Err(DecodeError::Rejected(ErrorCode::ParsingError(v, m))) => Decoded::Rejected(v.0, (*m)@),
        Err(_) => Decoded::Malformed,
    }
}

/// Two messages with the same encoding are the same message.
pub proof fn lemma_encoding_injective(a: Envelope, b: Envelope)
    requires
        encodable(a),
        encodable(b),
        encoding(a) == encoding(b),
    ensures
        a == b,
{
    assert(encoding(a).subrange(0, encoding(a).len() as int) =~= encoding(a));
    lemma_prefix_unique(encoding(a), a, b);
}

/// Decodes one wire unit under the negotiated `version`. Bytes that are no
/// message's encoding, trailing bytes included, are `Malformed`; a message
/// whose discriminant `gate` does not allow at `version` is rejected with a
/// parsing error that carries `version` and the message.
pub fn decode(bytes: &[u8], version: MessagingProtocolVersion, gate: &VersionGate) -> (r: Result<
    NetworkMessage,
    DecodeError,
>)
    ensures
        outcome(r) == decoded(bytes@, version.0, *gate),
        !(r matches Err(DecodeError::Rejected(ErrorCode::TimedOut))),
{
    let ghost b = bytes@;
    proof {
        assert(b.subrange(0, b.len() as int) =~= b);
    }
    match parse_at(bytes, 0) {
        Some((m, end)) => {
            if end == bytes.len() {
                proof {
                    assert(decodes_to(b, m@));
                    let c = choose|c: Envelope| decodes_to(b, c);
                    lemma_encoding_injective(m@, c);
                }
                if gate.permits(version, &m) {
                    Ok(m)
                } else {
                    Err(DecodeError::Rejected(ErrorCode::ParsingError(version, Box::new(m))))
                }
            } else {
                proof {
                    assert forall|c: Envelope| !decodes_to(b, c) by {
                        if decodes_to(b, c) {
                            assert(b.subrange(0, encoding(c).len() as int) =~= encoding(c));
                            assert(b.subrange(0, encoding(m@).len() as int) =~= encoding(m@));
                            lemma_prefix_unique(b, m@, c);
                        }
                    }
                }
                Err(DecodeError::Malformed)
            }
        },
        None => {
            proof {
                assert forall|c: Envelope| !decodes_to(b, c) by {
                    if decodes_to(b, c) {
                        assert(b.subrange(0, encoding(c).len() as int) =~= encoding(c));
                    }
                }
            }
            Err(DecodeError::Malformed)
        },
    }
}

/// Round trip: the encoding of any encodable message that the version
/// allows decodes to that same message.
pub proof fn lemma_round_trip(m: Envelope, version: u8, g: VersionGate)
    requires
        encodable(m),
        permits(g, version, m),
    ensures
        decoded(encoding(m), version, g) == Decoded::Accepted(m),
{
    let c = choose|c: Envelope| decodes_to(encoding(m), c);
    assert(decodes_to(encoding(m), m));
    lemma_encoding_injective(m, c);
}

/// Version gate: the encoding of a message that the version does not allow
/// (a discriminant introduced after it) is rejected as a parsing error that
/// carries that version and the message itself, never read as another one.
pub proof fn lemma_version_gate(m: Envelope, version: u8, g: VersionGate)
    requires
        encodable(m),
        !permits(g, version, m),
    ensures
        decoded(encoding(m), version, g) == Decoded::Rejected(version, m),
{
    let c = choose|c: Envelope| decodes_to(encoding(m), c);
    assert(decodes_to(encoding(m), m));
    lemma_encoding_injective(m, c);
}

} // verus!
