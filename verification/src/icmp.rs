//! ICMP and ICMPv6 echo messages used as link health probes: building the request and
//! recognising the matching reply.
use vstd::prelude::*;
use crate::checksum::{
    internet_checksum,
    internet_checksum_spec,
    with_word_at,
    lemma_checksum_verifies,
};
use crate::router::IpFamily;

verus! {

/// ICMP echo request type.
pub const ICMP_ECHO_REQUEST: u8 = 8;

/// ICMP echo reply type.
pub const ICMP_ECHO_REPLY: u8 = 0;

/// ICMPv6 echo request type.
pub const ICMP6_ECHO_REQUEST: u8 = 128;

/// ICMPv6 echo reply type.
pub const ICMP6_ECHO_REPLY: u8 = 129;

/// Length of an IPv4 header without options.
pub const IPV4_MIN_HEADER_LEN: usize = 20;

/// Length of the ICMP echo header (type, code, checksum, identifier, sequence number).
pub const ECHO_HEADER_LEN: usize = 8;

/// The request type for a family.
pub open spec fn request_type(family: IpFamily) -> u8 {
    match family {
        IpFamily::V4 => ICMP_ECHO_REQUEST,
        IpFamily::V6 => ICMP6_ECHO_REQUEST,
    }
}

/// The probe payload: the ASCII text `mwand-probe-health-check-v4` (or `-v6`).
pub open spec fn probe_payload(family: IpFamily) -> Seq<u8> {
    let last: u8 = match family {
        IpFamily::V4 => 0x34,
        IpFamily::V6 => 0x36,
    };
    seq![
        0x6d, 0x77, 0x61, 0x6e, 0x64, 0x2d,
        0x70, 0x72, 0x6f, 0x62, 0x65, 0x2d,
        0x68, 0x65, 0x61, 0x6c, 0x74, 0x68, 0x2d,
        0x63, 0x68, 0x65, 0x63, 0x6b, 0x2d,
        0x76, last,
    ]
}

/// The big-endian bytes of a 16-bit value.
pub open spec fn be_bytes(v: u16) -> Seq<u8> {
    seq![(v / 256) as u8, (v % 256) as u8]
}

/// The 16-bit big-endian value stored at `i` and `i + 1`.
pub open spec fn be16_at(s: Seq<u8>, i: int) -> int {
    s[i] as int * 256 + s[i + 1] as int
}

/// An echo request with a zero checksum field.
pub open spec fn unsummed_request(family: IpFamily, id: u16, seq_no: u16) -> Seq<u8> {
    seq![request_type(family), 0u8, 0u8, 0u8] + be_bytes(id) + be_bytes(seq_no) + probe_payload(
        family,
    )
}

/// The echo request sent as a probe. For ICMP the checksum is filled in; for ICMPv6 the
/// kernel computes it, so the field stays zero.
pub open spec fn echo_request_spec(family: IpFamily, id: u16, seq_no: u16) -> Seq<u8> {
    let bare = unsummed_request(family, id, seq_no);
    match family {
        IpFamily::V4 => with_word_at(bare, 2, internet_checksum_spec(bare)),
        IpFamily::V6 => bare,
    }
}

/// The probe request: the family's request type, code 0, the checksum field (zero for
/// ICMPv6), the identifier and the sequence number big-endian, then the probe payload.
pub proof fn lemma_echo_request_layout(family: IpFamily, id: u16, seq_no: u16)
    ensures
        ({
            let m = echo_request_spec(family, id, seq_no);
            &&& m.len() == 35
            &&& m[0] == request_type(family)
            &&& m[1] == 0
            &&& family == IpFamily::V6 ==> (m[2] == 0 && m[3] == 0)
            &&& be16_at(m, 4) == id
            &&& be16_at(m, 6) == seq_no
            &&& m.subrange(8, 35) == probe_payload(family)
        }),
{
    let m = echo_request_spec(family, id, seq_no);
    vstd::arithmetic::div_mod::lemma_fundamental_div_mod(id as int, 256);
    vstd::arithmetic::div_mod::lemma_fundamental_div_mod(seq_no as int, 256);
    assert(m.subrange(8, 35) =~= probe_payload(family));
}

fn probe_payload_bytes(family: IpFamily) -> (p: Vec<u8>)
    ensures
        p@ == probe_payload(family),
{
    let last: u8 = match family {
        IpFamily::V4 => 0x34,
        IpFamily::V6 => 0x36,
    };
    let p: Vec<u8> = vec![
        0x6d, 0x77, 0x61, 0x6e, 0x64, 0x2d,
        0x70, 0x72, 0x6f, 0x62, 0x65, 0x2d,
        0x68, 0x65, 0x61, 0x6c, 0x74, 0x68, 0x2d,
        0x63, 0x68, 0x65, 0x63, 0x6b, 0x2d,
        0x76, last,
    ];
    assert(p@ =~= probe_payload(family));
    p
}

/// Builds the echo request with identifier `id` and sequence number `seq_no`.
/// An ICMP (IPv4) request carries a checksum under which the whole message checks to zero.
pub fn echo_request(family: IpFamily, id: u16, seq_no: u16) -> (packet: Vec<u8>)
    ensures
        packet@ == echo_request_spec(family, id, seq_no),
        packet@.len() == ECHO_HEADER_LEN + 27,
        family == IpFamily::V4 ==> internet_checksum_spec(packet@) == 0,
{
    let mut packet: Vec<u8> = Vec::new();
    let ty: u8 = match family {
        IpFamily::V4 => ICMP_ECHO_REQUEST,
        IpFamily::V6 => ICMP6_ECHO_REQUEST,
    };
    packet.push(ty);
    packet.push(0);
    packet.push(0);
    packet.push(0);
    packet.push((id / 256) as u8);
    packet.push((id % 256) as u8);
    packet.push((seq_no / 256) as u8);
    packet.push((seq_no % 256) as u8);
    let payload = probe_payload_bytes(family);
    let mut i: usize = 0;
    while i < payload.len()
        invariant
            payload@ == probe_payload(family),
            i <= payload@.len(),
            packet@ =~= (seq![ty, 0u8, 0u8, 0u8] + be_bytes(id) + be_bytes(seq_no)) + payload@.take(
                i as int,
            ),
        decreases payload@.len() - i,
    {
        packet.push(payload[i]);
        i = i + 1;
        assert(payload@.take(i as int) =~= payload@.take((i - 1) as int).push(payload@[i - 1]));
    }
    assert(payload@.take(i as int) =~= payload@);
    assert(packet@ =~= unsummed_request(family, id, seq_no));
    match family {
        IpFamily::V4 => {
            let ghost bare = packet@;
            let csum = internet_checksum(packet.as_slice());
            packet.set(2, (csum / 256) as u8);
            packet.set(3, (csum % 256) as u8);
            assert(packet@ =~= with_word_at(bare, 2, csum));
            proof {
                lemma_checksum_verifies(bare, 2);
            }
        },
        IpFamily::V6 => {},
    }
    packet
}

/// Whether `reply` is the echo reply to the probe with `id` and `seq_no`.
/// - ICMP on a raw socket: the reply comes with its IPv4 header, whose length is read from
///   the header itself; type 0, code 0, and both identifier and sequence number must match.
/// - ICMP on a datagram socket: the kernel rewrites the identifier, so only type 0, code 0
///   and the sequence number are compared.
/// - ICMPv6: the message comes without IP header; type 129, code 0, identifier and sequence
///   number must match.
pub open spec fn is_echo_reply_spec(
    family: IpFamily,
    raw_socket: bool,
    reply: Seq<u8>,
    id: u16,
    seq_no: u16,
) -> bool {
    match family {
        IpFamily::V4 => if raw_socket {
            let ihl = (reply[0] % 16) as int * 4;
            &&& reply.len() >= 28
            &&& reply.len() >= ihl + 8
            &&& reply[ihl] == ICMP_ECHO_REPLY
            &&& reply[ihl + 1] == 0
            &&& be16_at(reply, ihl + 4) == id
            &&& be16_at(reply, ihl + 6) == seq_no
        } else {
            &&& reply.len() >= 8
            &&& reply[0] == ICMP_ECHO_REPLY
            &&& reply[1] == 0
            &&& be16_at(reply, 6) == seq_no
        },
        IpFamily::V6 => {
            &&& reply.len() >= 8
            &&& reply[0] == ICMP6_ECHO_REPLY
            &&& reply[1] == 0
            &&& be16_at(reply, 4) == id
            &&& be16_at(reply, 6) == seq_no
        },
    }
}

/// The reply type for a family.
pub open spec fn reply_type(family: IpFamily) -> u8 {
    match family {
        IpFamily::V4 => ICMP_ECHO_REPLY,
        IpFamily::V6 => ICMP6_ECHO_REPLY,
    }
}

/// The answer a peer gives to `request`: the same message with the reply type.
pub open spec fn reply_to(family: IpFamily, request: Seq<u8>) -> Seq<u8> {
    request.update(0, reply_type(family))
}

proof fn lemma_be_bytes_roundtrip(v: u16)
    ensures
        be16_at(be_bytes(v), 0) == v,
{
    vstd::arithmetic::div_mod::lemma_fundamental_div_mod(v as int, 256);
}

/// A reply to our own probe is recognised: for ICMPv6 on any socket and for ICMP on a
/// datagram socket, where the message arrives without IP header.
pub proof fn lemma_reply_to_probe_is_recognised(
    family: IpFamily,
    raw_socket: bool,
    id: u16,
    seq_no: u16,
)
    requires
        family == IpFamily::V6 || !raw_socket,
    ensures
        is_echo_reply_spec(
            family,
            raw_socket,
            reply_to(family, echo_request_spec(family, id, seq_no)),
            id,
            seq_no,
        ),
{
    let req = echo_request_spec(family, id, seq_no);
    let rep = reply_to(family, req);
    lemma_be_bytes_roundtrip(id);
    lemma_be_bytes_roundtrip(seq_no);
    assert(rep[4] == be_bytes(id)[0] && rep[5] == be_bytes(id)[1]);
    assert(rep[6] == be_bytes(seq_no)[0] && rep[7] == be_bytes(seq_no)[1]);
}

/// On a raw ICMP socket the reply arrives behind an IPv4 header, whose length the header
/// states; the reply to our own probe is then recognised.
pub proof fn lemma_reply_behind_ip_header_is_recognised(ip_header: Seq<u8>, id: u16, seq_no: u16)
    requires
        ip_header.len() >= 20,
        ip_header.len() == (ip_header[0] % 16) as int * 4,
    ensures
        is_echo_reply_spec(
            IpFamily::V4,
            true,
            ip_header + reply_to(IpFamily::V4, echo_request_spec(IpFamily::V4, id, seq_no)),
            id,
            seq_no,
        ),
{
    let req = echo_request_spec(IpFamily::V4, id, seq_no);
    let rep = reply_to(IpFamily::V4, req);
    let msg = ip_header + rep;
    let h = ip_header.len() as int;
    lemma_be_bytes_roundtrip(id);
    lemma_be_bytes_roundtrip(seq_no);
    assert(msg[0] == ip_header[0]);
    assert(msg[h] == rep[0] && msg[h + 1] == rep[1]);
    assert(msg[h + 4] == be_bytes(id)[0] && msg[h + 5] == be_bytes(id)[1]);
    assert(msg[h + 6] == be_bytes(seq_no)[0] && msg[h + 7] == be_bytes(seq_no)[1]);
}

/// Where the echo header starts in a received message: behind the IPv4 header (whose
/// length its first byte gives in 32-bit words) on a raw ICMP socket, at the start otherwise.
pub open spec fn echo_header_offset(family: IpFamily, raw_socket: bool, reply: Seq<u8>) -> int {
    if family == IpFamily::V4 && raw_socket {
        (reply[0] % 16) as int * 4
    } else {
        0
    }
}

proof fn lemma_be16_bytes(s: Seq<u8>, k: int, v: u16)
    requires
        0 <= k,
        k + 1 < s.len(),
        be16_at(s, k) == v,
    ensures
        s.subrange(k, k + 2) == be_bytes(v),
{
    vstd::arithmetic::div_mod::lemma_fundamental_div_mod_converse(
        v as int,
        256,
        s[k] as int,
        s[k + 1] as int,
    );
    assert(s.subrange(k, k + 2) =~= be_bytes(v));
}

/// A message is taken as the answer to a probe only if, at its echo header, it has the
/// reply type and code 0 and carries the very sequence-number bytes of that probe's
/// request, and also its identifier bytes except on an ICMP datagram socket (where the
/// kernel chooses the identifier).
pub proof fn lemma_recognised_reply_answers_probe(
    family: IpFamily,
    raw_socket: bool,
    reply: Seq<u8>,
    id: u16,
    seq_no: u16,
)
    requires
        is_echo_reply_spec(family, raw_socket, reply, id, seq_no),
    ensures
        ({
            let off = echo_header_offset(family, raw_socket, reply);
            let request = echo_request_spec(family, id, seq_no);
            &&& 0 <= off
            &&& off + 8 <= reply.len()
            &&& reply[off] == reply_type(family)
            &&& reply[off + 1] == 0
            &&& reply.subrange(off + 6, off + 8) == request.subrange(6, 8)
            &&& (family == IpFamily::V6 || raw_socket) ==> reply.subrange(off + 4, off + 6)
                == request.subrange(4, 6)
        }),
{
    let off = echo_header_offset(family, raw_socket, reply);
    let request = echo_request_spec(family, id, seq_no);
    lemma_be16_bytes(reply, off + 6, seq_no);
    assert(request.subrange(6, 8) =~= be_bytes(seq_no));
    if family == IpFamily::V6 || raw_socket {
        lemma_be16_bytes(reply, off + 4, id);
        assert(request.subrange(4, 6) =~= be_bytes(id));
    }
}

fn be16(s: &[u8], i: usize) -> (v: u16)
    requires
        i + 1 < s@.len(),
    ensures
        v == be16_at(s@, i as int),
{
    (s[i] as u16) * 256 + (s[i + 1] as u16)
}

/// Decides whether a received message answers the probe with `id` and `seq_no`.
pub fn is_echo_reply(
    family: IpFamily,
    raw_socket: bool,
    reply: &[u8],
    id: u16,
    seq_no: u16,
) -> (r: bool)
    ensures
        r == is_echo_reply_spec(family, raw_socket, reply@, id, seq_no),
        r ==> (reply@.len() >= echo_header_offset(family, raw_socket, reply@) + 8 && be16_at(
            reply@,
            echo_header_offset(family, raw_socket, reply@) + 6,
        ) == seq_no),
{
    match family {
        IpFamily::V4 => {
            if raw_socket {
                if reply.len() < IPV4_MIN_HEADER_LEN + ECHO_HEADER_LEN {
                    return false;
                }
                let b0: u8 = reply[0];
                let low: u8 = b0 & 0x0f;
                assert(low == b0 % 16) by (bit_vector)
                    requires
                        low == b0 & 0x0f,
                ;
                let ihl: usize = (low as usize) * 4;
                if reply.len() < ihl + ECHO_HEADER_LEN {
                    return false;
                }
                let reply_type = reply[ihl];
                let reply_code = reply[ihl + 1];
                let reply_id = be16(reply, ihl + 4);
                let reply_seq = be16(reply, ihl + 6);
                reply_type == ICMP_ECHO_REPLY && reply_code == 0 && reply_id == id && reply_seq
                    == seq_no
            } else {
                if reply.len() < ECHO_HEADER_LEN {
                    return false;
                }
                let reply_type = reply[0];
                let reply_code = reply[1];
                let reply_seq = be16(reply, 6);
                reply_type == ICMP_ECHO_REPLY && reply_code == 0 && reply_seq == seq_no
            }
        },
        IpFamily::V6 => {
            if reply.len() < ECHO_HEADER_LEN {
                return false;
            }
            let reply_type = reply[0];
            let reply_code = reply[1];
            let reply_id = be16(reply, 4);
            let reply_seq = be16(reply, 6);
            reply_type == ICMP6_ECHO_REPLY && reply_code == 0 && reply_id == id && reply_seq
                == seq_no
        },
    }
}

} // verus!
