//! The classifier pipeline: from one inbound frame and the backend table to
//! a verdict, rewriting the frame on a hit.
//!
//! A frame is classified once, in a fixed sequence of steps, each of which
//! may end the classification. Whatever goes wrong, the frame is passed on
//! untouched: the classifier fails open.

use vstd::prelude::*;
use crate::dnat::{
    in_rewritten_field, lemma_rewritten_fields, rewrite, rewritten, wire_port, FRAME_HDR_LEN,
    IP_OFFSET, UDP_OFFSET,
};
use crate::headers::{
    ethertype, ip_header_at, ip_protocol, parse_ethertype, parse_ip_protocol, udp_header_at,
    ParseError, ETH_HDR_LEN, ETH_P_IP, IPPROTO_UDP, IP_DADDR_OFFSET, IP_PROTOCOL_OFFSET,
    UDP_DEST_OFFSET,
};
use crate::packet::{field16, field32};
use crate::table::{get_backend, Backend, BackendKey, BackendTable};

verus! {

/// Action code: let the frame go on through the stack.
pub const TC_ACT_OK: i32 = 0;

/// Action code: discard the frame.
pub const TC_ACT_SHOT: i32 = 2;

/// What is to happen to a frame.
#[derive(Clone, Copy, Debug, PartialEq, Eq, Structural)]
pub enum Verdict {
    /// The frame goes on, unchanged, to the normal processing of the stack.
    Pass,
    /// The frame is discarded.
    Drop,
    /// The rewritten frame is sent out through the interface with this
    /// index, towards the neighbour that its new destination resolves to.
    Redirect(u32),
}

/// Whether the frame says of itself that it carries IPv4.
pub open spec fn is_ipv4(buf: Seq<u8>) -> bool {
    buf.len() >= ETH_HDR_LEN && ethertype(buf) == ETH_P_IP
}

/// Whether the IPv4 header of the frame says that it carries UDP.
pub open spec fn is_udp(buf: Seq<u8>) -> bool {
    buf.len() > ETH_HDR_LEN + IP_PROTOCOL_OFFSET && ip_protocol(buf) == IPPROTO_UDP
}

/// The service address that a UDP/IPv4 frame is sent to, in host order.
pub open spec fn key_of(buf: Seq<u8>) -> BackendKey
    recommends
        buf.len() >= FRAME_HDR_LEN,
{
    BackendKey {
        ip: field32(buf, IP_OFFSET + IP_DADDR_OFFSET),
        port: field16(buf, UDP_OFFSET + UDP_DEST_OFFSET) as u32,
    }
}

/// What parsing makes of a frame: the key to look up for a UDP/IPv4 frame
/// with all three headers, `None` for a frame that is not IPv4 or not UDP,
/// and an error for a frame that ends before a field that had to be read.
pub open spec fn parse_spec(buf: Seq<u8>) -> Result<Option<BackendKey>, ParseError> {
    if buf.len() < ETH_HDR_LEN {
        Err(ParseError::ShortEthernet)
    } else if ethertype(buf) != ETH_P_IP {
        Ok(None)
    } else if buf.len() <= ETH_HDR_LEN + IP_PROTOCOL_OFFSET {
        Err(ParseError::ShortIp)
    } else if ip_protocol(buf) != IPPROTO_UDP {
        Ok(None)
    } else if buf.len() < UDP_OFFSET {
        Err(ParseError::ShortIp)
    } else if buf.len() < FRAME_HDR_LEN {
        Err(ParseError::ShortUdp)
    } else {
        Ok(Some(key_of(buf)))
    }
}

/// The backend that a frame is to be rewritten for, if there is one: the
/// table's entry for the key of a UDP/IPv4 frame with all three headers.
pub open spec fn target(buf: Seq<u8>, table: Map<BackendKey, Backend>) -> Option<Backend> {
    match parse_spec(buf) {
        Ok(Some(key)) => if table.contains_key(key) {
            Some(table[key])
        } else {
            None
        },
        _ => None,
    }
}

/// The verdict on a frame.
pub open spec fn verdict_spec(buf: Seq<u8>, table: Map<BackendKey, Backend>) -> Verdict {
    match target(buf, table) {
        Some(backend) => Verdict::Redirect(backend.ifindex),
        None => Verdict::Pass,
    }
}

/// The bytes of a frame after its classification.
pub open spec fn frame_after(buf: Seq<u8>, table: Map<BackendKey, Backend>) -> Seq<u8> {
    match target(buf, table) {
        Some(backend) => rewritten(buf, backend),
        None => buf,
    }
}

/// Parses the headers of a frame and derives the key to look up.
///
/// The ethertype is read first, then the protocol number, and only for a
/// UDP/IPv4 frame the two headers are acquired in full.
pub fn derive_key(buf: &Vec<u8>) -> (r: Result<Option<BackendKey>, ParseError>)
    ensures
        r == parse_spec(buf@),
{
    let h_proto: u16 = parse_ethertype(buf)?;
    if h_proto != ETH_P_IP {
        return Ok(None);
    }
    let protocol: u8 = parse_ip_protocol(buf)?;
    if protocol != IPPROTO_UDP {
        return Ok(None);
    }
    let ip = ip_header_at(buf, ETH_HDR_LEN)?;
    let udp = udp_header_at(buf, UDP_OFFSET)?;
    let daddr: u32 = match ip.daddr(buf) {
        Ok(v) => v,
        Err(_) => {
            return Err(ParseError::ShortIp);
        },
    };
    let dest: u16 = match udp.dest(buf) {
        Ok(v) => v,
        Err(_) => {
            return Err(ParseError::ShortUdp);
        },
    };
    Ok(Some(BackendKey { ip: daddr, port: dest as u32 }))
}

/// Acts on the outcome of a lookup: on a hit the frame is rewritten for the
/// backend and is to be redirected to the backend's interface; on a miss it
/// passes.
///
/// A frame that turns out too short for the rewrite passes as well, with no
/// byte of it changed.
pub fn apply_lookup(buf: &mut Vec<u8>, found: Option<Backend>) -> (verdict: Verdict)
    ensures
        verdict == (match found {
            Some(backend) if old(buf)@.len() >= FRAME_HDR_LEN => Verdict::Redirect(
                backend.ifindex,
            ),
            _ => Verdict::Pass,
        }),
        final(buf)@ == (match found {
            Some(backend) if old(buf)@.len() >= FRAME_HDR_LEN => rewritten(old(buf)@, backend),
            _ => old(buf)@,
        }),
{
    match found {
        Some(backend) => match rewrite(buf, &backend) {
            Ok(()) => Verdict::Redirect(backend.ifindex),
            Err(_) => Verdict::Pass,
        },
        None => Verdict::Pass,
    }
}

/// Classifies one frame against `table`, and says what stopped the parse
/// where the frame was cut short.
///
/// The result is `Err` exactly for a frame that ends before a field that the
/// parse had to read; such a frame is not changed. A UDP/IPv4 frame whose
/// destination the table holds is rewritten for that backend and gets
/// `Redirect` with the backend's interface. Every other frame gets `Pass`
/// and is not changed.
pub fn try_tc_ingress(buf: &mut Vec<u8>, table: &BackendTable) -> (r: Result<
    Verdict,
    ParseError,
>)
    ensures
        r == (match parse_spec(old(buf)@) {
            Ok(_) => Ok::<Verdict, ParseError>(verdict_spec(old(buf)@, table@)),
            Err(e) => Err::<Verdict, ParseError>(e),
        }),
        final(buf)@ == frame_after(old(buf)@, table@),
{
    let key = match derive_key(buf)? {
        Some(key) => key,
        None => {
            return Ok(Verdict::Pass);
        },
    };
    let found = get_backend(table, key);
    Ok(apply_lookup(buf, found))
}

/// Classifies one frame against `table`.
///
/// The verdict is `Redirect` with the backend's interface, and the frame is
/// rewritten for that backend, if the frame is UDP over IPv4, holds all
/// three headers, and the table has an entry for its destination address
/// and port. In every other case the verdict is `Pass` and the frame is
/// bit for bit what it was: a frame too short for the three headers, one
/// that is not IPv4 or not UDP, one whose destination the table lacks.
pub fn tc_ingress(buf: &mut Vec<u8>, table: &BackendTable) -> (verdict: Verdict)
    ensures
        verdict == verdict_spec(old(buf)@, table@),
        final(buf)@ == frame_after(old(buf)@, table@),
        final(buf)@.len() == old(buf)@.len(),
        old(buf)@.len() < FRAME_HDR_LEN ==> verdict == Verdict::Pass && final(buf)@ == old(buf)@,
        !is_ipv4(old(buf)@) || !is_udp(old(buf)@) ==> verdict == Verdict::Pass && final(buf)@
            == old(buf)@,
        !table@.contains_key(key_of(old(buf)@)) ==> verdict == Verdict::Pass && final(buf)@ == old(
            buf,
        )@,
        verdict != Verdict::Drop,
{
    match try_tc_ingress(buf, table) {
        Ok(verdict) => verdict,
        Err(_) => Verdict::Pass,
    }
}

/// The action code that goes back to the stack for a verdict.
///
/// For `Redirect`, `dispatched` is what the redirect to the verdict's
/// interface returned, and it is handed on as it is, cut to 32 bits. For the
/// other verdicts `dispatched` is not looked at.
pub fn action_code(verdict: Verdict, dispatched: i64) -> (code: i32)
    ensures
        code == (match verdict {
            Verdict::Pass => TC_ACT_OK,
            Verdict::Drop => TC_ACT_SHOT,
            Verdict::Redirect(_) => dispatched as i32,
        }),
{
    match verdict {
        Verdict::Pass => TC_ACT_OK,
        Verdict::Drop => TC_ACT_SHOT,
        Verdict::Redirect(_) => {
            #[verifier::truncate]
            let code: i32 = dispatched as i32;
            code
        },
    }
}

/// A rewritten frame is classified by its new destination.
///
/// The frame that a hit leaves behind is again a UDP/IPv4 frame with all
/// three headers, and its key is the address and the port of the backend
/// that it was rewritten for. So a second classification does not repeat the
/// first: it redirects once more if the table has an entry under that new
/// key, and passes the frame otherwise.
pub proof fn lemma_rewritten_frame_has_new_key(
    buf: Seq<u8>,
    backend: Backend,
    table: Map<BackendKey, Backend>,
)
    requires
        parse_spec(buf) == Ok::<Option<BackendKey>, ParseError>(Some(key_of(buf))),
    ensures
        parse_spec(rewritten(buf, backend)) == Ok::<Option<BackendKey>, ParseError>(
            Some(BackendKey { ip: backend.daddr, port: wire_port(backend) as u32 }),
        ),
        target(rewritten(buf, backend), table) == (if table.contains_key(
            BackendKey { ip: backend.daddr, port: wire_port(backend) as u32 },
        ) {
            Some(table[BackendKey { ip: backend.daddr, port: wire_port(backend) as u32 }])
        } else {
            None
        }),
{
    lemma_rewritten_fields(buf, backend);
    let out = rewritten(buf, backend);
    assert(!in_rewritten_field(12) && !in_rewritten_field(13) && !in_rewritten_field(23));
    assert(out[12] == buf[12] && out[13] == buf[13] && out[23] == buf[23]);
}

} // verus!
