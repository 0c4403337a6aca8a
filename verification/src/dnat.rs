//! Destination NAT: rewriting a frame so that it reaches a backend.

use vstd::prelude::*;
use crate::checksum::{
    high_word, lemma_update_matches_recomputation, low_word, update, update_spec, word_at,
    words_sum,
};
use crate::headers::{
    ip_protocol, IpHeaderRef, UdpHeaderRef, ETH_HDR_LEN, IPPROTO_UDP, IP_CHECK_OFFSET,
    IP_CHECK_WORD, IP_DADDR_OFFSET, IP_HDR_LEN, IP_HDR_WORDS, IP_PROTOCOL_OFFSET,
    UDP_CHECK_OFFSET, UDP_DEST_OFFSET, UDP_HDR_LEN,
};
use crate::packet::{
    check_bounds, field16, field32, lemma_with_field16, lemma_with_field32, with_field16,
    with_field32, OutOfBounds,
};
use crate::table::Backend;

verus! {

/// Offset of the IPv4 header in the frame.
pub const IP_OFFSET: usize = 14;

/// Offset of the UDP header in the frame, behind an IPv4 header without
/// options.
pub const UDP_OFFSET: usize = 34;

/// Length of the Ethernet, IPv4 and UDP headers together.
pub const FRAME_HDR_LEN: usize = 42;

/// The value that a UDP checksum field holds when no checksum was computed.
pub const UDP_CHECK_UNSET: u16 = 0;

/// The view of the IPv4 header of a frame.
pub open spec fn ip_ref() -> IpHeaderRef {
    IpHeaderRef { offset: IP_OFFSET }
}

/// The view of the UDP header of a frame.
pub open spec fn udp_ref() -> UdpHeaderRef {
    UdpHeaderRef { offset: UDP_OFFSET }
}

/// The port that goes on the wire for a backend: the low 16 bits of its
/// `dport`.
pub open spec fn wire_port(backend: Backend) -> u16 {
    (backend.dport % 0x1_0000) as u16
}

/// The frame `buf` as it is after the rewrite for `backend`: the backend's
/// address as IPv4 destination, the IPv4 header checksum updated for that
/// change, the backend's port as UDP destination port, and the UDP checksum
/// unset. Every other byte is as before.
pub open spec fn rewritten(buf: Seq<u8>, backend: Backend) -> Seq<u8>
    recommends
        buf.len() >= FRAME_HDR_LEN,
{
    let check = update_spec(ip_ref().spec_check(buf), ip_ref().spec_daddr(buf), backend.daddr);
    let with_addr = with_field32(buf, IP_OFFSET + IP_DADDR_OFFSET, backend.daddr);
    let with_check = with_field16(with_addr, IP_OFFSET + IP_CHECK_OFFSET, check);
    let with_port = with_field16(with_check, UDP_OFFSET + UDP_DEST_OFFSET, wire_port(backend));
    with_field16(with_port, UDP_OFFSET + UDP_CHECK_OFFSET, UDP_CHECK_UNSET)
}

/// Rewrites the frame in `buf` for `backend`.
///
/// All bounds are checked before the first byte is written: a frame that is
/// too short for the three headers is refused and left exactly as it was.
pub fn rewrite(buf: &mut Vec<u8>, backend: &Backend) -> (r: Result<(), OutOfBounds>)
    ensures
        r.is_ok() <==> old(buf)@.len() >= FRAME_HDR_LEN,
        r.is_ok() ==> final(buf)@ == rewritten(old(buf)@, *backend),
        r.is_err() ==> final(buf)@ == old(buf)@,
{
    check_bounds(buf, IP_OFFSET, IP_HDR_LEN)?;
    check_bounds(buf, UDP_OFFSET, UDP_HDR_LEN)?;
    let ip = IpHeaderRef { offset: IP_OFFSET };
    let udp = UdpHeaderRef { offset: UDP_OFFSET };
    let old_check: u16 = ip.check(buf)?;
    let old_daddr: u32 = ip.daddr(buf)?;
    let new_check: u16 = update(old_check, old_daddr, backend.daddr);
    let dport: u32 = backend.dport;
    let port: u16 = (dport & 0xFFFF) as u16;
    assert(port == (dport % 0x1_0000) as u16) by (bit_vector)
        requires
            port == (dport & 0xFFFF) as u16,
    ;
    ip.set_daddr(buf, backend.daddr)?;
    ip.set_check(buf, new_check)?;
    udp.set_dest(buf, port)?;
    udp.set_check(buf, UDP_CHECK_UNSET)?;
    Ok(())
}

/// Whether the rewrite may change the byte at offset `i` of a frame: the
/// bytes of the IPv4 header checksum, of the IPv4 destination address, of
/// the UDP destination port and of the UDP checksum.
pub open spec fn in_rewritten_field(i: int) -> bool {
    ||| IP_OFFSET + IP_CHECK_OFFSET <= i < IP_OFFSET + IP_CHECK_OFFSET + 2
    ||| IP_OFFSET + IP_DADDR_OFFSET <= i < IP_OFFSET + IP_DADDR_OFFSET + 4
    ||| UDP_OFFSET + UDP_DEST_OFFSET <= i < UDP_OFFSET + UDP_DEST_OFFSET + 2
    ||| UDP_OFFSET + UDP_CHECK_OFFSET <= i < UDP_OFFSET + UDP_CHECK_OFFSET + 2
}

/// What a rewritten frame holds.
///
/// Its destination address and port are the backend's, its UDP checksum is
/// unset, and its IPv4 header checksum is the old one updated for the change
/// of address. It is as long as the frame was, and every byte outside those
/// four fields is the byte that was there.
pub proof fn lemma_rewritten_fields(buf: Seq<u8>, backend: Backend)
    requires
        buf.len() >= FRAME_HDR_LEN,
    ensures
        rewritten(buf, backend).len() == buf.len(),
        ip_ref().spec_daddr(rewritten(buf, backend)) == backend.daddr,
        udp_ref().spec_dest(rewritten(buf, backend)) == wire_port(backend),
        udp_ref().spec_check(rewritten(buf, backend)) == UDP_CHECK_UNSET,
        ip_ref().spec_check(rewritten(buf, backend)) == update_spec(
            ip_ref().spec_check(buf),
            ip_ref().spec_daddr(buf),
            backend.daddr,
        ),
        forall|i: int|
            0 <= i < buf.len() && !in_rewritten_field(i) ==> rewritten(buf, backend)[i] == buf[i],
{
    let check = update_spec(ip_ref().spec_check(buf), ip_ref().spec_daddr(buf), backend.daddr);
    let with_addr = with_field32(buf, IP_OFFSET + IP_DADDR_OFFSET, backend.daddr);
    let with_check = with_field16(with_addr, IP_OFFSET + IP_CHECK_OFFSET, check);
    let with_port = with_field16(with_check, UDP_OFFSET + UDP_DEST_OFFSET, wire_port(backend));
    let out = with_field16(with_port, UDP_OFFSET + UDP_CHECK_OFFSET, UDP_CHECK_UNSET);
    lemma_with_field32(buf, IP_OFFSET + IP_DADDR_OFFSET, backend.daddr);
    lemma_with_field16(with_addr, IP_OFFSET + IP_CHECK_OFFSET, check);
    lemma_with_field16(with_check, UDP_OFFSET + UDP_DEST_OFFSET, wire_port(backend));
    lemma_with_field16(with_port, UDP_OFFSET + UDP_CHECK_OFFSET, UDP_CHECK_UNSET);
    assert(out == rewritten(buf, backend));
    assert(field32(out, 30) == field32(with_addr, 30)) by {
        assert(out[30] == with_addr[30] && out[31] == with_addr[31] && out[32] == with_addr[32]
            && out[33] == with_addr[33]);
    }
    assert(field16(out, 24) == field16(with_check, 24)) by {
        assert(out[24] == with_check[24] && out[25] == with_check[25]);
    }
    assert(field16(out, 36) == field16(with_port, 36)) by {
        assert(out[36] == with_port[36] && out[37] == with_port[37]);
    }
    assert forall|i: int| 0 <= i < buf.len() && !in_rewritten_field(i) implies out[i]
        == buf[i] by {
        assert(out[i] == with_port[i]);
        assert(with_port[i] == with_check[i]);
        assert(with_check[i] == with_addr[i]);
        assert(with_addr[i] == buf[i]);
    }
}

/// The sum of the words of an IPv4 header that are neither the checksum nor
/// part of the destination address.
pub open spec fn rest_sum(hdr: Seq<u8>) -> nat
    recommends
        hdr.len() == IP_HDR_LEN,
{
    word_at(hdr, 0) + word_at(hdr, 1) + word_at(hdr, 2) + word_at(hdr, 3) + word_at(hdr, 4)
        + word_at(hdr, 6) + word_at(hdr, 7)
}

/// The words of an IPv4 header, the checksum left out, add up to the words
/// outside the destination address plus the two halves of that address.
proof fn lemma_sum_parts(ip: IpHeaderRef, buf: Seq<u8>)
    requires
        ip.covered(buf),
    ensures
        ip.spec_sum(buf) == rest_sum(ip.bytes(buf)) + high_word(ip.spec_daddr(buf)) + low_word(
            ip.spec_daddr(buf),
        ),
{
    let hdr = ip.bytes(buf);
    reveal_with_fuel(words_sum, 11);
    assert(words_sum(hdr, 10) == rest_sum(hdr) + word_at(hdr, 5) + word_at(hdr, 8) + word_at(
        hdr,
        9,
    ));
    let b0 = buf[ip.offset + 16];
    let b1 = buf[ip.offset + 17];
    let b2 = buf[ip.offset + 18];
    let b3 = buf[ip.offset + 19];
    assert(hdr[16] == b0 && hdr[17] == b1 && hdr[18] == b2 && hdr[19] == b3);
    let v = ip.spec_daddr(buf);
    assert(v == b0 * 0x100_0000 + b1 * 0x1_0000 + b2 * 0x100 + b3);
    assert(high_word(v) == b0 * 256 + b1);
    assert(low_word(v) == b2 * 256 + b3);
}

/// Writing a destination address changes the two words of the address and
/// no other word of the header.
proof fn lemma_sum_after_address(ip: IpHeaderRef, buf: Seq<u8>, daddr: u32)
    requires
        ip.covered(buf),
    ensures
        ip.covered(with_field32(buf, ip.offset + IP_DADDR_OFFSET, daddr)),
        ip.spec_daddr(with_field32(buf, ip.offset + IP_DADDR_OFFSET, daddr)) == daddr,
        rest_sum(ip.bytes(with_field32(buf, ip.offset + IP_DADDR_OFFSET, daddr))) == rest_sum(
            ip.bytes(buf),
        ),
{
    let after = with_field32(buf, ip.offset + IP_DADDR_OFFSET, daddr);
    let hdr = ip.bytes(buf);
    let hdr_after = ip.bytes(after);
    assert forall|i: int| 0 <= i < 16 implies hdr_after[i] == hdr[i] by {}
    let b0 = after[ip.offset + 16];
    let b1 = after[ip.offset + 17];
    let b2 = after[ip.offset + 18];
    let b3 = after[ip.offset + 19];
    assert(b0 == daddr / 0x100_0000);
    assert(b1 == (daddr / 0x1_0000) % 256);
    assert(b2 == (daddr / 0x100) % 256);
    assert(b3 == daddr % 256);
    assert(daddr == b0 * 0x100_0000 + b1 * 0x1_0000 + b2 * 0x100 + b3);
}

/// The incremental update of the IPv4 header checksum agrees with a
/// recomputation from scratch.
///
/// Take a frame whose IPv4 header holds the right checksum. Update that
/// checksum for a new destination address, from the old checksum and the old
/// and new address alone. The result is the checksum that a recomputation
/// over the whole header gives once the new address is written, provided
/// that the header with the new address is not zero in every word outside
/// its checksum.
pub proof fn lemma_update_is_recomputation(ip: IpHeaderRef, buf: Seq<u8>, daddr: u32)
    requires
        ip.covered(buf),
        ip.spec_check(buf) == ip.spec_checksum(buf),
        ip.spec_sum(with_field32(buf, ip.offset + IP_DADDR_OFFSET, daddr)) > 0,
    ensures
        update_spec(ip.spec_check(buf), ip.spec_daddr(buf), daddr) == ip.spec_checksum(
            with_field32(buf, ip.offset + IP_DADDR_OFFSET, daddr),
        ),
{
    let after = with_field32(buf, ip.offset + IP_DADDR_OFFSET, daddr);
    lemma_sum_parts(ip, buf);
    lemma_sum_after_address(ip, buf, daddr);
    lemma_sum_parts(ip, after);
    lemma_update_matches_recomputation(rest_sum(ip.bytes(buf)), ip.spec_daddr(buf), daddr);
}

/// The sum of the words of an IPv4 header does not depend on its checksum
/// field, nor on anything outside the header.
proof fn lemma_sum_ignores_check(ip: IpHeaderRef, a: Seq<u8>, b: Seq<u8>)
    requires
        ip.covered(a),
        ip.covered(b),
        forall|i: int|
            ip.offset <= i < ip.offset + IP_HDR_LEN && !(ip.offset + IP_CHECK_OFFSET <= i
                < ip.offset + IP_CHECK_OFFSET + 2) ==> a[i] == b[i],
    ensures
        ip.spec_sum(a) == ip.spec_sum(b),
{
    let ha = ip.bytes(a);
    let hb = ip.bytes(b);
    assert forall|w: int| 0 <= w < IP_HDR_WORDS && w != IP_CHECK_WORD implies word_at(ha, w)
        == word_at(hb, w) by {
        assert(ha[2 * w] == a[ip.offset + 2 * w]);
        assert(hb[2 * w] == b[ip.offset + 2 * w]);
        assert(ha[2 * w + 1] == a[ip.offset + (2 * w + 1)]);
        assert(hb[2 * w + 1] == b[ip.offset + (2 * w + 1)]);
    }
    reveal_with_fuel(words_sum, 11);
}

/// Behind the write of the address, the rewrite changes nothing in the IPv4
/// header but the checksum field.
proof fn lemma_rewritten_header(buf: Seq<u8>, backend: Backend)
    requires
        buf.len() >= FRAME_HDR_LEN,
    ensures
        forall|i: int|
            IP_OFFSET <= i < IP_OFFSET + IP_HDR_LEN && !(IP_OFFSET + IP_CHECK_OFFSET <= i
                < IP_OFFSET + IP_CHECK_OFFSET + 2) ==> rewritten(buf, backend)[i] == with_field32(
                buf,
                IP_OFFSET + IP_DADDR_OFFSET,
                backend.daddr,
            )[i],
{
    let check = update_spec(ip_ref().spec_check(buf), ip_ref().spec_daddr(buf), backend.daddr);
    let with_addr = with_field32(buf, IP_OFFSET + IP_DADDR_OFFSET, backend.daddr);
    let with_check = with_field16(with_addr, IP_OFFSET + IP_CHECK_OFFSET, check);
    let with_port = with_field16(with_check, UDP_OFFSET + UDP_DEST_OFFSET, wire_port(backend));
    let out = with_field16(with_port, UDP_OFFSET + UDP_CHECK_OFFSET, UDP_CHECK_UNSET);
    lemma_with_field32(buf, IP_OFFSET + IP_DADDR_OFFSET, backend.daddr);
    lemma_with_field16(with_addr, IP_OFFSET + IP_CHECK_OFFSET, check);
    lemma_with_field16(with_check, UDP_OFFSET + UDP_DEST_OFFSET, wire_port(backend));
    lemma_with_field16(with_port, UDP_OFFSET + UDP_CHECK_OFFSET, UDP_CHECK_UNSET);
    assert(out == rewritten(buf, backend));
    assert forall|i: int|
        IP_OFFSET <= i < IP_OFFSET + IP_HDR_LEN && !(IP_OFFSET + IP_CHECK_OFFSET <= i < IP_OFFSET
            + IP_CHECK_OFFSET + 2) implies out[i] == with_addr[i] by {
        assert(out[i] == with_port[i]);
        assert(with_port[i] == with_check[i]);
        assert(with_check[i] == with_addr[i]);
    }
}

/// A rewrite keeps a right IPv4 header checksum right.
///
/// If the frame is UDP over IPv4 in its protocol field and its IPv4 header
/// holds the checksum that a recomputation from scratch gives, the rewritten
/// frame holds the checksum that a recomputation over its own header gives.
pub proof fn lemma_rewrite_keeps_checksum(buf: Seq<u8>, backend: Backend)
    requires
        buf.len() >= FRAME_HDR_LEN,
        ip_protocol(buf) == IPPROTO_UDP,
        ip_ref().spec_check(buf) == ip_ref().spec_checksum(buf),
    ensures
        ip_ref().spec_check(rewritten(buf, backend)) == ip_ref().spec_checksum(
            rewritten(buf, backend),
        ),
{
    let ip = ip_ref();
    let with_addr = with_field32(buf, IP_OFFSET + IP_DADDR_OFFSET, backend.daddr);
    let out = rewritten(buf, backend);
    // The protocol number alone keeps the sum of the header above zero.
    assert(rest_sum(ip.bytes(buf)) >= IPPROTO_UDP) by {
        assert(ip.bytes(buf)[IP_PROTOCOL_OFFSET as int] == buf[ETH_HDR_LEN + IP_PROTOCOL_OFFSET]);
        assert(word_at(ip.bytes(buf), 4) >= IPPROTO_UDP);
    }
    lemma_sum_after_address(ip, buf, backend.daddr);
    lemma_sum_parts(ip, with_addr);
    lemma_update_is_recomputation(ip, buf, backend.daddr);
    lemma_rewritten_fields(buf, backend);
    lemma_rewritten_header(buf, backend);
    lemma_sum_ignores_check(ip, out, with_addr);
}

} // verus!
