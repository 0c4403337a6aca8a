//! Fixed-offset views of the Ethernet, IPv4 and UDP headers of a frame.
//!
//! A view holds the offset of its header and nothing else. It owns no
//! storage: every accessor takes the buffer, checks that the whole header
//! lies inside it, and only then reads or writes the field. Fields are in
//! network byte order on the wire and in host order everywhere else.

use vstd::prelude::*;
use crate::checksum::{checksum_of_sum, fold, word_at, words_sum};
use crate::packet::{
    check_bounds, field16, field32, in_bounds, read_u16, read_u32, read_u8, with_field16,
    with_field32, write_u16, write_u32, OutOfBounds,
};

verus! {

/// Ethertype of IPv4.
pub const ETH_P_IP: u16 = 0x0800;

/// IP protocol number of UDP.
pub const IPPROTO_UDP: u8 = 17;

/// Length of an Ethernet header.
pub const ETH_HDR_LEN: usize = 14;

/// Length of an IPv4 header without options.
pub const IP_HDR_LEN: usize = 20;

/// Length of a UDP header.
pub const UDP_HDR_LEN: usize = 8;

/// Offset of the ethertype in the Ethernet header.
pub const ETH_PROTO_OFFSET: usize = 12;

/// Length of a link-layer address.
pub const ETH_ALEN: usize = 6;

/// Offset of the destination address in the Ethernet header.
pub const ETH_DEST_OFFSET: usize = 0;

/// Offset of the source address in the Ethernet header.
pub const ETH_SOURCE_OFFSET: usize = 6;

/// Offset of the total length in the IPv4 header.
pub const IP_TOT_LEN_OFFSET: usize = 2;

/// Offset of the source address in the IPv4 header.
pub const IP_SADDR_OFFSET: usize = 12;

/// Offset of the source port in the UDP header.
pub const UDP_SOURCE_OFFSET: usize = 0;

/// Offset of the length in the UDP header.
pub const UDP_LEN_OFFSET: usize = 4;

/// Offset of the protocol number in the IPv4 header.
pub const IP_PROTOCOL_OFFSET: usize = 9;

/// Offset of the header checksum in the IPv4 header.
pub const IP_CHECK_OFFSET: usize = 10;

/// Offset of the destination address in the IPv4 header.
pub const IP_DADDR_OFFSET: usize = 16;

/// Offset of the destination port in the UDP header.
pub const UDP_DEST_OFFSET: usize = 2;

/// Offset of the checksum in the UDP header.
pub const UDP_CHECK_OFFSET: usize = 6;

/// Number of 16-bit words in an IPv4 header without options.
pub const IP_HDR_WORDS: usize = 10;

/// Which of the 16-bit words of an IPv4 header holds the checksum.
pub const IP_CHECK_WORD: usize = 5;

/// A header did not fit into what is left of the frame.
#[derive(Clone, Copy, Debug, PartialEq, Eq, Structural)]
pub enum ParseError {
    /// The frame ends before the ethertype does.
    ShortEthernet,
    /// The frame ends before the IPv4 header does.
    ShortIp,
    /// The frame ends before the UDP header does.
    ShortUdp,
}

/// The ethertype of a frame that is long enough to have one.
pub open spec fn ethertype(buf: Seq<u8>) -> u16
    recommends
        buf.len() >= ETH_HDR_LEN,
{
    field16(buf, ETH_PROTO_OFFSET as int)
}

/// The protocol number in the IPv4 header that follows the Ethernet header.
pub open spec fn ip_protocol(buf: Seq<u8>) -> u8
    recommends
        buf.len() > ETH_HDR_LEN + IP_PROTOCOL_OFFSET,
{
    buf[ETH_HDR_LEN + IP_PROTOCOL_OFFSET]
}

/// Reads the ethertype of the frame, in host order.
///
/// The read asks for the two bytes of the field and for nothing behind them.
pub fn parse_ethertype(buf: &Vec<u8>) -> (r: Result<u16, ParseError>)
    ensures
        buf@.len() >= ETH_HDR_LEN ==> r == Ok::<u16, ParseError>(ethertype(buf@)),
        buf@.len() < ETH_HDR_LEN ==> r == Err::<u16, ParseError>(ParseError::ShortEthernet),
{
    match read_u16(buf, ETH_PROTO_OFFSET) {
        Ok(v) => Ok(v),
        Err(_) => Err(ParseError::ShortEthernet),
    }
}

/// Reads the protocol number of the IPv4 header that follows the Ethernet
/// header.
///
/// The read asks for the one byte of the field and for nothing behind it.
pub fn parse_ip_protocol(buf: &Vec<u8>) -> (r: Result<u8, ParseError>)
    ensures
        buf@.len() > ETH_HDR_LEN + IP_PROTOCOL_OFFSET ==> r == Ok::<u8, ParseError>(
            ip_protocol(buf@),
        ),
        buf@.len() <= ETH_HDR_LEN + IP_PROTOCOL_OFFSET ==> r == Err::<u8, ParseError>(
            ParseError::ShortIp,
        ),
{
    match read_u8(buf, ETH_HDR_LEN + IP_PROTOCOL_OFFSET) {
        Ok(v) => Ok(v),
        Err(_) => Err(ParseError::ShortIp),
    }
}

/// Checks that `len` bytes at `offset` lie inside `buf` and hands back the
/// offset, which from then on stands for the checked range.
pub fn ptr_at(buf: &Vec<u8>, offset: usize, len: usize) -> (r: Result<usize, OutOfBounds>)
    ensures
        in_bounds(buf@.len(), offset as nat, len as nat) ==> r == Ok::<usize, OutOfBounds>(offset),
        !in_bounds(buf@.len(), offset as nat, len as nat) ==> r.is_err(),
        r.is_ok() ==> offset + len <= usize::MAX,
{
    match check_bounds(buf, offset, len) {
        Ok(()) => Ok(offset),
        Err(e) => Err(e),
    }
}

/// An Ethernet header that starts at `offset`.
#[derive(Clone, Copy, Debug, PartialEq, Eq, Structural)]
pub struct EthHeaderRef {
    /// Offset of the first byte of the header in the frame.
    pub offset: usize,
}

/// An IPv4 header without options that starts at `offset`.
#[derive(Clone, Copy, Debug, PartialEq, Eq, Structural)]
pub struct IpHeaderRef {
    /// Offset of the first byte of the header in the frame.
    pub offset: usize,
}

/// A UDP header that starts at `offset`.
#[derive(Clone, Copy, Debug, PartialEq, Eq, Structural)]
pub struct UdpHeaderRef {
    /// Offset of the first byte of the header in the frame.
    pub offset: usize,
}

/// The view of an IPv4 header at `offset`, if all of it lies inside `buf`.
pub fn ip_header_at(buf: &Vec<u8>, offset: usize) -> (r: Result<IpHeaderRef, ParseError>)
    ensures
        in_bounds(buf@.len(), offset as nat, IP_HDR_LEN as nat) ==> r == Ok::<
            IpHeaderRef,
            ParseError,
        >(IpHeaderRef { offset }),
        !in_bounds(buf@.len(), offset as nat, IP_HDR_LEN as nat) ==> r == Err::<
            IpHeaderRef,
            ParseError,
        >(ParseError::ShortIp),
{
    match ptr_at(buf, offset, IP_HDR_LEN) {
        Ok(at) => Ok(IpHeaderRef { offset: at }),
        Err(_) => Err(ParseError::ShortIp),
    }
}

/// The view of a UDP header at `offset`, if all of it lies inside `buf`.
pub fn udp_header_at(buf: &Vec<u8>, offset: usize) -> (r: Result<UdpHeaderRef, ParseError>)
    ensures
        in_bounds(buf@.len(), offset as nat, UDP_HDR_LEN as nat) ==> r == Ok::<
            UdpHeaderRef,
            ParseError,
        >(UdpHeaderRef { offset }),
        !in_bounds(buf@.len(), offset as nat, UDP_HDR_LEN as nat) ==> r == Err::<
            UdpHeaderRef,
            ParseError,
        >(ParseError::ShortUdp),
{
    match ptr_at(buf, offset, UDP_HDR_LEN) {
        Ok(at) => Ok(UdpHeaderRef { offset: at }),
        Err(_) => Err(ParseError::ShortUdp),
    }
}

impl EthHeaderRef {
    /// Whether the whole header lies inside a buffer with the bytes `buf`.
    pub open spec fn covered(self, buf: Seq<u8>) -> bool {
        in_bounds(buf.len(), self.offset as nat, ETH_HDR_LEN as nat)
    }

    /// The destination link-layer address.
    pub open spec fn spec_dest(self, buf: Seq<u8>) -> Seq<u8>
        recommends
            self.covered(buf),
    {
        buf.subrange(self.offset + ETH_DEST_OFFSET, self.offset + ETH_DEST_OFFSET + ETH_ALEN)
    }

    /// The source link-layer address.
    pub open spec fn spec_source(self, buf: Seq<u8>) -> Seq<u8>
        recommends
            self.covered(buf),
    {
        buf.subrange(self.offset + ETH_SOURCE_OFFSET, self.offset + ETH_SOURCE_OFFSET + ETH_ALEN)
    }

    /// The ethertype.
    pub open spec fn spec_proto(self, buf: Seq<u8>) -> u16
        recommends
            self.covered(buf),
    {
        field16(buf, self.offset + ETH_PROTO_OFFSET)
    }

    /// Reads the destination link-layer address.
    pub fn dest(&self, buf: &Vec<u8>) -> (r: Result<[u8; 6], OutOfBounds>)
        ensures
            self.covered(buf@) ==> r.is_ok() && r.unwrap()@ == self.spec_dest(buf@),
            !self.covered(buf@) ==> r.is_err(),
    {
        match check_bounds(buf, self.offset, ETH_HDR_LEN) {
            Ok(()) => {
                let at: usize = self.offset + ETH_DEST_OFFSET;
                let mac: [u8; 6] = [
                    buf[at],
                    buf[at + 1],
                    buf[at + 2],
                    buf[at + 3],
                    buf[at + 4],
                    buf[at + 5],
                ];
                assert(mac@ =~= self.spec_dest(buf@));
                Ok(mac)
            },
            Err(e) => Err(e),
        }
    }

    /// Reads the source link-layer address.
    pub fn source(&self, buf: &Vec<u8>) -> (r: Result<[u8; 6], OutOfBounds>)
        ensures
            self.covered(buf@) ==> r.is_ok() && r.unwrap()@ == self.spec_source(buf@),
            !self.covered(buf@) ==> r.is_err(),
    {
        match check_bounds(buf, self.offset, ETH_HDR_LEN) {
            Ok(()) => {
                let at: usize = self.offset + ETH_SOURCE_OFFSET;
                let mac: [u8; 6] = [
                    buf[at],
                    buf[at + 1],
                    buf[at + 2],
                    buf[at + 3],
                    buf[at + 4],
                    buf[at + 5],
                ];
                assert(mac@ =~= self.spec_source(buf@));
                Ok(mac)
            },
            Err(e) => Err(e),
        }
    }

    /// Reads the ethertype.
    pub fn proto(&self, buf: &Vec<u8>) -> (r: Result<u16, OutOfBounds>)
        ensures
            self.covered(buf@) ==> r == Ok::<u16, OutOfBounds>(self.spec_proto(buf@)),
            !self.covered(buf@) ==> r.is_err(),
    {
        match check_bounds(buf, self.offset, ETH_HDR_LEN) {
            Ok(()) => read_u16(buf, self.offset + ETH_PROTO_OFFSET),
            Err(e) => Err(e),
        }
    }
}

impl IpHeaderRef {
    /// Whether the whole header lies inside a buffer with the bytes `buf`.
    pub open spec fn covered(self, buf: Seq<u8>) -> bool {
        in_bounds(buf.len(), self.offset as nat, IP_HDR_LEN as nat)
    }

    /// The bytes of the header.
    pub open spec fn bytes(self, buf: Seq<u8>) -> Seq<u8>
        recommends
            self.covered(buf),
    {
        buf.subrange(self.offset as int, self.offset + IP_HDR_LEN)
    }

    /// The protocol number.
    pub open spec fn spec_protocol(self, buf: Seq<u8>) -> u8
        recommends
            self.covered(buf),
    {
        buf[self.offset + IP_PROTOCOL_OFFSET]
    }

    /// The header checksum as the header holds it.
    pub open spec fn spec_check(self, buf: Seq<u8>) -> u16
        recommends
            self.covered(buf),
    {
        field16(buf, self.offset + IP_CHECK_OFFSET)
    }

    /// The total length of the datagram.
    pub open spec fn spec_tot_len(self, buf: Seq<u8>) -> u16
        recommends
            self.covered(buf),
    {
        field16(buf, self.offset + IP_TOT_LEN_OFFSET)
    }

    /// The source address.
    pub open spec fn spec_saddr(self, buf: Seq<u8>) -> u32
        recommends
            self.covered(buf),
    {
        field32(buf, self.offset + IP_SADDR_OFFSET)
    }

    /// The destination address.
    pub open spec fn spec_daddr(self, buf: Seq<u8>) -> u32
        recommends
            self.covered(buf),
    {
        field32(buf, self.offset + IP_DADDR_OFFSET)
    }

    /// The sum of the 16-bit words of the header, the checksum field left
    /// out.
    pub open spec fn spec_sum(self, buf: Seq<u8>) -> nat
        recommends
            self.covered(buf),
    {
        (words_sum(self.bytes(buf), IP_HDR_WORDS as nat) - word_at(
            self.bytes(buf),
            IP_CHECK_WORD as int,
        )) as nat
    }

    /// The checksum that the header ought to hold: the one worked out from
    /// scratch over all of its words.
    pub open spec fn spec_checksum(self, buf: Seq<u8>) -> u16
        recommends
            self.covered(buf),
    {
        checksum_of_sum(self.spec_sum(buf))
    }

    /// Reads the protocol number.
    pub fn protocol(&self, buf: &Vec<u8>) -> (r: Result<u8, OutOfBounds>)
        ensures
            self.covered(buf@) ==> r == Ok::<u8, OutOfBounds>(self.spec_protocol(buf@)),
            !self.covered(buf@) ==> r.is_err(),
    {
        match check_bounds(buf, self.offset, IP_HDR_LEN) {
            Ok(()) => read_u8(buf, self.offset + IP_PROTOCOL_OFFSET),
            Err(e) => Err(e),
        }
    }

    /// Reads the header checksum.
    pub fn check(&self, buf: &Vec<u8>) -> (r: Result<u16, OutOfBounds>)
        ensures
            self.covered(buf@) ==> r == Ok::<u16, OutOfBounds>(self.spec_check(buf@)),
            !self.covered(buf@) ==> r.is_err(),
    {
        match check_bounds(buf, self.offset, IP_HDR_LEN) {
            Ok(()) => read_u16(buf, self.offset + IP_CHECK_OFFSET),
            Err(e) => Err(e),
        }
    }

    /// Reads the total length of the datagram.
    pub fn tot_len(&self, buf: &Vec<u8>) -> (r: Result<u16, OutOfBounds>)
        ensures
            self.covered(buf@) ==> r == Ok::<u16, OutOfBounds>(self.spec_tot_len(buf@)),
            !self.covered(buf@) ==> r.is_err(),
    {
        match check_bounds(buf, self.offset, IP_HDR_LEN) {
            Ok(()) => read_u16(buf, self.offset + IP_TOT_LEN_OFFSET),
            Err(e) => Err(e),
        }
    }

    /// Reads the source address.
    pub fn saddr(&self, buf: &Vec<u8>) -> (r: Result<u32, OutOfBounds>)
        ensures
            self.covered(buf@) ==> r == Ok::<u32, OutOfBounds>(self.spec_saddr(buf@)),
            !self.covered(buf@) ==> r.is_err(),
    {
        match check_bounds(buf, self.offset, IP_HDR_LEN) {
            Ok(()) => read_u32(buf, self.offset + IP_SADDR_OFFSET),
            Err(e) => Err(e),
        }
    }

    /// Reads the destination address.
    pub fn daddr(&self, buf: &Vec<u8>) -> (r: Result<u32, OutOfBounds>)
        ensures
            self.covered(buf@) ==> r == Ok::<u32, OutOfBounds>(self.spec_daddr(buf@)),
            !self.covered(buf@) ==> r.is_err(),
    {
        match check_bounds(buf, self.offset, IP_HDR_LEN) {
            Ok(()) => read_u32(buf, self.offset + IP_DADDR_OFFSET),
            Err(e) => Err(e),
        }
    }

    /// Writes the header checksum. Out of bounds, nothing is written.
    pub fn set_check(&self, buf: &mut Vec<u8>, v: u16) -> (r: Result<(), OutOfBounds>)
        ensures
            r.is_ok() <==> self.covered(old(buf)@),
            r.is_ok() ==> final(buf)@ == with_field16(
                old(buf)@,
                self.offset + IP_CHECK_OFFSET,
                v,
            ),
            r.is_err() ==> final(buf)@ == old(buf)@,
    {
        match check_bounds(buf, self.offset, IP_HDR_LEN) {
            Ok(()) => write_u16(buf, self.offset + IP_CHECK_OFFSET, v),
            Err(e) => Err(e),
        }
    }

    /// Writes the destination address. Out of bounds, nothing is written.
    pub fn set_daddr(&self, buf: &mut Vec<u8>, v: u32) -> (r: Result<(), OutOfBounds>)
        ensures
            r.is_ok() <==> self.covered(old(buf)@),
            r.is_ok() ==> final(buf)@ == with_field32(
                old(buf)@,
                self.offset + IP_DADDR_OFFSET,
                v,
            ),
            r.is_err() ==> final(buf)@ == old(buf)@,
    {
        match check_bounds(buf, self.offset, IP_HDR_LEN) {
            Ok(()) => write_u32(buf, self.offset + IP_DADDR_OFFSET, v),
            Err(e) => Err(e),
        }
    }

    /// Works the header checksum out from scratch: the complement of the
    /// one's-complement sum of all words of the header but the checksum
    /// field itself.
    pub fn checksum(&self, buf: &Vec<u8>) -> (r: Result<u16, OutOfBounds>)
        ensures
            self.covered(buf@) ==> r == Ok::<u16, OutOfBounds>(self.spec_checksum(buf@)),
            !self.covered(buf@) ==> r.is_err(),
    {
        match check_bounds(buf, self.offset, IP_HDR_LEN) {
            Ok(()) => {
                let ghost hdr = self.bytes(buf@);
                let mut sum: u32 = 0;
                let mut i: usize = 0;
                while i < IP_HDR_WORDS
                    invariant
                        i <= IP_HDR_WORDS,
                        self.offset + IP_HDR_LEN <= buf@.len(),
                        self.offset + IP_HDR_LEN <= usize::MAX,
                        hdr == self.bytes(buf@),
                        sum == words_sum(hdr, i as nat) - (if i > IP_CHECK_WORD {
                            word_at(hdr, IP_CHECK_WORD as int)
                        } else {
                            0
                        }),
                        sum <= 0xFFFF * i,
                    decreases IP_HDR_WORDS - i,
                {
                    assert(word_at(hdr, i as int) == field16(buf@, self.offset + 2 * i));
                    if i != IP_CHECK_WORD {
                        let word = read_u16(buf, self.offset + 2 * i);
                        match word {
                            Ok(w) => {
                                sum += w as u32;
                            },
                            Err(e) => {
                                return Err(e);
                            },
                        }
                    }
                    i += 1;
                }
                let folded: u16 = fold(sum);
                let r: u16 = !folded;
                assert(r == (0xFFFF - folded) as u16) by (bit_vector)
                    requires
                        r == !folded,
                ;
                Ok(r)
            },
            Err(e) => Err(e),
        }
    }
}

impl UdpHeaderRef {
    /// Whether the whole header lies inside a buffer with the bytes `buf`.
    pub open spec fn covered(self, buf: Seq<u8>) -> bool {
        in_bounds(buf.len(), self.offset as nat, UDP_HDR_LEN as nat)
    }

    /// The destination port.
    pub open spec fn spec_dest(self, buf: Seq<u8>) -> u16
        recommends
            self.covered(buf),
    {
        field16(buf, self.offset + UDP_DEST_OFFSET)
    }

    /// The checksum as the header holds it.
    pub open spec fn spec_check(self, buf: Seq<u8>) -> u16
        recommends
            self.covered(buf),
    {
        field16(buf, self.offset + UDP_CHECK_OFFSET)
    }

    /// The source port.
    pub open spec fn spec_source(self, buf: Seq<u8>) -> u16
        recommends
            self.covered(buf),
    {
        field16(buf, self.offset + UDP_SOURCE_OFFSET)
    }

    /// The length of the UDP header and its payload.
    pub open spec fn spec_len(self, buf: Seq<u8>) -> u16
        recommends
            self.covered(buf),
    {
        field16(buf, self.offset + UDP_LEN_OFFSET)
    }

    /// Reads the source port.
    pub fn source(&self, buf: &Vec<u8>) -> (r: Result<u16, OutOfBounds>)
        ensures
            self.covered(buf@) ==> r == Ok::<u16, OutOfBounds>(self.spec_source(buf@)),
            !self.covered(buf@) ==> r.is_err(),
    {
        match check_bounds(buf, self.offset, UDP_HDR_LEN) {
            Ok(()) => read_u16(buf, self.offset + UDP_SOURCE_OFFSET),
            Err(e) => Err(e),
        }
    }

    /// Reads the length of the UDP header and its payload.
    pub fn len(&self, buf: &Vec<u8>) -> (r: Result<u16, OutOfBounds>)
        ensures
            self.covered(buf@) ==> r == Ok::<u16, OutOfBounds>(self.spec_len(buf@)),
            !self.covered(buf@) ==> r.is_err(),
    {
        match check_bounds(buf, self.offset, UDP_HDR_LEN) {
            Ok(()) => read_u16(buf, self.offset + UDP_LEN_OFFSET),
            Err(e) => Err(e),
        }
    }

    /// Reads the checksum.
    pub fn check(&self, buf: &Vec<u8>) -> (r: Result<u16, OutOfBounds>)
        ensures
            self.covered(buf@) ==> r == Ok::<u16, OutOfBounds>(self.spec_check(buf@)),
            !self.covered(buf@) ==> r.is_err(),
    {
        match check_bounds(buf, self.offset, UDP_HDR_LEN) {
            Ok(()) => read_u16(buf, self.offset + UDP_CHECK_OFFSET),
            Err(e) => Err(e),
        }
    }

    /// Reads the destination port.
    pub fn dest(&self, buf: &Vec<u8>) -> (r: Result<u16, OutOfBounds>)
        ensures
            self.covered(buf@) ==> r == Ok::<u16, OutOfBounds>(self.spec_dest(buf@)),
            !self.covered(buf@) ==> r.is_err(),
    {
        match check_bounds(buf, self.offset, UDP_HDR_LEN) {
            Ok(()) => read_u16(buf, self.offset + UDP_DEST_OFFSET),
            Err(e) => Err(e),
        }
    }

    /// Writes the destination port. Out of bounds, nothing is written.
    pub fn set_dest(&self, buf: &mut Vec<u8>, v: u16) -> (r: Result<(), OutOfBounds>)
        ensures
            r.is_ok() <==> self.covered(old(buf)@),
            r.is_ok() ==> final(buf)@ == with_field16(
                old(buf)@,
                self.offset + UDP_DEST_OFFSET,
                v,
            ),
            r.is_err() ==> final(buf)@ == old(buf)@,
    {
        match check_bounds(buf, self.offset, UDP_HDR_LEN) {
            Ok(()) => write_u16(buf, self.offset + UDP_DEST_OFFSET, v),
            Err(e) => Err(e),
        }
    }

    /// Writes the checksum. Out of bounds, nothing is written.
    pub fn set_check(&self, buf: &mut Vec<u8>, v: u16) -> (r: Result<(), OutOfBounds>)
        ensures
            r.is_ok() <==> self.covered(old(buf)@),
            r.is_ok() ==> final(buf)@ == with_field16(
                old(buf)@,
                self.offset + UDP_CHECK_OFFSET,
                v,
            ),
            r.is_err() ==> final(buf)@ == old(buf)@,
    {
        match check_bounds(buf, self.offset, UDP_HDR_LEN) {
            Ok(()) => write_u16(buf, self.offset + UDP_CHECK_OFFSET, v),
            Err(e) => Err(e),
        }
    }
}

} // verus!
