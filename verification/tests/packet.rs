use dataplane::headers::{
    ip_header_at, parse_ethertype, parse_ip_protocol, ptr_at, udp_header_at, EthHeaderRef,
    IpHeaderRef, ParseError, UdpHeaderRef,
};
use dataplane::packet::{
    check_bounds, read_u16, read_u32, read_u8, write_u16, write_u32, OutOfBounds,
};

fn bytes(n: usize) -> Vec<u8> {
    (0..n).map(|i| (i as u8).wrapping_mul(7).wrapping_add(1)).collect()
}

#[test]
fn bounds_are_exact() {
    let buf = bytes(10);
    assert_eq!(check_bounds(&buf, 0, 10), Ok(()));
    assert_eq!(check_bounds(&buf, 0, 11), Err(OutOfBounds));
    assert_eq!(check_bounds(&buf, 10, 0), Ok(()));
    assert_eq!(check_bounds(&buf, 11, 0), Err(OutOfBounds));
    assert_eq!(check_bounds(&buf, 6, 4), Ok(()));
    assert_eq!(check_bounds(&buf, 7, 4), Err(OutOfBounds));
    assert_eq!(check_bounds(&buf, usize::MAX, 1), Err(OutOfBounds));
    assert_eq!(check_bounds(&buf, 1, usize::MAX), Err(OutOfBounds));
    assert_eq!(ptr_at(&buf, 6, 4), Ok(6));
    assert_eq!(ptr_at(&buf, 7, 4), Err(OutOfBounds));
}

#[test]
fn reads_convert_from_network_order() {
    let buf: Vec<u8> = vec![0x08, 0x00, 0xC0, 0xA8, 0x01, 0x0A];
    assert_eq!(read_u8(&buf, 0), Ok(0x08));
    assert_eq!(read_u8(&buf, 5), Ok(0x0A));
    assert_eq!(read_u8(&buf, 6), Err(OutOfBounds));
    assert_eq!(read_u16(&buf, 0), Ok(0x0800));
    assert_eq!(read_u16(&buf, 4), Ok(0x010A));
    assert_eq!(read_u16(&buf, 5), Err(OutOfBounds));
    assert_eq!(read_u32(&buf, 2), Ok(0xC0A8_010A));
    assert_eq!(read_u32(&buf, 3), Err(OutOfBounds));
    assert_eq!(read_u32(&buf, usize::MAX), Err(OutOfBounds));
}

#[test]
fn writes_convert_to_network_order() {
    let mut buf: Vec<u8> = vec![0; 8];
    assert_eq!(write_u16(&mut buf, 1, 0x14E9), Ok(()));
    assert_eq!(buf, vec![0, 0x14, 0xE9, 0, 0, 0, 0, 0]);
    assert_eq!(write_u32(&mut buf, 4, 0xC0A8_010A), Ok(()));
    assert_eq!(buf, vec![0, 0x14, 0xE9, 0, 0xC0, 0xA8, 0x01, 0x0A]);
    assert_eq!(read_u16(&buf, 1), Ok(0x14E9));
    assert_eq!(read_u32(&buf, 4), Ok(0xC0A8_010A));
}

#[test]
fn refused_writes_change_nothing() {
    let mut buf = bytes(8);
    let before = buf.clone();
    assert_eq!(write_u16(&mut buf, 7, 0xFFFF), Err(OutOfBounds));
    assert_eq!(write_u16(&mut buf, 8, 0xFFFF), Err(OutOfBounds));
    assert_eq!(write_u32(&mut buf, 5, 0xFFFF_FFFF), Err(OutOfBounds));
    assert_eq!(write_u32(&mut buf, usize::MAX - 1, 0), Err(OutOfBounds));
    assert_eq!(buf, before);
}

#[test]
fn ethertype_and_protocol() {
    let mut buf: Vec<u8> = vec![0; 24];
    buf[12] = 0x08;
    buf[13] = 0x00;
    buf[23] = 17;
    assert_eq!(parse_ethertype(&buf), Ok(0x0800));
    assert_eq!(parse_ip_protocol(&buf), Ok(17));
    buf[12] = 0x86;
    buf[13] = 0xDD;
    assert_eq!(parse_ethertype(&buf), Ok(0x86DD));
    buf.truncate(23);
    assert_eq!(parse_ip_protocol(&buf), Err(ParseError::ShortIp));
    buf.truncate(13);
    assert_eq!(parse_ethertype(&buf), Err(ParseError::ShortEthernet));
}

#[test]
fn header_views_need_their_whole_extent() {
    let buf = bytes(42);
    assert_eq!(ip_header_at(&buf, 14), Ok(IpHeaderRef { offset: 14 }));
    assert_eq!(ip_header_at(&buf, 22), Ok(IpHeaderRef { offset: 22 }));
    assert_eq!(ip_header_at(&buf, 23), Err(ParseError::ShortIp));
    assert_eq!(udp_header_at(&buf, 34), Ok(UdpHeaderRef { offset: 34 }));
    assert_eq!(udp_header_at(&buf, 35), Err(ParseError::ShortUdp));
    assert_eq!(udp_header_at(&buf, usize::MAX), Err(ParseError::ShortUdp));
}

#[test]
fn ip_header_fields() {
    let mut buf = bytes(42);
    let ip = IpHeaderRef { offset: 14 };
    assert_eq!(ip.protocol(&buf), Ok(buf[23]));
    assert_eq!(ip.check(&buf), Ok(u16::from_be_bytes([buf[24], buf[25]])));
    assert_eq!(
        ip.daddr(&buf),
        Ok(u32::from_be_bytes([buf[30], buf[31], buf[32], buf[33]]))
    );
    let before = buf.clone();
    assert_eq!(ip.set_daddr(&mut buf, 0x0102_0304), Ok(()));
    assert_eq!(&buf[30..34], &[1, 2, 3, 4]);
    assert_eq!(ip.set_check(&mut buf, 0xABCD), Ok(()));
    assert_eq!(&buf[24..26], &[0xAB, 0xCD]);
    assert_eq!(&buf[..24], &before[..24]);
    assert_eq!(&buf[26..30], &before[26..30]);
    assert_eq!(&buf[34..], &before[34..]);
}

#[test]
fn ip_header_view_past_the_end() {
    // The fields themselves would fit; the header does not.
    let mut buf = bytes(33);
    let before = buf.clone();
    let ip = IpHeaderRef { offset: 14 };
    assert_eq!(ip.protocol(&buf), Err(OutOfBounds));
    assert_eq!(ip.check(&buf), Err(OutOfBounds));
    assert_eq!(ip.daddr(&buf), Err(OutOfBounds));
    assert_eq!(ip.checksum(&buf), Err(OutOfBounds));
    assert_eq!(ip.set_check(&mut buf, 0), Err(OutOfBounds));
    assert_eq!(ip.set_daddr(&mut buf, 0), Err(OutOfBounds));
    assert_eq!(buf, before);
}

#[test]
fn udp_header_fields() {
    let mut buf = bytes(42);
    let udp = UdpHeaderRef { offset: 34 };
    assert_eq!(udp.dest(&buf), Ok(u16::from_be_bytes([buf[36], buf[37]])));
    let before = buf.clone();
    assert_eq!(udp.set_dest(&mut buf, 5353), Ok(()));
    assert_eq!(&buf[36..38], &[0x14, 0xE9]);
    assert_eq!(udp.set_check(&mut buf, 0), Ok(()));
    assert_eq!(&buf[40..42], &[0, 0]);
    assert_eq!(&buf[..36], &before[..36]);
    assert_eq!(&buf[38..40], &before[38..40]);
    buf.truncate(41);
    let before = buf.clone();
    assert_eq!(udp.dest(&buf), Err(OutOfBounds));
    assert_eq!(udp.set_dest(&mut buf, 1), Err(OutOfBounds));
    assert_eq!(udp.set_check(&mut buf, 1), Err(OutOfBounds));
    assert_eq!(buf, before);
}

#[test]
fn checksum_of_a_known_header() {
    // A header often used to show the computation; its checksum is 0xB861.
    let header: [u8; 20] = [
        0x45, 0x00, 0x00, 0x73, 0x00, 0x00, 0x40, 0x00, 0x40, 0x11, 0xB8, 0x61, 0xC0, 0xA8, 0x00,
        0x01, 0xC0, 0xA8, 0x00, 0xC7,
    ];
    let buf: Vec<u8> = header.to_vec();
    let ip = IpHeaderRef { offset: 0 };
    assert_eq!(ip.checksum(&buf), Ok(0xB861));
    assert_eq!(ip.check(&buf), Ok(0xB861));
    // The field itself is left out of the sum.
    let mut other = buf.clone();
    other[10] = 0;
    other[11] = 0;
    assert_eq!(ip.checksum(&other), Ok(0xB861));
    // All zero: the sum is zero and its complement all ones.
    assert_eq!(ip.checksum(&vec![0u8; 20]), Ok(0xFFFF));
}

#[test]
fn ethernet_header_fields() {
    let mut buf: Vec<u8> = vec![
        0x02, 0x11, 0x22, 0x33, 0x44, 0x55, 0x06, 0x77, 0x88, 0x99, 0xAA, 0xBB, 0x08, 0x00,
    ];
    let eth = EthHeaderRef { offset: 0 };
    assert_eq!(eth.dest(&buf), Ok([0x02, 0x11, 0x22, 0x33, 0x44, 0x55]));
    assert_eq!(eth.source(&buf), Ok([0x06, 0x77, 0x88, 0x99, 0xAA, 0xBB]));
    assert_eq!(eth.proto(&buf), Ok(0x0800));
    buf.truncate(13);
    assert_eq!(eth.dest(&buf), Err(OutOfBounds));
    assert_eq!(eth.source(&buf), Err(OutOfBounds));
    assert_eq!(eth.proto(&buf), Err(OutOfBounds));
}

#[test]
fn remaining_ip_and_udp_fields() {
    let header: [u8; 28] = [
        0x45, 0x00, 0x00, 0x73, 0x00, 0x00, 0x40, 0x00, 0x40, 0x11, 0xB8, 0x61, 0xC0, 0xA8, 0x00,
        0x01, 0xC0, 0xA8, 0x00, 0xC7, 0x9C, 0x40, 0x00, 0x35, 0x00, 0x5F, 0x12, 0x34,
    ];
    let buf: Vec<u8> = header.to_vec();
    let ip = IpHeaderRef { offset: 0 };
    let udp = UdpHeaderRef { offset: 20 };
    assert_eq!(ip.tot_len(&buf), Ok(0x0073));
    assert_eq!(ip.saddr(&buf), Ok(0xC0A8_0001));
    assert_eq!(ip.daddr(&buf), Ok(0xC0A8_00C7));
    assert_eq!(ip.protocol(&buf), Ok(17));
    assert_eq!(udp.source(&buf), Ok(40000));
    assert_eq!(udp.dest(&buf), Ok(53));
    assert_eq!(udp.len(&buf), Ok(95));
    assert_eq!(udp.check(&buf), Ok(0x1234));
    let short: Vec<u8> = header[..27].to_vec();
    assert_eq!(udp.source(&short), Err(OutOfBounds));
    assert_eq!(udp.len(&short), Err(OutOfBounds));
    assert_eq!(udp.check(&short), Err(OutOfBounds));
    let shorter: Vec<u8> = header[..19].to_vec();
    assert_eq!(ip.tot_len(&shorter), Err(OutOfBounds));
    assert_eq!(ip.saddr(&shorter), Err(OutOfBounds));
}
