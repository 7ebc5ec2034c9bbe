use mwand::checksum::internet_checksum;
use mwand::icmp::{echo_request, is_echo_reply};
use mwand::probe::{ProbeSchedule, ProbeVerdict};
use mwand::router::IpFamily;

#[test]
fn test_checksum_calculation() {
    let data = [
        0x08, 0x00, 0x00, 0x00, // Type 8, Code 0, Checksum 0
        0x12, 0x34, 0x00, 0x01, // ID, Seq
        b'T', b'E', b'S', b'T', // Payload
    ];
    let csum = internet_checksum(&data);
    assert_ne!(csum, 0);

    let mut verified = data.to_vec();
    verified[2..4].copy_from_slice(&csum.to_be_bytes());
    assert_eq!(internet_checksum(&verified), 0);
}

#[test]
fn checksum_of_rfc1071_example() {
    // RFC 1071 section 3: the words 0001 f203 f4f5 f6f7 sum (with carries folded) to ddf2.
    let data = [0x00, 0x01, 0xf2, 0x03, 0xf4, 0xf5, 0xf6, 0xf7];
    assert_eq!(internet_checksum(&data), !0xddf2u16);
    assert_eq!(internet_checksum(&data), 0x220d);
}

#[test]
fn checksum_of_empty_and_odd_data() {
    assert_eq!(internet_checksum(&[]), 0xffff);
    // A last odd byte counts as the high byte of a word.
    assert_eq!(internet_checksum(&[0x12]), !0x1200u16);
    assert_eq!(internet_checksum(&[0x12, 0x34, 0x56]), !(0x1234u16 + 0x5600));
}

#[test]
fn checksum_folds_carries() {
    // 0xffff + 0x0002 = 0x10001, folded to 0x0002.
    assert_eq!(internet_checksum(&[0xff, 0xff, 0x00, 0x02]), !0x0002u16);
    // An all-ones sum folds to 0xffff and checks to zero.
    assert_eq!(internet_checksum(&[0xff, 0xff]), 0);
}

#[test]
fn checksum_written_back_checks_to_zero() {
    let mut data = vec![0xab, 0xcd, 0x00, 0x00, 0x01, 0x02, 0x03];
    let csum = internet_checksum(&data);
    data[2..4].copy_from_slice(&csum.to_be_bytes());
    assert_eq!(internet_checksum(&data), 0);
}

#[test]
fn echo_request_v4_layout() {
    let packet = echo_request(IpFamily::V4, 0x1234, 0x0001);
    assert_eq!(packet.len(), 8 + 27);
    assert_eq!(packet[0], 8);
    assert_eq!(packet[1], 0);
    assert_eq!(&packet[4..8], &[0x12, 0x34, 0x00, 0x01]);
    assert_eq!(&packet[8..], b"mwand-probe-health-check-v4");
    assert_ne!(&packet[2..4], &[0, 0]);
    assert_eq!(internet_checksum(&packet), 0);
    let mut zeroed = packet.clone();
    zeroed[2] = 0;
    zeroed[3] = 0;
    assert_eq!(internet_checksum(&zeroed).to_be_bytes(), [packet[2], packet[3]]);
}

#[test]
fn echo_request_v6_layout() {
    let packet = echo_request(IpFamily::V6, 0xbeef, 0x0203);
    assert_eq!(packet.len(), 35);
    assert_eq!(&packet[0..8], &[128, 0, 0, 0, 0xbe, 0xef, 0x02, 0x03]);
    assert_eq!(&packet[8..], b"mwand-probe-health-check-v6");
}

fn ipv4_reply(ihl_words: u8, ty: u8, code: u8, id: u16, seq: u16) -> Vec<u8> {
    let mut v = vec![0u8; (ihl_words as usize) * 4];
    v[0] = 0x40 | ihl_words;
    v.push(ty);
    v.push(code);
    v.extend_from_slice(&[0, 0]);
    v.extend_from_slice(&id.to_be_bytes());
    v.extend_from_slice(&seq.to_be_bytes());
    v
}

#[test]
fn raw_v4_reply_matching() {
    let reply = ipv4_reply(5, 0, 0, 0x1234, 7);
    assert!(is_echo_reply(IpFamily::V4, true, &reply, 0x1234, 7));
    assert!(!is_echo_reply(IpFamily::V4, true, &reply, 0x1235, 7));
    assert!(!is_echo_reply(IpFamily::V4, true, &reply, 0x1234, 8));
    // An echo request (type 8) is no reply.
    assert!(!is_echo_reply(IpFamily::V4, true, &ipv4_reply(5, 8, 0, 0x1234, 7), 0x1234, 7));
    // A header with options is skipped by its length.
    let long = ipv4_reply(6, 0, 0, 9, 10);
    assert!(is_echo_reply(IpFamily::V4, true, &long, 9, 10));
    // Too short for an IPv4 header and an echo header.
    assert!(!is_echo_reply(IpFamily::V4, true, &reply[..27], 0x1234, 7));
}

#[test]
fn raw_v4_reply_shorter_than_its_header_length() {
    let mut reply = ipv4_reply(5, 0, 0, 1, 2);
    reply[0] = 0x4f; // header claims 60 bytes
    assert!(!is_echo_reply(IpFamily::V4, true, &reply, 1, 2));
}

#[test]
fn dgram_v4_reply_ignores_identifier() {
    let reply = [0, 0, 0, 0, 0x99, 0x99, 0x00, 0x05];
    assert!(is_echo_reply(IpFamily::V4, false, &reply, 0x1234, 5));
    assert!(!is_echo_reply(IpFamily::V4, false, &reply, 0x1234, 6));
    assert!(!is_echo_reply(IpFamily::V4, false, &reply[..7], 0x1234, 5));
}

#[test]
fn v6_reply_matching() {
    let reply = [129, 0, 0, 0, 0x12, 0x34, 0x00, 0x05];
    assert!(is_echo_reply(IpFamily::V6, true, &reply, 0x1234, 5));
    assert!(is_echo_reply(IpFamily::V6, false, &reply, 0x1234, 5));
    assert!(!is_echo_reply(IpFamily::V6, true, &reply, 0x1233, 5));
    assert!(!is_echo_reply(IpFamily::V6, true, &[128, 0, 0, 0, 0x12, 0x34, 0, 5], 0x1234, 5));
    assert!(!is_echo_reply(IpFamily::V6, true, &[129, 1, 0, 0, 0x12, 0x34, 0, 5], 0x1234, 5));
}

#[test]
fn probe_schedule_sends_at_least_one_probe() {
    let mut s = ProbeSchedule::new(0);
    assert_eq!(s.limit, 1);
    assert!(s.has_probes_left());
    assert_eq!(s.record(false), ProbeVerdict::Unhealthy);
    assert!(!s.has_probes_left());
}

#[test]
fn probe_schedule_stops_at_first_success() {
    let mut s = ProbeSchedule::new(3);
    assert_eq!(s.record(false), ProbeVerdict::ProbeAgain);
    assert_eq!(s.record(true), ProbeVerdict::Healthy);
    assert_eq!(s.attempts, 2);
}

#[test]
fn probe_schedule_gives_up_after_count_failures() {
    let mut s = ProbeSchedule::new(3);
    assert_eq!(s.record(false), ProbeVerdict::ProbeAgain);
    assert_eq!(s.record(false), ProbeVerdict::ProbeAgain);
    assert_eq!(s.record(false), ProbeVerdict::Unhealthy);
    assert_eq!(s.attempts, 3);
}

#[test]
fn reply_to_own_probe_is_recognised() {
    for (family, reply_type) in [(IpFamily::V4, 0u8), (IpFamily::V6, 129u8)] {
        let mut reply = echo_request(family, 0x0102, 0x0304);
        reply[0] = reply_type;
        assert!(is_echo_reply(family, false, &reply, 0x0102, 0x0304));
    }
    let mut reply = echo_request(IpFamily::V6, 0x0102, 0x0304);
    reply[0] = 129;
    assert!(is_echo_reply(IpFamily::V6, true, &reply, 0x0102, 0x0304));
    // The request itself is not a reply.
    let request = echo_request(IpFamily::V4, 0x0102, 0x0304);
    assert!(!is_echo_reply(IpFamily::V4, false, &request, 0x0102, 0x0304));
}

#[test]
fn reply_behind_ip_header_is_recognised() {
    let mut message = vec![0u8; 24];
    message[0] = 0x46; // version 4, header of six 32-bit words
    let mut reply = echo_request(IpFamily::V4, 0xabcd, 9);
    reply[0] = 0;
    message.extend_from_slice(&reply);
    assert!(is_echo_reply(IpFamily::V4, true, &message, 0xabcd, 9));
    assert!(!is_echo_reply(IpFamily::V4, true, &message, 0xabcd, 10));
}
