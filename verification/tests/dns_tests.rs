use butterfly::config::AP_IP_OCTETS;
use butterfly::dns::{create_dns_response, extract_domain_name, simple_dns_footer, simple_dns_reply};

fn query_a_bc() -> Vec<u8> {
    vec![
        0x12, 0x34, 0x01, 0x00, 0x00, 0x01, 0x00, 0x00, 0x00, 0x00, 0x00, 0x00, // header
        1, b'a', 2, b'b', b'c', 0, // name
        0x00, 0x01, 0x00, 0x01, // type A, class IN
    ]
}

#[test]
fn dns_response_answers_with_portal_address() {
    let q = query_a_bc();
    let r = create_dns_response(&q, AP_IP_OCTETS).expect("response");
    let mut expected = vec![0x12, 0x34, 0x81, 0x80, 0x00, 0x01, 0x00, 0x01, 0x00, 0x00, 0x00, 0x00];
    expected.extend_from_slice(&q[12..22]);
    expected.extend_from_slice(&[0xC0, 0x0C, 0x00, 0x01, 0x00, 0x01, 0x00, 0x00, 0x00, 0x3C, 0x00, 0x04]);
    expected.extend_from_slice(&[192, 168, 71, 1]);
    assert_eq!(r, expected);
}

#[test]
fn dns_response_drops_trailing_bytes_after_question() {
    let mut q = query_a_bc();
    q.extend_from_slice(&[9, 9, 9]);
    let r = create_dns_response(&q, [10, 0, 0, 1]).expect("response");
    assert_eq!(r.len(), 12 + 10 + 16);
    assert_eq!(&r[r.len() - 4..], &[10, 0, 0, 1]);
}

#[test]
fn dns_response_rejects_short_or_truncated_queries() {
    assert_eq!(create_dns_response(&[0u8; 11], AP_IP_OCTETS), None);
    let mut q = query_a_bc()[..12].to_vec();
    q.extend_from_slice(&[5, b'a']);
    assert_eq!(create_dns_response(&q, AP_IP_OCTETS), None);
    // name ends but type/class are missing
    let q2 = query_a_bc()[..19].to_vec();
    assert_eq!(create_dns_response(&q2, AP_IP_OCTETS), None);
}

#[test]
fn dns_response_to_bare_header_has_empty_question() {
    let q = [0xAB, 0xCD, 0, 0, 0, 0, 0, 0, 0, 0, 0, 0];
    let r = create_dns_response(&q, [1, 2, 3, 4]).expect("response");
    assert_eq!(r.len(), 28);
    assert_eq!(&r[0..4], &[0xAB, 0xCD, 0x81, 0x80]);
    assert_eq!(&r[12..14], &[0xC0, 0x0C]);
}

#[test]
fn domain_name_of_query() {
    assert_eq!(extract_domain_name(&query_a_bc()), Some("a.bc".to_string()));
    assert_eq!(extract_domain_name(&query_a_bc()[..12]), None);
    let mut empty = query_a_bc()[..12].to_vec();
    empty.push(0);
    assert_eq!(extract_domain_name(&empty), None);
    let mut cut = query_a_bc()[..12].to_vec();
    cut.extend_from_slice(&[3, b'a', b'b']);
    assert_eq!(extract_domain_name(&cut), None);
}

#[test]
fn domain_name_replaces_invalid_utf8() {
    let mut q = query_a_bc()[..12].to_vec();
    q.extend_from_slice(&[2, 0xFF, b'x', 0]);
    assert_eq!(extract_domain_name(&q), Some("\u{FFFD}x".to_string()));
}

#[test]
fn simple_reply_rewrites_header_and_appends_footer() {
    let footer = simple_dns_footer(AP_IP_OCTETS);
    assert_eq!(footer, [0xc0, 0x0c, 0x00, 0x01, 0x00, 0x01, 0x00, 0x00, 0x00, 0x0a, 0x00, 0x04, 192, 168, 71, 1]);
    let q = query_a_bc();
    let r = simple_dns_reply(&q, &footer).expect("reply");
    assert_eq!(r.len(), q.len() + 16);
    assert_eq!(&r[0..8], &[0x12, 0x34, 0x81, 0x80, 0x00, 0x01, 0x00, 0x01]);
    assert_eq!(&r[8..q.len()], &q[8..]);
    assert_eq!(&r[q.len()..], &footer);
}

#[test]
fn simple_reply_ignores_oversized_queries() {
    let footer = simple_dns_footer(AP_IP_OCTETS);
    assert_eq!(simple_dns_reply(&[0u8; 101], &footer), None);
    assert!(simple_dns_reply(&[0u8; 100], &footer).is_some());
}

#[test]
fn domain_name_of_utf8_labels() {
    let mut q = vec![0u8; 12];
    for label in ["café", "example", "com"] {
        q.push(label.len() as u8);
        q.extend_from_slice(label.as_bytes());
    }
    q.extend_from_slice(&[0, 0, 1, 0, 1]);
    assert_eq!(extract_domain_name(&q), Some("café.example.com".to_string()));
}
