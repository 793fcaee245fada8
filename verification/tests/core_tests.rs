use lws_sniffer::{
    adicionar_informacoes_extras, dotted_quad, extract_linkedkey, extract_resource_http,
    find_subarray, format_log_line, get_ipv4_header_length, is_interesting, log_file_name,
    needs_rotation, u64_to_dec, Config, EthernetFrame, Header, IPv4Packet, Interface, LogConfig,
    ServerConfig, SnifferConfig,
};

fn test_config(linkedkey: &str, ports: Vec<u16>) -> Config {
    Config {
        component_name: "comp".to_string(),
        server: ServerConfig {
            host_http: "host.example".to_string(),
            environment: "prod".to_string(),
            interface: Interface {
                name: "eth0".to_string(),
            },
            outputfolder: "/tmp/".to_string(),
        },
        sniffer: SnifferConfig {
            active: true,
            ports,
            log: LogConfig {
                max_size_file: 1,
                verbose: false,
            },
            header: Header {
                linkedkey: linkedkey.to_string(),
            },
        },
    }
}

/// An Ethernet frame around an IPv4/TCP packet: 14 bytes of link-layer
/// header, a 20-byte IPv4 header, 4 bytes of TCP ports, then the payload.
fn test_frame(src_port: u16, dst_port: u16, payload: &[u8]) -> Vec<u8> {
    let mut frame = vec![0u8; 12];
    frame.extend_from_slice(&[0x08, 0x00]); // EtherType IPv4
    let total_len = (24 + payload.len()) as u16;
    frame.push(0x45); // version 4, IHL 5 words = 20 bytes
    frame.push(0x00);
    frame.extend_from_slice(&total_len.to_be_bytes());
    frame.extend_from_slice(&[0x00, 0x00, 0x40, 0x00]); // id, flags/fragment
    frame.push(64); // ttl
    frame.push(6); // protocol TCP
    frame.extend_from_slice(&[0x00, 0x00]); // checksum
    frame.extend_from_slice(&[192, 168, 0, 1]); // source IP
    frame.extend_from_slice(&[10, 0, 0, 2]); // destination IP
    frame.extend_from_slice(&src_port.to_be_bytes());
    frame.extend_from_slice(&dst_port.to_be_bytes());
    frame.extend_from_slice(payload);
    frame
}

#[test]
fn frame_too_short_yields_none() {
    let cfg = test_config("X-Trace", vec![80, 443]);
    for n in 0..14 {
        let frame = vec![0u8; n];
        assert!(EthernetFrame::new(&frame, &cfg, 0).is_none());
    }
}

#[test]
fn non_ipv4_ethertype_yields_none() {
    let cfg = test_config("X-Trace", vec![80, 443]);
    let mut frame = test_frame(51000, 443, b"GET /status HTTP/1.1\r\n");
    frame[12] = 0x86;
    frame[13] = 0xDD; // IPv6
    assert!(EthernetFrame::new(&frame, &cfg, 0).is_none());
}

#[test]
fn wrong_version_nibble_yields_none() {
    let cfg = test_config("X-Trace", vec![80, 443]);
    let mut frame = test_frame(51000, 443, b"GET /status HTTP/1.1\r\n");
    frame[14] = 0x55; // version 5
    assert!(EthernetFrame::new(&frame, &cfg, 0).is_none());
    assert!(IPv4Packet::new(&frame[14..], &cfg, 0).is_none());
}

#[test]
fn non_tcp_protocol_yields_none() {
    let cfg = test_config("X-Trace", vec![80, 443]);
    let mut frame = test_frame(51000, 443, b"GET /status HTTP/1.1\r\n");
    frame[14 + 9] = 17; // UDP
    assert!(EthernetFrame::new(&frame, &cfg, 0).is_none());
}

#[test]
fn short_ipv4_payload_yields_none() {
    let cfg = test_config("X-Trace", vec![80, 443]);
    let payload = vec![0x45u8; 19];
    assert!(IPv4Packet::new(&payload, &cfg, 0).is_none());
}

#[test]
fn truncated_tcp_header_yields_none() {
    let cfg = test_config("X-Trace", vec![80, 443]);
    let frame = test_frame(51000, 443, b"GET /status HTTP/1.1\r\n");
    // Keep the IPv4 header but cut the frame before 4 bytes of TCP header.
    let cut = &frame[..14 + 22];
    assert!(EthernetFrame::new(cut, &cfg, 0).is_none());
}

#[test]
fn header_length_measured_and_validated() {
    let mut packet = vec![0u8; 20];
    packet[0] = 0x45;
    assert_eq!(get_ipv4_header_length(&packet), Some(20));
    packet[0] = 0x43; // 12 bytes, under the minimum
    assert_eq!(get_ipv4_header_length(&packet), None);
    packet[0] = 0x4F; // 60 bytes, past the end of a 20-byte packet
    assert_eq!(get_ipv4_header_length(&packet), None);
    assert_eq!(get_ipv4_header_length(&[0x45u8; 19]), None);
}

#[test]
fn port_filter_matches_either_port() {
    let ports = vec![80u16, 443];
    assert!(is_interesting(51000, 443, &ports));
    assert!(is_interesting(443, 51000, &ports));
    assert!(!is_interesting(51000, 51001, &ports));
    assert!(!is_interesting(80, 443, &Vec::new()));
}

#[test]
fn uninteresting_ports_drop_packet() {
    let cfg = test_config("X-Trace", vec![80, 443]);
    let frame = test_frame(51000, 51001, b"GET /status HTTP/1.1\r\n");
    assert!(EthernetFrame::new(&frame, &cfg, 0).is_none());
}

#[test]
fn find_subarray_leftmost() {
    assert_eq!(find_subarray(b"ababc", b"abc"), Some(2));
    assert_eq!(find_subarray(b"ababc", b"ab"), Some(0));
    assert_eq!(find_subarray(b"ababc", b""), None);
    assert_eq!(find_subarray(b"ab", b"abc"), None);
    assert_eq!(find_subarray(b"ababc", b"abd"), None);
}

#[test]
fn http_resource_from_get_request() {
    let r = extract_resource_http(b"GET /status HTTP/1.1\r\nHost: x\r\n\r\n");
    assert_eq!(r, Ok("/status".to_string()));
}

#[test]
fn post_without_crlf_fails() {
    let r = extract_resource_http(b"POST /abc HTTP/1.1");
    assert_eq!(r, Err("Cabecalho http nao encontrado.".to_string()));
}

#[test]
fn request_line_with_one_token_fails() {
    let r = extract_resource_http(b"GET\r\n");
    assert_eq!(r, Err("Cabecalho http nao encontrado.".to_string()));
}

#[test]
fn method_search_order_wins_over_offset() {
    // POST appears first in the bytes, but the GET search runs first.
    let r = extract_resource_http(b"POST /p HTTP/1.1 GET /g HTTP/1.1\r\n");
    assert_eq!(r, Ok("/g".to_string()));
}

#[test]
fn resource_with_multibyte_utf8_is_decoded() {
    let r = extract_resource_http(b"GET /caf\xc3\xa9 HTTP/1.1\r\n");
    assert_eq!(r, Ok("/caf\u{e9}".to_string()));
}

#[test]
fn linkedkey_line_includes_header_name() {
    let payload = b"GET / HTTP/1.1\r\nx-trace: abc123\r\n\r\n";
    let r = extract_linkedkey(payload, b"x-trace");
    assert_eq!(r, Ok("x-trace: abc123".to_string()));
}

#[test]
fn linkedkey_verbatim_search_is_case_sensitive() {
    let payload = b"GET / HTTP/1.1\r\nx-trace: abc123\r\n\r\n";
    let r = extract_linkedkey(payload, b"X-Trace");
    assert_eq!(r, Err("Linkedkey nao encontrado.".to_string()));
}

#[test]
fn linkedkey_without_terminator_fails() {
    let r = extract_linkedkey(b"x-trace: abc123", b"x-trace");
    assert_eq!(r, Err("Linkedkey nao encontrado.".to_string()));
}

#[test]
fn linkedkey_lowercase_fallback_in_decode() {
    let cfg = test_config("X-Trace", vec![80, 443]);
    let frame = test_frame(51000, 443, b"GET /status HTTP/1.1\r\nx-trace: abc123\r\n\r\n");
    let pk = EthernetFrame::new(&frame, &cfg, 0).unwrap();
    assert_eq!(pk.linkedkey, "x-trace: abc123");
}

#[test]
fn linkedkey_uppercase_fallback_in_decode() {
    let cfg = test_config("x-trace", vec![80, 443]);
    let frame = test_frame(51000, 443, b"GET /status HTTP/1.1\r\nX-TRACE: q\r\n\r\n");
    let pk = EthernetFrame::new(&frame, &cfg, 0).unwrap();
    assert_eq!(pk.linkedkey, "X-TRACE: q");
}

#[test]
fn missing_linkedkey_is_not_fatal() {
    let cfg = test_config("X-Trace", vec![80, 443]);
    let frame = test_frame(51000, 443, b"GET /status HTTP/1.1\r\nHost: x\r\n\r\n");
    let pk = EthernetFrame::new(&frame, &cfg, 0).unwrap();
    assert_eq!(pk.linkedkey, "");
    assert_eq!(pk.http_resource, "/status");
}

#[test]
fn missing_resource_drops_packet() {
    let cfg = test_config("X-Trace", vec![80, 443]);
    let frame = test_frame(51000, 443, b"no http request line here\r\n");
    assert!(EthernetFrame::new(&frame, &cfg, 0).is_none());
}

#[test]
fn decoded_fields_match_frame_bytes() {
    let cfg = test_config("X-Trace", vec![80, 443]);
    let frame = test_frame(51000, 443, b"GET /status HTTP/1.1\r\nx-trace: abc123\r\n\r\n");
    let pk = EthernetFrame::new(&frame, &cfg, 1717171717).unwrap();
    assert_eq!(pk.version, 4);
    assert_eq!(pk.header_length, 20);
    assert_eq!(pk.total_length, 24 + 41);
    assert_eq!(pk.ttl, 64);
    assert_eq!(pk.protocol, 6);
    assert_eq!(pk.source_ip, "192.168.0.1");
    assert_eq!(pk.destination_ip, "10.0.0.2");
    assert_eq!(pk.source_port, 51000);
    assert_eq!(pk.destination_port, 443);
    assert_eq!(pk.http_resource, "/status");
    assert_eq!(pk.linkedkey, "x-trace: abc123");
    assert_eq!(pk.time, 1717171717);
    assert_eq!(pk.server_ip, "");
    assert_eq!(pk.direction, "");
    assert_eq!(pk.component_name, "comp");
    assert_eq!(pk.environment, "prod");
    assert_eq!(pk.host_http, "host.example");
}

#[test]
fn decode_is_idempotent_except_time() {
    let cfg = test_config("X-Trace", vec![80, 443]);
    let frame = test_frame(51000, 443, b"GET /status HTTP/1.1\r\nx-trace: abc123\r\n\r\n");
    let a = EthernetFrame::new(&frame, &cfg, 10).unwrap();
    let b = EthernetFrame::new(&frame, &cfg, 20).unwrap();
    assert_eq!(a.version, b.version);
    assert_eq!(a.header_length, b.header_length);
    assert_eq!(a.total_length, b.total_length);
    assert_eq!(a.ttl, b.ttl);
    assert_eq!(a.protocol, b.protocol);
    assert_eq!(a.source_ip, b.source_ip);
    assert_eq!(a.destination_ip, b.destination_ip);
    assert_eq!(a.source_port, b.source_port);
    assert_eq!(a.destination_port, b.destination_port);
    assert_eq!(a.http_resource, b.http_resource);
    assert_eq!(a.linkedkey, b.linkedkey);
    assert_eq!(a.server_ip, b.server_ip);
    assert_eq!(a.direction, b.direction);
    assert_eq!(a.component_name, b.component_name);
    assert_eq!(a.environment, b.environment);
    assert_eq!(a.host_http, b.host_http);
    assert_eq!(a.time, 10);
    assert_eq!(b.time, 20);
}

#[test]
fn direction_out_when_source_is_listening_ip() {
    let cfg = test_config("X-Trace", vec![80, 443]);
    let frame = test_frame(51000, 443, b"GET /status HTTP/1.1\r\n\r\n");
    let mut pk = EthernetFrame::new(&frame, &cfg, 0).unwrap();
    let mut ip = "192.168.0.1".to_string();
    adicionar_informacoes_extras(&mut ip, &mut pk);
    assert_eq!(pk.direction, "OUT");
    assert_eq!(pk.server_ip, "192.168.0.1");
}

#[test]
fn direction_in_when_source_differs() {
    let cfg = test_config("X-Trace", vec![80, 443]);
    let frame = test_frame(51000, 443, b"GET /status HTTP/1.1\r\n\r\n");
    let mut pk = EthernetFrame::new(&frame, &cfg, 0).unwrap();
    let mut ip = "10.0.0.2".to_string();
    adicionar_informacoes_extras(&mut ip, &mut pk);
    assert_eq!(pk.direction, "IN");
    assert_eq!(pk.server_ip, "10.0.0.2");
}

#[test]
fn rotation_triggers_past_the_mib_limit() {
    assert!(needs_rotation(1024 * 1024 + 1, 1));
    assert!(!needs_rotation(1024 * 1024, 1));
    assert!(needs_rotation(1, 0));
    assert!(!needs_rotation(0, 0));
}

#[test]
fn log_line_is_tab_separated_in_fixed_order() {
    let cfg = test_config("X-Trace", vec![80, 443]);
    let frame = test_frame(51000, 443, b"GET /status HTTP/1.1\r\nx-trace: abc123\r\n\r\n");
    let mut pk = EthernetFrame::new(&frame, &cfg, 1717171717).unwrap();
    let mut ip = "10.9.9.9".to_string();
    adicionar_informacoes_extras(&mut ip, &mut pk);
    let line = format_log_line(&pk);
    assert_eq!(
        line,
        "prod\tcomp\thost.example\tIN\t192.168.0.1\t10.0.0.2\t/status\tx-trace: abc123\t1717171717\n"
    );
}

#[test]
fn log_file_name_has_folder_stem_and_extension() {
    let name = log_file_name("/var/log/", "comp", "20240101000000");
    assert_eq!(name, "/var/log/output_comp_20240101000000.lws");
}

#[test]
fn decimal_rendering_is_exact() {
    assert_eq!(u64_to_dec(0), "0");
    assert_eq!(u64_to_dec(7), "7");
    assert_eq!(u64_to_dec(255), "255");
    assert_eq!(u64_to_dec(1234567890), "1234567890");
    assert_eq!(dotted_quad(192, 168, 0, 1), "192.168.0.1");
    assert_eq!(dotted_quad(255, 255, 255, 255), "255.255.255.255");
    assert_eq!(dotted_quad(0, 0, 0, 0), "0.0.0.0");
}

#[test]
fn empty_second_token_is_returned_but_not_admitted() {
    // Two consecutive spaces make the second token empty.
    assert_eq!(extract_resource_http(b"GET  /x HTTP/1.1\r\n"), Ok(String::new()));
    let cfg = test_config("X-Trace", vec![80, 443]);
    let frame = test_frame(51000, 443, b"GET  /x HTTP/1.1\r\n");
    assert!(EthernetFrame::new(&frame, &cfg, 0).is_none());
}
