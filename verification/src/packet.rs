//! Frame and IPv4/TCP decoding: EtherType demultiplexing, IPv4 header
//! validation, TCP port filtering, and assembly of the record that is logged
//! for every admitted packet.

use vstd::prelude::*;
use vstd::utf8::encode_utf8;
use crate::extract::{
    extract_linkedkey, extract_resource_http, linkedkey_bytes, lossy_of, resource_bytes,
};
use crate::numfmt::{dotted_quad, spec_quad};

verus! {

/// Process-wide configuration, loaded once at startup and never mutated.
#[derive(Debug)]
pub struct Config {
    pub component_name: String,
    pub server: ServerConfig,
    pub sniffer: SnifferConfig,
}

#[derive(Debug)]
pub struct ServerConfig {
    pub host_http: String,
    pub environment: String,
    pub interface: Interface,
    pub outputfolder: String,
}

#[derive(Debug)]
pub struct SnifferConfig {
    pub active: bool,
    pub ports: Vec<u16>,
    pub log: LogConfig,
    pub header: Header,
}

#[derive(Debug)]
pub struct Header {
    pub linkedkey: String,
}

#[derive(Debug)]
pub struct Interface {
    pub name: String,
}

#[derive(Debug)]
pub struct LogConfig {
    pub max_size_file: u32,
    pub verbose: bool,
}

/// One decoded, admitted packet, ready to be formatted into a log line.
#[derive(Debug)]
pub struct IPv4Packet {
    pub version: u8,
    pub header_length: u8,
    pub total_length: u16,
    pub ttl: u8,
    pub protocol: u8,
    pub source_ip: String,
    pub destination_ip: String,
    pub source_port: u16,
    pub destination_port: u16,
    pub http_resource: String,
    pub time: u64,
    pub server_ip: String,
    pub direction: String,
    pub linkedkey: String,
    pub component_name: String,
    pub environment: String,
    pub host_http: String,
}

/// The big-endian 16-bit value of two bytes.
pub open spec fn spec_be16(hi: u8, lo: u8) -> u16 {
    (hi * 256 + lo) as u16
}

fn be16(hi: u8, lo: u8) -> (r: u16)
    ensures
        r == spec_be16(hi, lo),
{
    (hi as u16) * 256 + (lo as u16)
}

/// The version nibble: the high four bits of the first header byte.
pub open spec fn spec_version(p: Seq<u8>) -> u8 {
    (p[0] >> 4) & 0x0F
}

/// The header length in bytes: the low four bits of the first header byte,
/// in 32-bit words.
pub open spec fn spec_ihl(p: Seq<u8>) -> int {
    (p[0] & 0x0F) * 4
}

/// The protocol byte at offset 9; 6 is TCP.
pub open spec fn spec_protocol(p: Seq<u8>) -> u8 {
    p[9]
}

pub open spec fn header_length_ok(p: Seq<u8>) -> bool {
    p.len() >= 20 && 20 <= spec_ihl(p) && spec_ihl(p) <= p.len()
}

/// Measures and validates the IPv4 header: at least 20 bytes of input, a
/// header length of at least 20 bytes that lies within the input.
pub fn get_ipv4_header_length(packet: &[u8]) -> (r: Option<usize>)
    ensures
        r is Some <==> header_length_ok(packet@),
        r matches Some(h) ==> h == spec_ihl(packet@),
{
    if packet.len() < 20 {
        return None;
    }
    let first_byte = packet[0];
    let ihl = first_byte & 0x0F;
    let header_length = ihl as usize * 4;
    if header_length < 20 || header_length > packet.len() {
        return None;
    }
    Some(header_length)
}

/// True exactly when either port is in the allow-list.
pub fn is_interesting(source_port: u16, destination_port: u16, ports: &Vec<u16>) -> (r: bool)
    ensures
        r == (ports@.contains(source_port) || ports@.contains(destination_port)),
{
    let n = ports.len();
    let mut i: usize = 0;
    while i < n
        invariant
            n == ports@.len(),
            i <= n,
            forall|k: int|
                0 <= k < i ==> ports@[k] != source_port && ports@[k] != destination_port,
        decreases n - i,
    {
        let port = ports[i];
        if port == destination_port || port == source_port {
            proof {
                assert(ports@[i as int] == port);
            }
            return true;
        }
        i += 1;
    }
    proof {
        if ports@.contains(source_port) {
            let k = choose|k: int| 0 <= k < ports@.len() && ports@[k] == source_port;
            assert(ports@[k] == source_port);
        }
        if ports@.contains(destination_port) {
            let k = choose|k: int| 0 <= k < ports@.len() && ports@[k] == destination_port;
            assert(ports@[k] == destination_port);
        }
    }
    false
}

/// The characters of str::to_uppercase on the given characters.
pub uninterp spec fn upper_of(s: Seq<char>) -> Seq<char>;

/// Relies on str::to_uppercase: the result is a function of the characters
/// alone.
#[verifier::external_body]
fn to_upper(s: &str) -> (r: String)
    ensures
        r@ == upper_of(s@),
{
    s.to_uppercase()
}

/// The characters of str::to_lowercase on the given characters.
pub uninterp spec fn lower_of(s: Seq<char>) -> Seq<char>;

/// Relies on str::to_lowercase: the result is a function of the characters
/// alone.
#[verifier::external_body]
fn to_lower(s: &str) -> (r: String)
    ensures
        r@ == lower_of(s@),
{
    s.to_lowercase()
}

/// The extracted resource-path text of `p`: empty when no request line is
/// found.
pub open spec fn spec_resource(p: Seq<u8>) -> Seq<char> {
    match resource_bytes(p) {
        Some(b) => lossy_of(b),
        None => Seq::empty(),
    }
}

/// The correlation line of `p` for the configured header name `key`: the
/// name is tried verbatim, then all-uppercase, then all-lowercase, and the
/// first line found wins; empty when all three searches fail.
pub open spec fn spec_linkedkey(p: Seq<u8>, key: Seq<char>) -> Seq<char> {
    match linkedkey_bytes(p, encode_utf8(key)) {
        Some(b) => lossy_of(b),
        None => match linkedkey_bytes(p, encode_utf8(upper_of(key))) {
            Some(b) => lossy_of(b),
            None => match linkedkey_bytes(p, encode_utf8(lower_of(key))) {
                Some(b) => lossy_of(b),
                None => Seq::empty(),
            },
        },
    }
}

/// The payload `p` of an IPv4 packet is admitted: well-formed IPv4 header,
/// version 4, TCP, four readable bytes of TCP header, a port of interest,
/// and a non-empty extracted resource path.
pub open spec fn admits(p: Seq<u8>, ports: Seq<u16>) -> bool {
    &&& p.len() >= 20
    &&& spec_version(p) == 4
    &&& 20 <= spec_ihl(p) && spec_ihl(p) <= p.len()
    &&& spec_protocol(p) == 6
    &&& spec_ihl(p) + 4 <= p.len()
    &&& {
        let sp = spec_be16(p[spec_ihl(p)], p[spec_ihl(p) + 1]);
        let dp = spec_be16(p[spec_ihl(p) + 2], p[spec_ihl(p) + 3]);
        ports.contains(sp) || ports.contains(dp)
    }
    &&& spec_resource(p).len() > 0
}

/// Every field of `pk` is what decoding the IPv4 payload `p` under `cfg` at
/// capture time `time` yields.
pub open spec fn decoded_ok(pk: IPv4Packet, p: Seq<u8>, cfg: Config, time: u64) -> bool {
    &&& pk.version == spec_version(p)
    &&& pk.header_length as int == spec_ihl(p)
    &&& pk.total_length == spec_be16(p[2], p[3])
    &&& pk.ttl == p[8]
    &&& pk.protocol == spec_protocol(p)
    &&& pk.source_ip@ == spec_quad(p[12], p[13], p[14], p[15])
    &&& pk.destination_ip@ == spec_quad(p[16], p[17], p[18], p[19])
    &&& pk.source_port == spec_be16(p[spec_ihl(p)], p[spec_ihl(p) + 1])
    &&& pk.destination_port == spec_be16(p[spec_ihl(p) + 2], p[spec_ihl(p) + 3])
    &&& pk.http_resource@ == spec_resource(p)
    &&& pk.time == time
    &&& pk.server_ip@ == Seq::<char>::empty()
    &&& pk.direction@ == Seq::<char>::empty()
    &&& pk.linkedkey@ == spec_linkedkey(p, cfg.sniffer.header.linkedkey@)
    &&& pk.component_name@ == cfg.component_name@
    &&& pk.environment@ == cfg.server.environment@
    &&& pk.host_http@ == cfg.server.host_http@
}

impl IPv4Packet {
    /// Decodes an IPv4 payload and admits it when it is a TCP packet on a
    /// port of interest whose bytes hold an HTTP request line. `time` is the
    /// capture instant in epoch seconds, sampled by the caller per packet.
    pub fn new(packet: &[u8], config: &Config, time: u64) -> (r: Option<IPv4Packet>)
        ensures
            r is Some <==> admits(packet@, config.sniffer.ports@),
            r matches Some(pk) ==> decoded_ok(pk, packet@, *config, time),
            spec_version(packet@) != 4 ==> r is None,
            spec_protocol(packet@) != 6 ==> r is None,
    {
        if packet.len() < 20 {
            return None;
        }
        let version = (packet[0] >> 4) & 0x0F;
        if version != 4 {
            return None;
        }
        let header_length: usize = match get_ipv4_header_length(packet) {
            Some(h) => h,
            None => {
                return None;
            },
        };
        proof {
            let b = packet@[0];
            assert((b & 0x0F) < 16) by (bit_vector);
        }
        let total_length = be16(packet[2], packet[3]);
        let ttl = packet[8];
        let protocol = packet[9];
        let source_ip = dotted_quad(packet[12], packet[13], packet[14], packet[15]);
        let destination_ip = dotted_quad(packet[16], packet[17], packet[18], packet[19]);

        if protocol != 6 {
            return None;
        }
        if packet.len() - header_length < 4 {
            return None;
        }
        let source_port = be16(packet[header_length], packet[header_length + 1]);
        let destination_port = be16(packet[header_length + 2], packet[header_length + 3]);

        if !is_interesting(source_port, destination_port, &config.sniffer.ports) {
            return None;
        }
        let txt_resource = match extract_resource_http(packet) {
            Ok(http_string) => http_string,
            Err(_e) => String::new(),
        };

        let upper_key = to_upper(config.sniffer.header.linkedkey.as_str());
        let lower_key = to_lower(config.sniffer.header.linkedkey.as_str());
        let linkedkey: String = match extract_linkedkey(
            packet,
            config.sniffer.header.linkedkey.as_str().as_bytes(),
        ) {
            Ok(str_found) => str_found,
            Err(_e) => match extract_linkedkey(packet, upper_key.as_str().as_bytes()) {
                Ok(str_found) => str_found,
                Err(_e) => match extract_linkedkey(packet, lower_key.as_str().as_bytes()) {
                    Ok(str_found) => str_found,
                    Err(_e) => String::new(),
                },
            },
        };

        if !txt_resource.as_str().is_empty() {
            Some(
                IPv4Packet {
                    version,
                    header_length: header_length as u8,
                    total_length,
                    ttl,
                    protocol,
                    source_ip,
                    destination_ip,
                    source_port,
                    destination_port,
                    http_resource: txt_resource,
                    time,
                    server_ip: String::new(),
                    direction: String::new(),
                    linkedkey,
                    component_name: config.component_name.clone(),
                    environment: config.server.environment.clone(),
                    host_http: config.server.host_http.clone(),
                },
            )
        } else {
            None
        }
    }
}

/// Stateless decoder for link-layer frames; only IPv4 payloads are handled.
#[derive(Debug)]
pub struct EthernetFrame;

impl EthernetFrame {
    /// Decodes a raw link-layer frame: reads the EtherType at offset 12 and,
    /// for IPv4 frames, decodes the bytes past the 14-byte link-layer header.
    /// Frames shorter than 14 bytes and every other EtherType yield nothing.
    pub fn new(packet: &[u8], config: &Config, time: u64) -> (r: Option<IPv4Packet>)
        ensures
            packet@.len() < 14 ==> r is None,
            packet@.len() >= 14 && spec_be16(packet@[12], packet@[13]) != 0x0800 ==> r is None,
            r is Some <==> (packet@.len() >= 14 && spec_be16(packet@[12], packet@[13]) == 0x0800
                && admits(
                packet@.subrange(14, packet@.len() as int),
                config.sniffer.ports@,
            )),
            r matches Some(pk) ==> decoded_ok(
                pk,
                packet@.subrange(14, packet@.len() as int),
                *config,
                time,
            ),
    {
        if packet.len() < 14 {
            return None;
        }
        let ether_type = be16(packet[12], packet[13]);
        let plen = packet.len();

        match ether_type {
            0x0800 => IPv4Packet::new(&packet[14..plen], config, time),
            0x86DD => {
                // IPv6 is recognized but not decoded.
                None
            },
            _ => None,
        }
    }
}

/// Fills in the fields that depend on the listening interface: the server IP,
/// and the direction, `"OUT"` for packets whose source is the listening IP and
/// `"IN"` for all others. Every other field is left as it was.
pub fn adicionar_informacoes_extras(ip_addres: &mut String, ipv4_packet: &mut IPv4Packet)
    ensures
        final(ip_addres)@ == old(ip_addres)@,
        final(ipv4_packet).server_ip@ == old(ip_addres)@,
        final(ipv4_packet).direction@ == (if old(ip_addres)@ == old(ipv4_packet).source_ip@ {
            "OUT"@
        } else {
            "IN"@
        }),
        final(ipv4_packet).version == old(ipv4_packet).version,
        final(ipv4_packet).header_length == old(ipv4_packet).header_length,
        final(ipv4_packet).total_length == old(ipv4_packet).total_length,
        final(ipv4_packet).ttl == old(ipv4_packet).ttl,
        final(ipv4_packet).protocol == old(ipv4_packet).protocol,
        final(ipv4_packet).source_ip@ == old(ipv4_packet).source_ip@,
        final(ipv4_packet).destination_ip@ == old(ipv4_packet).destination_ip@,
        final(ipv4_packet).source_port == old(ipv4_packet).source_port,
        final(ipv4_packet).destination_port == old(ipv4_packet).destination_port,
        final(ipv4_packet).http_resource@ == old(ipv4_packet).http_resource@,
        final(ipv4_packet).time == old(ipv4_packet).time,
        final(ipv4_packet).linkedkey@ == old(ipv4_packet).linkedkey@,
        final(ipv4_packet).component_name@ == old(ipv4_packet).component_name@,
        final(ipv4_packet).environment@ == old(ipv4_packet).environment@,
        final(ipv4_packet).host_http@ == old(ipv4_packet).host_http@,
{
    ipv4_packet.server_ip = ip_addres.clone();
    ipv4_packet.direction = if *ip_addres == ipv4_packet.source_ip {
        "OUT".to_owned()
    } else {
        "IN".to_owned()
    };
}

/// Decoding the same raw frame bytes twice yields field-for-field identical
/// packets, except for the capture time, which is sampled once per decode.
pub proof fn lemma_decode_idempotent(
    pk1: IPv4Packet,
    pk2: IPv4Packet,
    frame: Seq<u8>,
    cfg: Config,
    t1: u64,
    t2: u64,
)
    requires
        frame.len() >= 14,
        decoded_ok(pk1, frame.subrange(14, frame.len() as int), cfg, t1),
        decoded_ok(pk2, frame.subrange(14, frame.len() as int), cfg, t2),
    ensures
        pk1.version == pk2.version,
        pk1.header_length == pk2.header_length,
        pk1.total_length == pk2.total_length,
        pk1.ttl == pk2.ttl,
        pk1.protocol == pk2.protocol,
        pk1.source_ip@ == pk2.source_ip@,
        pk1.destination_ip@ == pk2.destination_ip@,
        pk1.source_port == pk2.source_port,
        pk1.destination_port == pk2.destination_port,
        pk1.http_resource@ == pk2.http_resource@,
        pk1.server_ip@ == pk2.server_ip@,
        pk1.direction@ == pk2.direction@,
        pk1.linkedkey@ == pk2.linkedkey@,
        pk1.component_name@ == pk2.component_name@,
        pk1.environment@ == pk2.environment@,
        pk1.host_http@ == pk2.host_http@,
        pk1.time == t1,
        pk2.time == t2,
{
}

} // verus!
