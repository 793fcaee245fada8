//! Passive HTTP traffic sniffer core: frame and IPv4/TCP decoding, port
//! filtering, HTTP resource and correlation-header extraction, and the
//! log-line formatting and rotation policy that bound the output file size.

mod extract;
mod logfile;
mod numfmt;
mod packet;
mod scan;

pub use extract::{extract_linkedkey, extract_resource_http, lemma_post_without_crlf_fails};
pub use logfile::{format_log_line, log_file_name, needs_rotation};
pub use numfmt::{dotted_quad, u64_to_dec};
pub use packet::{
    adicionar_informacoes_extras, get_ipv4_header_length, is_interesting, lemma_decode_idempotent,
    Config, EthernetFrame, Header, IPv4Packet, Interface, LogConfig, ServerConfig, SnifferConfig,
};
pub use scan::find_subarray;
