//! Log-rotation policy: when the current log file has grown past the
//! configured size limit, a new file must be opened before the next write.

use vstd::prelude::*;
use crate::numfmt::{spec_dec, u64_to_dec};
use crate::packet::IPv4Packet;

verus! {

/// The size limit in bytes for a configured limit of `max_size_file` MiB.
pub open spec fn spec_size_limit(max_size_file: u32) -> int {
    max_size_file * 1024 * 1024
}

/// Decides whether the log must rotate before the next write: true exactly
/// when the current file size exceeds `max_size_file` MiB.
pub fn needs_rotation(current_size: u64, max_size_file: u32) -> (r: bool)
    ensures
        r == (current_size > spec_size_limit(max_size_file)),
{
    let limit: u64 = (max_size_file as u64) * 1024 * 1024;
    current_size > limit
}

/// The tab-separated log line of a decoded packet, newline-terminated, in the
/// fixed field order: environment, component name, host, direction, source
/// IP, destination IP, resource, correlation line, epoch seconds.
pub open spec fn spec_log_line(pk: IPv4Packet) -> Seq<char> {
    pk.environment@ + seq!['\t'] + pk.component_name@ + seq!['\t'] + pk.host_http@ + seq!['\t']
        + pk.direction@ + seq!['\t'] + pk.source_ip@ + seq!['\t'] + pk.destination_ip@
        + seq!['\t'] + pk.http_resource@ + seq!['\t'] + pk.linkedkey@ + seq!['\t'] + spec_dec(
        pk.time as int,
    ) + seq!['\n']
}

/// Formats one decoded packet as its log line.
pub fn format_log_line(ipv4_packet: &IPv4Packet) -> (r: String)
    ensures
        r@ == spec_log_line(*ipv4_packet),
{
    let ts = u64_to_dec(ipv4_packet.time);
    let mut s = String::new();
    s.append(ipv4_packet.environment.as_str());
    s.append("\t");
    s.append(ipv4_packet.component_name.as_str());
    s.append("\t");
    s.append(ipv4_packet.host_http.as_str());
    s.append("\t");
    s.append(ipv4_packet.direction.as_str());
    s.append("\t");
    s.append(ipv4_packet.source_ip.as_str());
    s.append("\t");
    s.append(ipv4_packet.destination_ip.as_str());
    s.append("\t");
    s.append(ipv4_packet.http_resource.as_str());
    s.append("\t");
    s.append(ipv4_packet.linkedkey.as_str());
    s.append("\t");
    s.append(ts.as_str());
    s.append("\n");
    proof {
        reveal_strlit("\t");
        reveal_strlit("\n");
        assert(s@ =~= spec_log_line(*ipv4_packet));
    }
    s
}

/// The name of a freshly rotated log file: the output folder, a fixed stem
/// with the component name, the timestamp text, and the `.lws` extension.
pub fn log_file_name(outputfolder: &str, component_name: &str, timestamp: &str) -> (r: String)
    ensures
        r@ == outputfolder@ + "output_"@ + component_name@ + "_"@ + timestamp@ + ".lws"@,
{
    let mut s = outputfolder.to_owned();
    s.append("output_");
    s.append(component_name);
    s.append("_");
    s.append(timestamp);
    s.append(".lws");
    proof {
        assert(s@ =~= outputfolder@ + "output_"@ + component_name@ + "_"@ + timestamp@
            + ".lws"@);
    }
    s
}

} // verus!
