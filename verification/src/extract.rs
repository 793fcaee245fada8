//! Extraction of application-level signals from a packet's bytes: the HTTP
//! resource path out of the request line, and the raw line of a configured
//! correlation header.

use vstd::prelude::*;
use crate::scan::{find_subarray, lemma_find_first, match_at, spec_find};

verus! {

pub open spec fn get_bytes() -> Seq<u8> {
    seq![71u8, 69u8, 84u8]
}

pub open spec fn post_bytes() -> Seq<u8> {
    seq![80u8, 79u8, 83u8, 84u8]
}

pub open spec fn put_bytes() -> Seq<u8> {
    seq![80u8, 85u8, 84u8]
}

pub open spec fn delete_bytes() -> Seq<u8> {
    seq![68u8, 69u8, 76u8, 69u8, 84u8, 69u8]
}

pub open spec fn crlf_bytes() -> Seq<u8> {
    seq![13u8, 10u8]
}

pub open spec fn space_bytes() -> Seq<u8> {
    seq![32u8]
}

/// The characters that a lenient UTF-8 decoding of `bytes` yields, with
/// invalid sequences substituted rather than rejected.
pub uninterp spec fn lossy_of(bytes: Seq<u8>) -> Seq<char>;

/// Relies on String::from_utf8_lossy: the decoding is a function of the bytes
/// alone, and bytes that are all ASCII are valid UTF-8 and decode to their own
/// characters.
#[verifier::external_body]
fn lossy_utf8(bytes: &[u8]) -> (r: String)
    ensures
        r@ == lossy_of(bytes@),
        (forall|i: int| 0 <= i < bytes@.len() ==> bytes@[i] < 128) ==> r@ == bytes@.map_values(
            |b: u8| b as char,
        ),
{
    String::from_utf8_lossy(bytes).into_owned()
}

/// Offset of the HTTP method keyword in `p`, searched in the precedence order
/// GET, POST, PUT, DELETE: the first keyword found wins, not the leftmost
/// offset across keywords.
pub open spec fn method_index(p: Seq<u8>) -> Option<int> {
    if spec_find(p, get_bytes()) is Some {
        spec_find(p, get_bytes())
    } else if spec_find(p, post_bytes()) is Some {
        spec_find(p, post_bytes())
    } else if spec_find(p, put_bytes()) is Some {
        spec_find(p, put_bytes())
    } else {
        spec_find(p, delete_bytes())
    }
}

/// Byte content of the second token of `line` when split on single spaces;
/// `None` when the line has fewer than two tokens.
pub open spec fn second_token(line: Seq<u8>) -> Option<Seq<u8>> {
    match spec_find(line, space_bytes()) {
        Some(sp) => {
            let rest = line.subrange(sp + 1, line.len() as int);
            match spec_find(rest, space_bytes()) {
                Some(sp2) => Some(rest.subrange(0, sp2)),
                None => Some(rest),
            }
        },
        None => None,
    }
}

/// Bytes of the HTTP resource path: the second space-delimited token of the
/// request line `p[method .. terminator]`, where the terminator is the first
/// CRLF anywhere in `p`. `None` when the method keyword or the terminator is
/// absent, when the keyword lies past the terminator, or when the request
/// line has fewer than two tokens.
pub open spec fn resource_bytes(p: Seq<u8>) -> Option<Seq<u8>> {
    match (method_index(p), spec_find(p, crlf_bytes())) {
        (Some(m), Some(c)) => if m <= c {
            second_token(p.subrange(m, c))
        } else {
            None
        },
        _ => None,
    }
}

/// Extracts the resource path out of the HTTP request line found in `packet`.
pub fn extract_resource_http(packet: &[u8]) -> (r: Result<String, String>)
    ensures
        match r {
            Ok(s) => resource_bytes(packet@) matches Some(b) && s@ == lossy_of(b),
            Err(e) => resource_bytes(packet@) is None && e@ == "Cabecalho http nao encontrado."@,
        },
{
    let get_n: Vec<u8> = vec![71u8, 69u8, 84u8];
    let post_n: Vec<u8> = vec![80u8, 79u8, 83u8, 84u8];
    let put_n: Vec<u8> = vec![80u8, 85u8, 84u8];
    let delete_n: Vec<u8> = vec![68u8, 69u8, 76u8, 69u8, 84u8, 69u8];
    let crlf_n: Vec<u8> = vec![13u8, 10u8];
    let space_n: Vec<u8> = vec![32u8];
    proof {
        assert(get_n@ == get_bytes());
        assert(post_n@ == post_bytes());
        assert(put_n@ == put_bytes());
        assert(delete_n@ == delete_bytes());
        assert(crlf_n@ == crlf_bytes());
        assert(space_n@ == space_bytes());
    }

    let http_start_index = match find_subarray(packet, get_n.as_slice()) {
        Some(index) => Some(index),
        None => match find_subarray(packet, post_n.as_slice()) {
            Some(index) => Some(index),
            None => match find_subarray(packet, put_n.as_slice()) {
                Some(index) => Some(index),
                None => find_subarray(packet, delete_n.as_slice()),
            },
        },
    };
    let index_fim_header = find_subarray(packet, crlf_n.as_slice());

    match (http_start_index, index_fim_header) {
        (Some(m), Some(c)) => {
            proof {
                lemma_find_first(packet@, crlf_bytes());
            }
            if m > c {
                return Err("Cabecalho http nao encontrado.".to_owned());
            }
            let line = &packet[m..c];
            let sp = match find_subarray(line, space_n.as_slice()) {
                Some(sp) => sp,
                None => {
                    return Err("Cabecalho http nao encontrado.".to_owned());
                },
            };
            let llen = line.len();
            proof {
                lemma_find_first(line@, space_bytes());
            }
            let rest = &line[sp + 1..llen];
            let token = match find_subarray(rest, space_n.as_slice()) {
                Some(sp2) => {
                    proof {
                        lemma_find_first(rest@, space_bytes());
                    }
                    &rest[0..sp2]
                },
                None => rest,
            };
            Ok(lossy_utf8(token))
        },
        _ => Err("Cabecalho http nao encontrado.".to_owned()),
    }
}

/// Bytes of the full correlation-header line: from the first occurrence of
/// `key` in `p` up to the first CRLF at or after that occurrence, the header
/// name included. `None` when the key or the terminator is absent.
pub open spec fn linkedkey_bytes(p: Seq<u8>, key: Seq<u8>) -> Option<Seq<u8>> {
    match spec_find(p, key) {
        Some(i) => match spec_find(p.subrange(i, p.len() as int), crlf_bytes()) {
            Some(j) => Some(p.subrange(i, i + j)),
            None => None,
        },
        None => None,
    }
}

/// Extracts the raw `Name: value` line of the correlation header named by
/// `linkedkey_byte_array` out of `packet`.
pub fn extract_linkedkey(packet: &[u8], linkedkey_byte_array: &[u8]) -> (r: Result<String, String>)
    ensures
        match r {
            Ok(s) => linkedkey_bytes(packet@, linkedkey_byte_array@) matches Some(b) && s@
                == lossy_of(b),
            Err(e) => linkedkey_bytes(packet@, linkedkey_byte_array@) is None && e@
                == "Linkedkey nao encontrado."@,
        },
{
    let crlf_n: Vec<u8> = vec![13u8, 10u8];
    proof {
        assert(crlf_n@ == crlf_bytes());
    }
    let http_start_index = match find_subarray(packet, linkedkey_byte_array) {
        Some(index) => index,
        None => {
            return Err("Linkedkey nao encontrado.".to_owned());
        },
    };
    let plen = packet.len();
    proof {
        lemma_find_first(packet@, linkedkey_byte_array@);
    }
    let tail = &packet[http_start_index..plen];
    let index_fim_header = match find_subarray(tail, crlf_n.as_slice()) {
        Some(index) => index,
        None => {
            return Err("Linkedkey nao encontrado.".to_owned());
        },
    };
    proof {
        lemma_find_first(tail@, crlf_bytes());
        assert(packet@.subrange(
            http_start_index as int,
            http_start_index + index_fim_header as int,
        ) =~= tail@.subrange(0, index_fim_header as int));
    }
    let line = &packet[http_start_index..http_start_index + index_fim_header];
    Ok(lossy_utf8(line))
}

/// For any payload that contains the POST keyword but no CRLF terminator
/// anywhere, HTTP resource extraction finds nothing.
pub proof fn lemma_post_without_crlf_fails(p: Seq<u8>)
    requires
        exists|i: int| match_at(p, post_bytes(), i),
        forall|i: int| !match_at(p, crlf_bytes(), i),
    ensures
        resource_bytes(p) is None,
{
    lemma_find_first(p, crlf_bytes());
    if spec_find(p, crlf_bytes()) is Some {
        let i = spec_find(p, crlf_bytes())->0;
        assert(match_at(p, crlf_bytes(), i));
    }
}

} // verus!
