//! The documents of tshark's `-T ek` output (one Elasticsearch bulk document per packet:
//! an `{"index":…}` action line, then `{"timestamp":…,"layers":{…}}`). All decryption and
//! HTTP reconstruction is tshark's; this only reads its fields, with a fallback to nothing
//! on anything unexpected. Field names vary between Wireshark versions: several candidates
//! are tried in turn.

use vstd::prelude::*;

use crate::attribution::{FiveTuple, TupleView};
use crate::json::{get_member, json_parse, member, parse_json, JsonValue};
use crate::shared::{CertificateInfo, HttpHeader};
use crate::text::{
    chars_of, find_from, find_substring, owned, parse_unsigned, parse_unsigned_chars,
    substring, trim, trim_bounds, trim_str,
};

use super::fragment::{truncate_utf8, truncated, DecryptedFragment, BODY_PREVIEW_MAX_BYTES};

verus! {

/// A field's text: a string or a number as is, an array by its first element.
pub open spec fn as_text(v: JsonValue) -> Option<Seq<char>>
    decreases v,
{
    match v {
        JsonValue::Str(s) => Some(s@),
        JsonValue::Number(n) => Some(n@),
        JsonValue::Array(items) => if items@.len() > 0 {
            as_text(items@[0])
        } else {
            None
        },
        _ => None,
    }
}

/// The text of the first of the candidate fields that has one.
pub open spec fn first_text(layers: JsonValue, keys: Seq<Seq<char>>) -> Option<Seq<char>>
    decreases keys.len(),
{
    if keys.len() == 0 {
        None
    } else {
        match member(layers, keys[0]) {
            Some(v) => match as_text(v) {
                Some(t) => Some(t),
                None => first_text(layers, keys.drop_first()),
            },
            None => first_text(layers, keys.drop_first()),
        }
    }
}

fn value_as_string(v: &JsonValue) -> (r: Option<String>)
    ensures
        match r {
            Some(s) => as_text(*v) == Some(s@),
            None => as_text(*v) is None,
        },
    decreases v,
{
    match v {
        JsonValue::Str(s) => Some(s.clone()),
        JsonValue::Number(n) => Some(n.clone()),
        JsonValue::Array(items) => {
            if items.len() > 0 {
                value_as_string(&items[0])
            } else {
                None
            }
        },
        _ => None,
    }
}


fn field_text(layers: &JsonValue, key: &str) -> (r: Option<String>)
    ensures
        match r {
            Some(s) => first_text(*layers, seq![key@]) == Some(s@),
            None => first_text(*layers, seq![key@]) is None,
        },
{
    let ghost keys = seq![key@];
    assert(keys.drop_first() =~= Seq::<Seq<char>>::empty());
    assert(keys[0] == key@);
    assert(first_text(*layers, Seq::<Seq<char>>::empty()) is None);
    match get_member(layers, key) {
        Some(v) => value_as_string(v),
        None => None,
    }
}

fn field_text2(layers: &JsonValue, a: &str, b: &str) -> (r: Option<String>)
    ensures
        match r {
            Some(s) => first_text(*layers, seq![a@, b@]) == Some(s@),
            None => first_text(*layers, seq![a@, b@]) is None,
        },
{
    let ghost keys = seq![a@, b@];
    assert(keys.drop_first() =~= seq![b@]);
    assert(keys[0] == a@);
    assert(seq![a@].drop_first() =~= Seq::<Seq<char>>::empty());
    assert(first_text(*layers, Seq::<Seq<char>>::empty()) is None);
    match field_text(layers, a) {
        Some(t) => Some(t),
        None => field_text(layers, b),
    }
}

/// The connection of a document: IPv4 or IPv6 addresses, TCP ports when there are, else
/// UDP ports, each read as a `u16`.
pub open spec fn ek_tuple(layers: JsonValue) -> Option<TupleView> {
    let src = first_text(layers, seq!["ip_ip_src"@, "ipv6_ipv6_src"@]);
    let dst = first_text(layers, seq!["ip_ip_dst"@, "ipv6_ipv6_dst"@]);
    let ports = match first_text(layers, seq!["tcp_tcp_srcport"@]) {
        Some(sp) => match first_text(layers, seq!["tcp_tcp_dstport"@]) {
            Some(dp) => Some(("tcp"@, sp, dp)),
            None => None,
        },
        None => match (
            first_text(layers, seq!["udp_udp_srcport"@]),
            first_text(layers, seq!["udp_udp_dstport"@]),
        ) {
            (Some(sp), Some(dp)) => Some(("udp"@, sp, dp)),
            _ => None,
        },
    };
    match (src, dst, ports) {
        (Some(s), Some(d), Some(p)) => match (parse_unsigned(p.1, 65535), parse_unsigned(p.2, 65535)) {
            (Some(a), Some(b)) => Some(
                TupleView { protocol: p.0, src_ip: s, src_port: a as u16, dst_ip: d, dst_port: b as u16 },
            ),
            _ => None,
        },
        _ => None,
    }
}

fn parse_port(t: &String) -> (r: Option<u16>)
    ensures
        match r {
            Some(p) => parse_unsigned(t@, 65535) == Some(p as int),
            None => parse_unsigned(t@, 65535) is None,
        },
{
    let chars = chars_of(t.as_str());
    assert(chars@.subrange(0, chars@.len() as int) =~= chars@);
    match parse_unsigned_chars(&chars, 0, chars.len(), 65535) {
        Some(p) => Some(p as u16),
        None => None,
    }
}

fn extract_five_tuple(layers: &JsonValue) -> (r: Option<FiveTuple>)
    ensures
        match r {
            Some(t) => ek_tuple(*layers) == Some(t@),
            None => ek_tuple(*layers) is None,
        },
{
    proof {
        reveal_strlit("tcp");
        reveal_strlit("udp");
    }
    let src_ip = field_text2(layers, "ip_ip_src", "ipv6_ipv6_src");
    let dst_ip = field_text2(layers, "ip_ip_dst", "ipv6_ipv6_dst");
    let ports: Option<(String, String, String)> = match field_text(layers, "tcp_tcp_srcport") {
        Some(sp) => match field_text(layers, "tcp_tcp_dstport") {
            Some(dp) => Some((owned("tcp"), sp, dp)),
            None => None,
        },
        None => match (field_text(layers, "udp_udp_srcport"), field_text(layers, "udp_udp_dstport")) {
            (Some(sp), Some(dp)) => Some((owned("udp"), sp, dp)),
            _ => None,
        },
    };
    match (src_ip, dst_ip, ports) {
        (Some(s), Some(d), Some((protocol, sp, dp))) => match (parse_port(&sp), parse_port(&dp)) {
            (Some(a), Some(b)) => {
                let t = FiveTuple { protocol, src_ip: s, src_port: a, dst_ip: d, dst_port: b };
                assert(t@ =~= ek_tuple(*layers)->0);
                Some(t)
            },
            _ => None,
        },
        _ => None,
    }
}

/// The texts of the elements of an array that have one.
pub open spec fn texts(items: Seq<JsonValue>) -> Seq<Seq<char>>
    decreases items.len(),
{
    if items.len() == 0 {
        Seq::empty()
    } else {
        let r = texts(items.drop_last());
        match as_text(items.last()) {
            Some(t) => r.push(t),
            None => r,
        }
    }
}

/// A header line `Name: value`, both sides trimmed.
pub open spec fn header_of(line: Seq<char>) -> Option<(Seq<char>, Seq<char>)> {
    match find_from(line, ": "@, 0) {
        Some(i) => Some((trim(line.subrange(0, i)), trim(line.subrange(i + 2, line.len() as int)))),
        None => None,
    }
}

pub open spec fn headers_of(lines: Seq<Seq<char>>) -> Seq<(Seq<char>, Seq<char>)>
    decreases lines.len(),
{
    if lines.len() == 0 {
        Seq::empty()
    } else {
        let r = headers_of(lines.drop_last());
        match header_of(lines.last()) {
            Some(h) => r.push(h),
            None => r,
        }
    }
}

/// The header lines of a field: the texts of an array, or a single string.
pub open spec fn header_lines(layers: JsonValue, key: Seq<char>) -> Seq<Seq<char>> {
    match member(layers, key) {
        Some(JsonValue::Array(items)) => texts(items@),
        Some(JsonValue::Str(s)) => seq![s@],
        _ => Seq::empty(),
    }
}

fn header_from_line(line: &String) -> (r: Option<HttpHeader>)
    ensures
        match r {
            Some(h) => header_of(line@) == Some((h.name@, h.value@)),
            None => header_of(line@) is None,
        },
{
    proof {
        reveal_strlit(": ");
    }
    let chars = chars_of(line.as_str());
    let n = chars.len();
    let sep = chars_of(": ");
    match find_substring(&chars, &sep) {
        Some(i) => {
            assert(i + 2 <= chars@.len()) by {
                assert(crate::text::occurs_at(chars@, sep@, i as int)) by {
                    lemma_find_from_occurs(chars@, sep@, 0);
                }
            }
            assert(i + 2 <= n);
            let (a, b) = trim_bounds(&chars, 0, i);
            let (c, d) = trim_bounds(&chars, i + 2, n);
            Some(HttpHeader { name: substring(&chars, a, b), value: substring(&chars, c, d) })
        },
        None => None,
    }
}

proof fn lemma_find_from_occurs(s: Seq<char>, p: Seq<char>, i: int)
    requires
        find_from(s, p, i) is Some,
    ensures
        crate::text::occurs_at(s, p, find_from(s, p, i)->0),
    decreases s.len() + 1 - i,
{
    if i >= 0 && i + p.len() <= s.len() && !crate::text::occurs_at(s, p, i) {
        lemma_find_from_occurs(s, p, i + 1);
    }
}

fn extract_headers(layers: &JsonValue, key: &str) -> (r: Vec<HttpHeader>)
    ensures
        crate::shared::headers_view(r@) == headers_of(header_lines(*layers, key@)),
{
    let lines: Vec<String> = match get_member(layers, key) {
        Some(JsonValue::Array(items)) => {
            let mut out: Vec<String> = Vec::new();
            let mut i: usize = 0;
            assert(items@.subrange(0, 0) =~= Seq::<JsonValue>::empty());
            while i < items.len()
                invariant
                    0 <= i <= items@.len(),
                    out@.map_values(|s: String| s@) == texts(items@.subrange(0, i as int)),
                decreases items@.len() - i,
            {
                let ghost sub = items@.subrange(0, i + 1);
                assert(sub.drop_last() =~= items@.subrange(0, i as int));
                let ghost before = out@.map_values(|s: String| s@);
                match value_as_string(&items[i]) {
                    Some(t) => {
                        out.push(t);
                        assert(out@.map_values(|s: String| s@) =~= before.push(as_text(items@[i as int])->0));
                    },
                    None => {},
                }
                i += 1;
            }
            assert(items@.subrange(0, items@.len() as int) =~= items@);
            out
        },
        Some(JsonValue::Str(s)) => {
            let mut out: Vec<String> = Vec::new();
            out.push(s.clone());
            assert(out@.map_values(|s: String| s@) =~= seq![s@]);
            out
        },
        _ => {
            let out: Vec<String> = Vec::new();
            assert(out@.map_values(|s: String| s@) =~= Seq::<Seq<char>>::empty());
            out
        },
    };
    let ghost lv = lines@.map_values(|s: String| s@);
    assert(lv == header_lines(*layers, key@));
    let mut headers: Vec<HttpHeader> = Vec::new();
    let mut j: usize = 0;
    assert(lv.subrange(0, 0) =~= Seq::<Seq<char>>::empty());
    while j < lines.len()
        invariant
            lv == lines@.map_values(|s: String| s@),
            0 <= j <= lines@.len(),
            crate::shared::headers_view(headers@) == headers_of(lv.subrange(0, j as int)),
        decreases lines@.len() - j,
    {
        let ghost sub = lv.subrange(0, j + 1);
        assert(sub.drop_last() =~= lv.subrange(0, j as int));
        assert(sub.last() == lines@[j as int]@);
        let ghost before = crate::shared::headers_view(headers@);
        match header_from_line(&lines[j]) {
            Some(h) => {
                let ghost hv = (h.name@, h.value@);
                headers.push(h);
                assert(crate::shared::headers_view(headers@) =~= before.push(hv));
            },
            None => {},
        }
        j += 1;
    }
    assert(lv.subrange(0, lv.len() as int) =~= lv);
    headers
}

/// The certificate fields of a document, when it names an issuer (the others default to
/// empty).
pub open spec fn ek_certificate(layers: JsonValue) -> Option<(Seq<char>, Seq<char>, Seq<char>, Seq<char>, Seq<char>)> {
    match first_text(layers, seq!["tls_tls_handshake_certificate_issuer"@]) {
        Some(issuer) => Some(
            (
                issuer,
                or_empty(first_text(layers, seq!["tls_tls_handshake_certificate_subject"@])),
                or_empty(first_text(layers, seq!["tls_tls_handshake_certificate_notbefore"@])),
                or_empty(first_text(layers, seq!["tls_tls_handshake_certificate_notafter"@])),
                or_empty(first_text(layers, seq!["tls_tls_handshake_certificate_fingerprint"@])),
            ),
        ),
        None => None,
    }
}

pub open spec fn or_empty(t: Option<Seq<char>>) -> Seq<char> {
    match t {
        Some(s) => s,
        None => Seq::empty(),
    }
}

fn text_or_empty(t: Option<String>) -> (r: String)
    ensures
        r@ == or_empty(
            match t {
                Some(s) => Some(s@),
                None => None,
            },
        ),
{
    match t {
        Some(s) => s,
        None => String::new(),
    }
}

fn extract_certificate(layers: &JsonValue) -> (r: Option<CertificateInfo>)
    ensures
        match r {
            Some(c) => ek_certificate(*layers) == Some(
                (c.issuer@, c.subject@, c.valid_from@, c.valid_to@, c.fingerprint_sha256@),
            ),
            None => ek_certificate(*layers) is None,
        },
{
    let issuer = match field_text(layers, "tls_tls_handshake_certificate_issuer") {
        Some(i) => i,
        None => {
            return None;
        },
    };
    Some(
        CertificateInfo {
            issuer,
            subject: text_or_empty(field_text(layers, "tls_tls_handshake_certificate_subject")),
            valid_from: text_or_empty(field_text(layers, "tls_tls_handshake_certificate_notbefore")),
            valid_to: text_or_empty(field_text(layers, "tls_tls_handshake_certificate_notafter")),
            fingerprint_sha256: text_or_empty(
                field_text(layers, "tls_tls_handshake_certificate_fingerprint"),
            ),
        },
    )
}

pub open spec fn opt_of(t: Option<String>) -> Option<Seq<char>> {
    crate::shared::opt_view(t)
}

/// The fragment that a document's `layers` describe, field for field.
pub open spec fn fragment_of(f: DecryptedFragment, layers: JsonValue) -> bool {
    &&& ek_tuple(layers) == Some(f.five_tuple@)
    &&& opt_of(f.host) == first_text(layers, seq!["http_http_host"@, "http_http_request_line_host"@])
    &&& opt_of(f.method) == first_text(layers, seq!["http_http_request_method"@])
    &&& opt_of(f.path) == first_text(layers, seq!["http_http_request_uri"@, "http_http_request_full_uri"@])
    &&& f.status == (match first_text(layers, seq!["http_http_response_code"@]) {
        Some(t) => match parse_unsigned(t, 65535) {
            Some(v) => Some(v as u16),
            None => None,
        },
        None => None,
    })
    &&& crate::shared::headers_view(f.request_headers@) == headers_of(
        header_lines(layers, "http_http_request_line"@),
    )
    &&& crate::shared::headers_view(f.response_headers@) == headers_of(
        header_lines(layers, "http_http_response_line"@),
    )
    &&& opt_of(f.body_preview) == (match first_text(layers, seq!["http_http_file_data"@, "http_data_data"@]) {
        Some(b) => Some(truncated(b, BODY_PREVIEW_MAX_BYTES as int)),
        None => None,
    })
    &&& opt_of(f.content_type) == first_text(layers, seq!["http_http_content_type"@])
    &&& match f.certificate {
        Some(c) => ek_certificate(layers) == Some(
            (c.issuer@, c.subject@, c.valid_from@, c.valid_to@, c.fingerprint_sha256@),
        ),
        None => ek_certificate(layers) is None,
    }
}

/// The `layers` of a data document; none for an `index` action line or anything else.
pub open spec fn ek_layers(doc: JsonValue) -> Option<JsonValue> {
    match doc {
        JsonValue::Object(_) => if member(doc, "index"@) is Some {
            None
        } else {
            member(doc, "layers"@)
        },
        _ => None,
    }
}

fn text_opt(t: Option<String>) -> (r: Option<String>)
    ensures
        opt_of(r) == match t {
            Some(s) => Some(s@),
            None => None,
        },
{
    t
}

/// The decrypted fragment described by a parsed document, if it names a usable connection.
pub fn fragment_from_document(doc: &JsonValue) -> (r: Option<DecryptedFragment>)
    ensures
        match r {
            Some(f) => match ek_layers(*doc) {
                Some(l) => fragment_of(f, l),
                None => false,
            },
            None => match ek_layers(*doc) {
                Some(l) => ek_tuple(l) is None,
                None => true,
            },
        },
{
    if !matches!(doc, JsonValue::Object(_)) {
        return None;
    }
    if get_member(doc, "index").is_some() {
        return None;
    }
    let layers = match get_member(doc, "layers") {
        Some(l) => l,
        None => {
            return None;
        },
    };
    let five_tuple = match extract_five_tuple(layers) {
        Some(t) => t,
        None => {
            return None;
        },
    };
    let status = match field_text(layers, "http_http_response_code") {
        Some(t) => parse_port(&t),
        None => None,
    };
    let body_preview = match field_text2(layers, "http_http_file_data", "http_data_data") {
        Some(b) => Some(truncate_utf8(b.as_str(), BODY_PREVIEW_MAX_BYTES)),
        None => None,
    };
    let f = DecryptedFragment {
        five_tuple,
        host: text_opt(field_text2(layers, "http_http_host", "http_http_request_line_host")),
        method: text_opt(field_text(layers, "http_http_request_method")),
        path: text_opt(field_text2(layers, "http_http_request_uri", "http_http_request_full_uri")),
        status,
        request_headers: extract_headers(layers, "http_http_request_line"),
        response_headers: extract_headers(layers, "http_http_response_line"),
        body_preview,
        content_type: text_opt(field_text(layers, "http_http_content_type")),
        certificate: extract_certificate(layers),
    };
    Some(f)
}

/// The fragment of one line of `tshark -T ek` output, if the line is a data document that
/// names a usable connection. Addresses are as tshark writes them.
pub fn parse_ek_line(line: &str) -> (r: Option<DecryptedFragment>)
    ensures
        match r {
            Some(f) => match json_parse(trim(line@)) {
                Some(doc) => match ek_layers(doc) {
                    Some(l) => fragment_of(f, l),
                    None => false,
                },
                None => false,
            },
            None => trim(line@).len() == 0 || match json_parse(trim(line@)) {
                Some(doc) => match ek_layers(doc) {
                    Some(l) => ek_tuple(l) is None,
                    None => true,
                },
                None => true,
            },
        },
{
    let trimmed = trim_str(line);
    if trimmed.unicode_len() == 0 {
        return None;
    }
    match parse_json(trimmed.as_str()) {
        Some(doc) => fragment_from_document(&doc),
        None => None,
    }
}


/// The connection of a document goes from its source address (IPv4, else IPv6) and port to
/// its destination address and port: the source address is the text of `ip_ip_src` (else
/// `ipv6_ipv6_src`), the destination that of `ip_ip_dst` (else `ipv6_ipv6_dst`), and TCP
/// ports, when there are, are read from the TCP source and destination port fields.
pub proof fn lemma_ek_tuple_endpoints(layers: JsonValue)
    ensures
        ek_tuple(layers) matches Some(t) ==> Some(t.src_ip) == first_text(layers, seq!["ip_ip_src"@, "ipv6_ipv6_src"@])
            && Some(t.dst_ip) == first_text(layers, seq!["ip_ip_dst"@, "ipv6_ipv6_dst"@]),
        ek_tuple(layers) matches Some(t) ==> (first_text(layers, seq!["tcp_tcp_srcport"@]) matches Some(sp)
            ==> (t.protocol == "tcp"@ && (parse_unsigned(sp, 65535) matches Some(a) && t.src_port == a as u16)
            && (first_text(layers, seq!["tcp_tcp_dstport"@]) matches Some(dp) && (parse_unsigned(dp, 65535) matches Some(
            b) && t.dst_port == b as u16)))),
        first_text(layers, seq!["ip_ip_src"@, "ipv6_ipv6_src"@]) is None || first_text(
            layers,
            seq!["ip_ip_dst"@, "ipv6_ipv6_dst"@],
        ) is None ==> ek_tuple(layers) is None,
{
}

} // verus!
