//! What the proxy decides about the traffic it relays: which headers it
//! drops, and how it cuts a streamed response into the lines it reads usage
//! from.
use vstd::prelude::*;

use crate::providers::base::ApiType;
use crate::text::ascii_lowercase;
use crate::text::chars_of;
use crate::text::starts_with;
use crate::text::str_eq;
use crate::text::str_starts_with;
use crate::text::str_trim;
use crate::text::str_trim_end_char;
use crate::text::split_on;
use crate::text::str_split_on;
use crate::text::string_of_range;
use crate::text::string_views;
use crate::text::strip_prefix;
use crate::text::to_ascii_lowercase;
use crate::text::trim;
use crate::text::trim_end_char;

verus! {

broadcast use crate::text::group_views;

/// Request headers never forwarded upstream: the hop-by-hop ones, and the
/// credentials, which the proxy puts in itself.
pub open spec fn forbidden_request_headers() -> Seq<Seq<char>> {
    seq![
        "host"@,
        "authorization"@,
        "x-api-key"@,
        "content-length"@,
        "connection"@,
        "keep-alive"@,
        "transfer-encoding"@,
        "te"@,
        "trailer"@,
        "upgrade"@,
        "proxy-authenticate"@,
        "proxy-authorization"@,
    ]
}

/// Response headers not relayed back: the framing is the proxy's own.
pub open spec fn forbidden_response_headers() -> Seq<Seq<char>> {
    seq!["connection"@, "keep-alive"@, "transfer-encoding"@, "content-length"@]
}

fn in_list(name: &str, list: &Vec<&str>) -> (b: bool)
    ensures
        b == crate::text::str_views(list@).contains(name@),
{
    let mut i: usize = 0;
    while i < list.len()
        invariant
            i <= list@.len(),
            forall|j: int| 0 <= j < i ==> #[trigger] list@[j]@ != name@,
        decreases list@.len() - i,
    {
        if str_eq(list[i], name) {
            assert(crate::text::str_views(list@)[i as int] == name@);
            return true;
        }
        i += 1;
    }
    proof {
        if crate::text::str_views(list@).contains(name@) {
            let k = choose|k: int| 0 <= k < list@.len() && crate::text::str_views(list@)[k] == name@;
            assert(list@[k]@ == name@);
        }
    }
    false
}

/// Whether a request header, named in any ASCII case, is kept from upstream.
pub fn is_forbidden_request_header(name: &str) -> (b: bool)
    ensures
        b == forbidden_request_headers().contains(ascii_lowercase(name@)),
{
    let lower = to_ascii_lowercase(name);
    let list = vec![
        "host",
        "authorization",
        "x-api-key",
        "content-length",
        "connection",
        "keep-alive",
        "transfer-encoding",
        "te",
        "trailer",
        "upgrade",
        "proxy-authenticate",
        "proxy-authorization",
    ];
    assert(crate::text::str_views(list@) =~= forbidden_request_headers());
    in_list(lower.as_str(), &list)
}

/// Whether a response header, named in any ASCII case, is kept from the client.
pub fn is_forbidden_response_header(name: &str) -> (b: bool)
    ensures
        b == forbidden_response_headers().contains(ascii_lowercase(name@)),
{
    let lower = to_ascii_lowercase(name);
    let list = vec!["connection", "keep-alive", "transfer-encoding", "content-length"];
    assert(crate::text::str_views(list@) =~= forbidden_response_headers());
    in_list(lower.as_str(), &list)
}

/// The complete lines of a buffer, in order, each without its `'\n'` and
/// the `'\r'`s before it, and what is left after the last `'\n'`.
pub open spec fn complete_lines(s: Seq<char>) -> (Seq<Seq<char>>, Seq<char>) {
    let parts = split_on(s, '\n');
    (Seq::new((parts.len() - 1) as nat, |i: int| trim_end_char(parts[i], '\r')), parts.last())
}

/// Takes every complete line out of `buffer`, leaving the partial line after
/// the last newline; the lines come without their line endings.
pub fn drain_complete_lines(buffer: &mut String) -> (lines: Vec<String>)
    ensures
        string_views(lines@) == complete_lines(old(buffer)@).0,
        final(buffer)@ == complete_lines(old(buffer)@).1,
{
    let parts = str_split_on(buffer.as_str(), '\n');
    let ghost pv = string_views(parts@);
    proof {
        crate::text::lemma_split_on_len(old(buffer)@, '\n');
    }
    let n = parts.len() - 1;
    let mut lines: Vec<String> = Vec::new();
    let mut i: usize = 0;
    while i < n
        invariant
            i <= n,
            n == parts@.len() - 1,
            pv == string_views(parts@),
            lines@.len() == i,
            forall|j: int| 0 <= j < i ==> #[trigger] lines@[j]@ == trim_end_char(pv[j], '\r'),
        decreases n - i,
    {
        lines.push(str_trim_end_char(parts[i].as_str(), '\r'));
        i += 1;
    }
    assert(string_views(lines@) =~= complete_lines(old(buffer)@).0);
    *buffer = crate::text::owned(parts[n].as_str());
    lines
}

/// The JSON a streamed line carries, if any: the text after `data:` (SSE
/// framing), or for Ollama a line that starts with `{` (NDJSON); empty
/// payloads and the `[DONE]` marker carry none.
pub open spec fn line_payload(line: Seq<char>, api_type: ApiType) -> Option<Seq<char>> {
    let t = trim(line);
    let payload = match strip_prefix(t, "data:"@) {
        Some(rest) => Some(trim(rest)),
        None => if api_type == ApiType::Ollama && starts_with(t, "{"@) {
            Some(t)
        } else {
            None
        },
    };
    match payload {
        Some(p) => if p.len() == 0 || p == "[DONE]"@ {
            None
        } else {
            Some(p)
        },
        None => None,
    }
}

/// The JSON a streamed line carries, if any.
pub fn payload_of_line(line: &str, api_type: ApiType) -> (r: Option<String>)
    ensures
        match r {
            Some(p) => line_payload(line@, api_type) == Some(p@),
            None => line_payload(line@, api_type) is None,
        },
{
    let t = str_trim(line);
    proof {
        reveal_strlit("data:");
    }
    let payload = if str_starts_with(t.as_str(), "data:") {
        let tv = chars_of(t.as_str());
        let rest = string_of_range(&tv, 5, tv.len());
        assert(rest@ =~= t@.skip(5));
        Some(str_trim(rest.as_str()))
    } else if api_type == ApiType::Ollama && str_starts_with(t.as_str(), "{") {
        Some(t)
    } else {
        None
    };
    match payload {
        Some(p) => {
            if chars_of(p.as_str()).len() == 0 || str_eq(p.as_str(), "[DONE]") {
                None
            } else {
                Some(p)
            }
        },
        None => None,
    }
}

} // verus!
