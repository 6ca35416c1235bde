use vstd::prelude::*;
use vstd::string::StrSliceExecFns;
use vstd::string::StringExecFns;
use vstd::utf8::{decode_utf8, valid_utf8};
use crate::text::{first_space_from, trim_spec, find_space, trimmed, lemma_first_space_bounds};

verus! {

/// Relies on String::from_utf8: it succeeds exactly on valid UTF-8 and
/// decodes those bytes.
#[verifier::external_body]
fn utf8_string(b: Vec<u8>) -> (r: Option<String>)
    ensures
        r is Some <==> valid_utf8(b@),
        r matches Some(s) ==> s@ == decode_utf8(b@),
{
    String::from_utf8(b).ok()
}

/// The index of the first newline byte of `b` at or after `i`, or `b.len()`
/// if there is none.
pub open spec fn line_end(b: Seq<u8>, i: int) -> int
    decreases b.len() - i,
{
    if i < 0 || i >= b.len() {
        b.len() as int
    } else if b[i] == 0x0A {
        i
    } else {
        line_end(b, i + 1)
    }
}

/// The first line of a read buffer: the bytes before the first newline,
/// without a trailing carriage return.
pub open spec fn spec_first_line(b: Seq<u8>) -> Seq<u8> {
    let cut = b.subrange(0, line_end(b, 0));
    if cut.len() > 0 && cut.last() == 0x0D {
        cut.drop_last()
    } else {
        cut
    }
}

/// Extract the first line of `buf` as text; it fails exactly when those
/// bytes are not valid UTF-8.
pub fn first_line(buf: &Vec<u8>) -> (r: Option<String>)
    ensures
        r is Some <==> valid_utf8(spec_first_line(buf@)),
        r matches Some(s) ==> s@ == decode_utf8(spec_first_line(buf@)),
{
    let n = buf.len();
    let mut e: usize = 0;
    while e < n && buf[e] != 0x0A
        invariant
            e <= n,
            n == buf@.len(),
            line_end(buf@, 0) == line_end(buf@, e as int),
        decreases n - e,
    {
        e += 1;
    }
    proof {
        assert(line_end(buf@, 0) == e);
    }
    let end2: usize = if e > 0 && buf[e - 1] == 0x0D {
        e - 1
    } else {
        e
    };
    proof {
        let cut = buf@.subrange(0, e as int);
        if e > 0 {
            assert(cut.last() == buf@[e - 1]);
        }
        if end2 < e {
            assert(cut.drop_last() =~= buf@.subrange(0, end2 as int));
        }
        assert(spec_first_line(buf@) == buf@.subrange(0, end2 as int));
    }
    let mut line_bytes: Vec<u8> = Vec::new();
    let mut i: usize = 0;
    while i < end2
        invariant
            i <= end2,
            end2 <= buf@.len(),
            line_bytes@ == buf@.subrange(0, i as int),
        decreases end2 - i,
    {
        line_bytes.push(buf[i]);
        proof {
            assert(buf@.subrange(0, i as int + 1) =~= buf@.subrange(0, i as int).push(
                buf@[i as int],
            ));
        }
        i += 1;
    }
    utf8_string(line_bytes)
}

/// Relies on chrono::Local::now for the current local date and time, and on
/// chrono's Display for DateTime to render it as text; nothing is assumed of
/// the text, since only the clock determines it.
#[verifier::external_body]
fn local_now_text() -> String {
    chrono::Local::now().to_string()
}

/// A Request is a tokenized HTTP request line with the moment it arrived.
pub struct Request {
    /// HTTP version, usually "HTTP/1.1"
    pub http_version: String,
    /// Method, "GET" or "POST"
    pub method: String,
    /// Path to the requested file - a request for "/" loads index.html
    pub path: String,
    /// Local date and time the request was made, as the clock rendered it
    pub time: String,
}

/// Whether the request line splits into at least three space-separated
/// tokens: it holds at least two space characters.
pub open spec fn parse_ok(s: Seq<char>) -> bool {
    &&& first_space_from(s, 0) < s.len()
    &&& first_space_from(s, first_space_from(s, 0) + 1) < s.len()
}

/// The first token of the request line, trimmed: the method.
pub open spec fn parsed_method(s: Seq<char>) -> Seq<char> {
    trim_spec(s.subrange(0, first_space_from(s, 0)))
}

/// The second token of the request line, trimmed: the path.
pub open spec fn parsed_path(s: Seq<char>) -> Seq<char> {
    let i1 = first_space_from(s, 0);
    trim_spec(s.subrange(i1 + 1, first_space_from(s, i1 + 1)))
}

/// The third token of the request line, trimmed: the HTTP version.
pub open spec fn parsed_version(s: Seq<char>) -> Seq<char> {
    let i1 = first_space_from(s, 0);
    let i2 = first_space_from(s, i1 + 1);
    trim_spec(s.subrange(i2 + 1, first_space_from(s, i2 + 1)))
}

/// Parse an HTTP request line into its three tokens and stamp the result
/// with the current local time. Fails exactly when fewer than three
/// space-separated tokens are present.
pub fn parse_request(request: &mut String) -> (res: Result<Request, ()>)
    ensures
        final(request)@ == old(request)@,
        res is Ok <==> parse_ok(old(request)@),
        match res {
            Ok(r) => {
                &&& r.method@ == parsed_method(old(request)@)
                &&& r.path@ == parsed_path(old(request)@)
                &&& r.http_version@ == parsed_version(old(request)@)
            },
            Err(_) => true,
        },
{
    let s = request.as_str();
    let len = s.unicode_len();
    let i1 = find_space(s, 0);
    if i1 == len {
        return Err(());
    }
    let i2 = find_space(s, i1 + 1);
    if i2 == len {
        return Err(());
    }
    let i3 = find_space(s, i2 + 1);
    proof {
        lemma_first_space_bounds(s@, 0);
        lemma_first_space_bounds(s@, i1 as int + 1);
        lemma_first_space_bounds(s@, i2 as int + 1);
    }
    let method = trimmed(s, 0, i1);
    let path = trimmed(s, i1 + 1, i2);
    let http_version = trimmed(s, i2 + 1, i3);
    let time = local_now_text();
    Ok(Request { http_version, method, path, time })
}

/// The log line for a request: its timestamp in brackets, then the quoted
/// request line rebuilt from its three tokens.
pub open spec fn spec_log_line(
    ts: Seq<char>,
    method: Seq<char>,
    path: Seq<char>,
    version: Seq<char>,
) -> Seq<char> {
    "["@ + ts + "] \""@ + method + " "@ + path + " "@ + version + "\""@
}

/// Render the log line for `r` exactly as `spec_log_line` gives it.
pub fn render_request_log(r: &Request) -> (line: String)
    ensures
        line@ == spec_log_line(r.time@, r.method@, r.path@, r.http_version@),
{
    let mut line = String::new();
    line.append("[");
    line.append(r.time.as_str());
    line.append("] \"");
    line.append(r.method.as_str());
    line.append(" ");
    line.append(r.path.as_str());
    line.append(" ");
    line.append(r.http_version.as_str());
    line.append("\"");
    proof {
        assert(line@ =~= spec_log_line(r.time@, r.method@, r.path@, r.http_version@));
    }
    line
}

} // verus!
