use vstd::prelude::*;
use vstd::string::StringExecFns;
use crate::text::{spec_ext, extension_of, str_eq};

verus! {

/// The effective document root: `webroot` itself, unless it is the sentinel
/// `_default_`, in which case the per-user configuration directory is used.
pub open spec fn spec_root(webroot: Seq<char>, user: Seq<char>) -> Seq<char> {
    if webroot == "_default_"@ {
        "/home/"@ + user + "/.config/tinyserve"@
    } else {
        webroot
    }
}

/// The file that a request for `path` targets: `<root>/index.html` for the
/// root path, otherwise the root and the path concatenated directly.
pub open spec fn spec_target(path: Seq<char>, webroot: Seq<char>, user: Seq<char>) -> Seq<char> {
    if path == "/"@ {
        spec_root(webroot, user) + "/index.html"@
    } else {
        spec_root(webroot, user) + path
    }
}

/// The file served when the requested one cannot be opened.
pub open spec fn spec_fallback(webroot: Seq<char>, user: Seq<char>) -> Seq<char> {
    spec_root(webroot, user) + "/404.html"@
}

/// The literal status line of a response.
pub open spec fn spec_status(found: bool) -> Seq<char> {
    if found {
        "HTTP/1.1 200 OK\r\n"@
    } else {
        "HTTP/1.1 404 NOT FOUND\r\n"@
    }
}

/// The content-type subtype: `html` for a miss or for the root path,
/// otherwise the path's extension, with the single rewrite `js` to
/// `javascript`; an unmapped extension passes through unchanged.
pub open spec fn spec_subtype(found: bool, path: Seq<char>) -> Seq<char> {
    if !found || path == "/"@ {
        "html"@
    } else if spec_ext(path) == "js"@ {
        "javascript"@
    } else {
        spec_ext(path)
    }
}

/// The whole response: status line, content-type header, blank line, body.
pub open spec fn spec_response(found: bool, path: Seq<char>, body: Seq<char>) -> Seq<char> {
    spec_status(found) + "Content-Type: text/"@ + spec_subtype(found, path) + "\r\n\r\n"@ + body
}

/// Append the effective document root for `webroot` and `user` to `out`.
fn push_root(out: &mut String, webroot: &str, user: &str)
    ensures
        final(out)@ == old(out)@ + spec_root(webroot@, user@),
{
    if str_eq(webroot, "_default_") {
        out.append("/home/");
        out.append(user);
        out.append("/.config/tinyserve");
        proof {
            assert(final(out)@ =~= old(out)@ + spec_root(webroot@, user@));
        }
    } else {
        out.append(webroot);
    }
}

/// Resolve the file a request for `path` targets under `webroot`, with the
/// per-user default root for the sentinel `_default_`.
pub fn resolve_target(path: &str, webroot: &str, user: &str) -> (r: String)
    ensures
        r@ == spec_target(path@, webroot@, user@),
{
    let mut r = String::new();
    push_root(&mut r, webroot, user);
    if str_eq(path, "/") {
        r.append("/index.html");
    } else {
        r.append(path);
    }
    r
}

/// Resolve the fallback file that a miss is answered from.
pub fn resolve_fallback(webroot: &str, user: &str) -> (r: String)
    ensures
        r@ == spec_fallback(webroot@, user@),
{
    let mut r = String::new();
    push_root(&mut r, webroot, user);
    r.append("/404.html");
    r
}

/// Build the full response for a request for `path` whose resolved file held
/// `contents`; `found` says whether the requested file itself was served or
/// the fallback was.
pub fn build_response(found: bool, path: &str, contents: &str) -> (r: String)
    ensures
        r@ == spec_response(found, path@, contents@),
{
    let mut r = String::new();
    if found {
        r.append("HTTP/1.1 200 OK\r\n");
    } else {
        r.append("HTTP/1.1 404 NOT FOUND\r\n");
    }
    r.append("Content-Type: text/");
    if !found || str_eq(path, "/") {
        r.append("html");
    } else {
        let e = extension_of(path);
        if str_eq(e.as_str(), "js") {
            r.append("javascript");
        } else {
            r.append(e.as_str());
        }
    }
    r.append("\r\n\r\n");
    r.append(contents);
    proof {
        assert(r@ =~= spec_response(found, path@, contents@));
    }
    r
}

/// The content-type mapping is total and passes an unmapped extension
/// through unchanged: for a served file whose path is not the root path and
/// whose extension is not the one rewritten name, the subtype is exactly the
/// path's extension.
pub proof fn lemma_subtype_passthrough(path: Seq<char>)
    requires
        path != "/"@,
        spec_ext(path) != "js"@,
    ensures
        spec_subtype(true, path) == spec_ext(path),
{
}

/// Resolving the same path twice against unchanged file contents yields
/// byte-identical target files and byte-identical responses.
pub proof fn lemma_resolution_idempotent(
    found: bool,
    path: Seq<char>,
    webroot: Seq<char>,
    user: Seq<char>,
    body: Seq<char>,
    t1: Seq<char>,
    t2: Seq<char>,
    r1: Seq<char>,
    r2: Seq<char>,
)
    requires
        t1 == spec_target(path, webroot, user),
        t2 == spec_target(path, webroot, user),
        r1 == spec_response(found, path, body),
        r2 == spec_response(found, path, body),
    ensures
        t1 == t2,
        r1 == r2,
{
}

} // verus!
