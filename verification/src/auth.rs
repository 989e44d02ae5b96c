//! Access to the API, and what the web server decides about a request.
use vstd::prelude::*;

use crate::collector::TrafficCounters;
use crate::text::{
    lemma_next_char, lemma_split_from, next_char, same, split, split_from, str_skip, str_split,
    str_starts_with,
};

verus! {

/// The token that requests have to show; none lets everybody in.
pub struct ApiToken(pub Option<String>);

/// Whether a request is let in: without a token everybody is, and so is every
/// path outside `/api/`; else the header has to be `Bearer` and the token.
pub open spec fn allowed(token: Option<Seq<char>>, path: Seq<char>, header: Option<Seq<char>>) -> bool {
    token is None || !"/api/"@.is_prefix_of(path) || header == Some("Bearer "@ + token->0)
}

proof fn lemma_xor_zero(x: u8, y: u8, d: u8)
    ensures
        (d | (x ^ y)) == 0 <==> d == 0 && x == y,
{
    assert((d | (x ^ y)) == 0 <==> d == 0 && x == y) by (bit_vector);
}

/// Whether two byte strings are equal. Every byte is looked at, so the time
/// does not depend on where they differ.
pub fn constant_time_eq(a: &[u8], b: &[u8]) -> (r: bool)
    ensures
        r == (a@ == b@),
{
    if a.len() != b.len() {
        return false;
    }
    let mut diff: u8 = 0;
    let mut i: usize = 0;
    while i < a.len()
        invariant
            i <= a@.len() == b@.len(),
            diff == 0 <==> forall|j: int| 0 <= j < i ==> a@[j] == b@[j],
        decreases a@.len() - i,
    {
        proof {
            lemma_xor_zero(a@[i as int], b@[i as int], diff);
        }
        diff = diff | (a[i] ^ b[i]);
        i += 1;
    }
    if diff == 0 {
        assert(a@ =~= b@);
    }
    diff == 0
}

/// Decides whether a request is let in.
pub fn require_auth(token: &ApiToken, path: &str, auth_header: Option<&str>) -> (r: bool)
    ensures
        r == allowed(
            match token.0 {
                Some(t) => Some(t@),
                None => None,
            },
            path@,
            match auth_header {
                Some(h) => Some(h@),
                None => None,
            },
        ),
{
    let expected = match &token.0 {
        Some(t) => t,
        None => {
            return true;
        },
    };
    if !str_starts_with(path, "/api/") {
        return true;
    }
    match auth_header {
        Some(value) => {
            if !str_starts_with(value, "Bearer ") {
                assert("Bearer "@.is_prefix_of("Bearer "@ + expected@));
                return false;
            }
            proof {
                reveal_strlit("Bearer ");
            }
            let provided = str_skip(value, 7);
            proof {
                assert(value@ =~= "Bearer "@ + provided@);
                vstd::utf8::encode_utf8_decode_utf8(provided@);
                vstd::utf8::encode_utf8_decode_utf8(expected@);
                if "Bearer "@ + provided@ == "Bearer "@ + expected@ {
                    assert(("Bearer "@ + provided@).skip(7) =~= provided@);
                    assert(("Bearer "@ + expected@).skip(7) =~= expected@);
                }
            }
            constant_time_eq(provided.as_str().as_bytes(), expected.as_str().as_bytes())
        },
        None => false,
    }
}

/// The requests that are housekeeping, which the traffic counter leaves out: the
/// polls of the dashboard, and those with which a client enters itself.
pub open spec fn housekeeping(method: Seq<char>, path: Seq<char>) -> bool {
    ||| path == "/api/clients/register"@ || path == "/api/clients/add"@
    ||| method == "GET"@ && (path == "/api/status"@ || path == "/api/hosts"@ || path
        == "/api/clients"@ || path == "/api/alerts"@)
}

/// Whether a request is housekeeping.
pub fn is_poll(method: &str, path: &str) -> (r: bool)
    ensures
        r == housekeeping(method@, path@),
{
    same(path, "/api/clients/register") || same(path, "/api/clients/add") || (same(method, "GET")
        && (same(path, "/api/status") || same(path, "/api/hosts") || same(path, "/api/clients")
        || same(path, "/api/alerts")))
}

/// Counts a request, unless it is housekeeping. The count starts over behind its
/// largest value.
pub fn count_api_requests(counters: &mut TrafficCounters, method: &str, path: &str)
    ensures
        *final(counters) == (if housekeeping(method@, path@) {
            *old(counters)
        } else {
            TrafficCounters {
                api_requests: if old(counters).api_requests == u64::MAX {
                    0
                } else {
                    (old(counters).api_requests + 1) as u64
                },
                ..*old(counters)
            }
        }),
{
    if !is_poll(method, path) {
        counters.api_requests = counters.api_requests.wrapping_add(1);
    }
}

/// The type of a file by what stands behind the last dot of its name.
pub open spec fn content_type(extension: Seq<char>) -> Seq<char> {
    if extension == "html"@ {
        "text/html; charset=utf-8"@
    } else if extension == "css"@ {
        "text/css; charset=utf-8"@
    } else if extension == "js"@ {
        "application/javascript; charset=utf-8"@
    } else if extension == "json"@ {
        "application/json"@
    } else if extension == "svg"@ {
        "image/svg+xml"@
    } else if extension == "png"@ {
        "image/png"@
    } else if extension == "ico"@ {
        "image/x-icon"@
    } else {
        "application/octet-stream"@
    }
}

/// The content type of a static file.
pub fn mime_of(path: &str) -> (r: &'static str)
    ensures
        r@ == content_type(split(path@, '.').last()),
{
    let parts = str_split(path, '.');
    assert(split(path@, '.').last() == parts@.last()@);
    let ext = parts[parts.len() - 1].as_str();
    if same(ext, "html") {
        "text/html; charset=utf-8"
    } else if same(ext, "css") {
        "text/css; charset=utf-8"
    } else if same(ext, "js") {
        "application/javascript; charset=utf-8"
    } else if same(ext, "json") {
        "application/json"
    } else if same(ext, "svg") {
        "image/svg+xml"
    } else if same(ext, "png") {
        "image/png"
    } else if same(ext, "ico") {
        "image/x-icon"
    } else {
        "application/octet-stream"
    }
}

/// Number of slashes at the front of a path.
pub open spec fn leading_slashes(path: Seq<char>) -> int
    decreases path.len(),
{
    if path.len() > 0 && path[0] == '/' {
        1 + leading_slashes(path.drop_first())
    } else {
        0
    }
}

/// The file that a path asks for: the path without the slashes at its front,
/// or the start page.
pub fn asset_path(path: &str) -> (r: String)
    ensures
        ({
            let rest = path@.skip(leading_slashes(path@));
            r@ == if rest.len() == 0 {
                "index.html"@
            } else {
                rest
            }
        }),
{
    let c = crate::text::chars(path);
    let len: usize = c.len();
    let mut i: usize = 0;
    assert(path@.skip(0) =~= path@);
    while i < len && c[i] == '/'
        invariant
            i <= len == c@.len(),
            c@ == path@,
            leading_slashes(path@) == i + leading_slashes(path@.skip(i as int)),
        decreases len - i,
    {
        assert(path@.skip(i as int).drop_first() =~= path@.skip(i + 1));
        i += 1;
    }
    if i == len {
        assert(path@.skip(len as int) =~= Seq::<char>::empty());
        "index.html".to_owned()
    } else {
        crate::text::slice_text(c.as_slice(), i, len)
    }
}

// ── License ──

/// A request to activate a license key.
pub struct ActivateRequest {
    pub key: String,
}

/// The trimmed license key of a request, which must not be empty.
pub fn license_key(req: &ActivateRequest) -> (r: Result<String, String>)
    ensures
        match r {
            Ok(key) => key@ == crate::text::trimmed(req.key@) && key@.len() > 0,
            Err(e) => crate::text::trimmed(req.key@).len() == 0 && e@
                == "License key is required"@,
        },
{
    let key = crate::text::str_trim(req.key.as_str());
    if key.as_str().is_empty() {
        Err("License key is required".to_owned())
    } else {
        Ok(key)
    }
}

// ── Laws ──

/// With a token, a request to the API is let in with that token and with no
/// other header.
pub proof fn law_only_the_token(token: Seq<char>, path: Seq<char>, header: Option<Seq<char>>)
    requires
        "/api/"@.is_prefix_of(path),
    ensures
        allowed(Some(token), path, header) <==> header == Some("Bearer "@ + token),
        !allowed(Some(token), path, None),
{
}

/// Without a token everybody is let in. With one, a path of the API is let in exactly
/// with the header `Bearer`, a space and the token; other paths need none.
pub proof fn law_who_is_let_in(token: ApiToken, path: &str, header: Option<&str>, r: bool)
    requires
        call_ensures(require_auth, (&token, path, header), r),
    ensures
        token.0 is None ==> r,
        path@.len() < 5 || path@.take(5) != "/api/"@ ==> r,
        token.0 matches Some(t) ==> (path@.len() >= 5 && path@.take(5) == "/api/"@ ==> (r <==> (
        header matches Some(h) && h@ == "Bearer "@ + t@))),
{
    reveal_strlit("/api/");
    if "/api/"@.is_prefix_of(path@) {
        assert(path@.take(5) =~= "/api/"@);
    }
    if path@.len() >= 5 && path@.take(5) == "/api/"@ {
        assert("/api/"@.is_prefix_of(path@));
    }
}

/// Bytes are equal when there are as many and each is equal.
pub proof fn law_equal_bytes(a: &[u8], b: &[u8], r: bool)
    requires
        call_ensures(constant_time_eq, (a, b), r),
    ensures
        r <==> a@.len() == b@.len() && forall|i: int|
            0 <= i < a@.len() ==> #[trigger] a@[i] == b@[i],
{
    if a@.len() == b@.len() && forall|i: int| 0 <= i < a@.len() ==> #[trigger] a@[i] == b@[i] {
        assert(a@ =~= b@);
    }
}

/// A request is counted, one by one, unless it is a poll of the dashboard or one with
/// which a client enters itself; the other counters are left alone.
pub proof fn law_counted_requests(
    counters: &mut TrafficCounters,
    method: &str,
    path: &str,
)
    requires
        call_ensures(count_api_requests, (counters, method, path), ()),
    ensures
        ({
            let polled = path@ == "/api/status"@ || path@ == "/api/hosts"@ || path@
                == "/api/clients"@ || path@ == "/api/alerts"@;
            let entering = path@ == "/api/clients/register"@ || path@ == "/api/clients/add"@;
            &&& entering || (polled && method@ == "GET"@) ==> *final(counters) == *old(counters)
            &&& !entering && !(polled && method@ == "GET"@) ==> final(counters).api_requests as int
                == (old(counters).api_requests + 1) % 0x1_0000_0000_0000_0000
        }),
        final(counters).midi_packets_in == old(counters).midi_packets_in,
        final(counters).midi_packets_out == old(counters).midi_packets_out,
        final(counters).osc_messages == old(counters).osc_messages,
{
}

/// A file of the site has the type of its ending; one without a known ending is bytes.
pub proof fn law_file_types(path: &str, r: &'static str, name: Seq<char>, ending: Seq<char>)
    requires
        path@ == name + "."@ + ending,
        !ending.contains('.'),
        call_ensures(mime_of, (path,), r),
    ensures
        ending == "html"@ ==> r@ == "text/html; charset=utf-8"@,
        ending == "css"@ ==> r@ == "text/css; charset=utf-8"@,
        ending == "js"@ ==> r@ == "application/javascript; charset=utf-8"@,
        ending == "json"@ ==> r@ == "application/json"@,
        ending == "svg"@ ==> r@ == "image/svg+xml"@,
        ending == "png"@ ==> r@ == "image/png"@,
        ending == "ico"@ ==> r@ == "image/x-icon"@,
        ending == "woff2"@ ==> r@ == "application/octet-stream"@,
{
    reveal_strlit(".");
    reveal_strlit("html");
    reveal_strlit("css");
    reveal_strlit("js");
    reveal_strlit("json");
    reveal_strlit("svg");
    reveal_strlit("png");
    reveal_strlit("ico");
    reveal_strlit("woff2");
    assert("css"@[0] == 'c' && "svg"@[0] == 's' && "png"@[0] == 'p' && "ico"@[0] == 'i');
    assert("html"@[0] == 'h' && "json"@[0] == 'j');
    assert(path@ =~= (name + seq!['.']) + ending);
    lemma_last_piece(name, ending, 0);
}

/// What stands behind the last dot of a path is the last piece of it.
proof fn lemma_last_piece(name: Seq<char>, ending: Seq<char>, i: int)
    requires
        0 <= i <= name.len() + 1,
        !ending.contains('.'),
    ensures
        split_from((name + seq!['.']) + ending, '.', i).last() == ending,
    decreases name.len() + 1 - i,
{
    let s = (name + seq!['.']) + ending;
    let n = name.len() + 1int;
    lemma_next_char(s, '.', i);
    let to = next_char(s, '.', i);
    if i < n {
        assert(s[n - 1] == '.');
        assert(to <= n - 1);
        lemma_last_piece(name, ending, to + 1);
        let rest = split_from(s, '.', to + 1);
        lemma_split_from(s, '.', to + 1);
        assert((seq![s.subrange(i, to)] + rest).last() == rest.last());
    } else {
        if to < s.len() {
            assert(ending[to - n] == '.');
            assert(ending.contains(ending[to - n]));
        }
        assert(s.subrange(n, s.len() as int) =~= ending);
    }
}

/// A path asks for the file that it names behind its leading slashes, and for the start
/// page where it names none.
pub proof fn law_asked_file(path: &str, r: String)
    requires
        call_ensures(asset_path, (path,), r),
    ensures
        path@.len() == 0 ==> r@ == "index.html"@,
        path@.len() > 0 && path@[0] != '/' ==> r@ == path@,
        path@.len() == 1 && path@[0] == '/' ==> r@ == "index.html"@,
        path@.len() > 1 && path@[0] == '/' && path@[1] != '/' ==> r@ == path@.skip(1),
        r@.len() > 0 && r@ != "index.html"@ ==> r@[0] != '/',
{
    reveal_with_fuel(leading_slashes, 3);
    lemma_leading_slashes(path@);
    assert(path@.skip(0) =~= path@);
    assert(path@.len() == 1 ==> path@.drop_first() =~= Seq::<char>::empty());
}

proof fn lemma_leading_slashes(path: Seq<char>)
    ensures
        0 <= leading_slashes(path) <= path.len(),
        leading_slashes(path) < path.len() ==> path[leading_slashes(path)] != '/',
    decreases path.len(),
{
    if path.len() > 0 && path[0] == '/' {
        lemma_leading_slashes(path.drop_first());
    }
}

/// Housekeeping is what a client sends to enter itself, in whatever way, and what the
/// dashboard asks for again and again; nothing else is, and asking is not changing.
pub proof fn law_housekeeping(method: &str, path: &str, r: bool)
    requires
        call_ensures(is_poll, (method, path), r),
    ensures
        path@ == "/api/clients/register"@ || path@ == "/api/clients/add"@ ==> r,
        method@ == "GET"@ && (path@ == "/api/status"@ || path@ == "/api/hosts"@ || path@
            == "/api/clients"@ || path@ == "/api/alerts"@) ==> r,
        r && method@ != "GET"@ ==> path@ == "/api/clients/register"@ || path@ == "/api/clients/add"@,
        path@ != "/api/clients/register"@ && path@ != "/api/clients/add"@ && path@ != "/api/status"@
            && path@ != "/api/hosts"@ && path@ != "/api/clients"@ && path@ != "/api/alerts"@ ==> !r,
{
}

/// A license key is what is left of it without space around it, if anything is.
pub proof fn law_license_key(req: ActivateRequest, r: Result<String, String>)
    requires
        call_ensures(license_key, (&req,), r),
    ensures
        r is Ok <==> crate::text::trimmed(req.key@).len() > 0,
        r matches Ok(key) ==> key@ == crate::text::trimmed(req.key@),
        r matches Err(e) ==> e@ == "License key is required"@,
{
}

} // verus!
