//! Endpoint URL rewriting: every occurrence of the default local validator
//! endpoints in a submitted snippet is replaced by operator-configured
//! addresses before the snippet runs.

use vstd::prelude::*;
use crate::text::contains_seq;
use crate::text::lemma_occurrence_preserved;
use crate::text::lemma_replace_all_absent;
use crate::text::lemma_replace_all_inserts;
use crate::text::matches_at;
use crate::text::replace_all;
use crate::text::replace_all_bytes;
use crate::text::replacement_safe;

verus! {

/// Byte text of the default local HTTP endpoint, `http://127.0.0.1:8899`.
pub open spec fn http_default() -> Seq<u8> {
    seq![
        'h' as u8, 't' as u8, 't' as u8, 'p' as u8, ':' as u8, '/' as u8, '/' as u8,
        '1' as u8, '2' as u8, '7' as u8, '.' as u8, '0' as u8, '.' as u8, '0' as u8,
        '.' as u8, '1' as u8, ':' as u8, '8' as u8, '8' as u8, '9' as u8, '9' as u8,
    ]
}

/// Byte text of the default local WebSocket endpoint, `ws://127.0.0.1:8900`.
pub open spec fn ws_default() -> Seq<u8> {
    seq![
        'w' as u8, 's' as u8, ':' as u8, '/' as u8, '/' as u8,
        '1' as u8, '2' as u8, '7' as u8, '.' as u8, '0' as u8, '.' as u8, '0' as u8,
        '.' as u8, '1' as u8, ':' as u8, '8' as u8, '9' as u8, '0' as u8, '0' as u8,
    ]
}

/// The default local HTTP endpoint as an owned byte vector.
pub fn http_default_bytes() -> (r: Vec<u8>)
    ensures
        r@ == http_default(),
{
    let mut v: Vec<u8> = Vec::new();
    v.push('h' as u8);
    v.push('t' as u8);
    v.push('t' as u8);
    v.push('p' as u8);
    v.push(':' as u8);
    v.push('/' as u8);
    v.push('/' as u8);
    v.push('1' as u8);
    v.push('2' as u8);
    v.push('7' as u8);
    v.push('.' as u8);
    v.push('0' as u8);
    v.push('.' as u8);
    v.push('0' as u8);
    v.push('.' as u8);
    v.push('1' as u8);
    v.push(':' as u8);
    v.push('8' as u8);
    v.push('8' as u8);
    v.push('9' as u8);
    v.push('9' as u8);
    proof {
        assert(v@ =~= http_default());
    }
    v
}

/// The default local WebSocket endpoint as an owned byte vector.
pub fn ws_default_bytes() -> (r: Vec<u8>)
    ensures
        r@ == ws_default(),
{
    let mut v: Vec<u8> = Vec::new();
    v.push('w' as u8);
    v.push('s' as u8);
    v.push(':' as u8);
    v.push('/' as u8);
    v.push('/' as u8);
    v.push('1' as u8);
    v.push('2' as u8);
    v.push('7' as u8);
    v.push('.' as u8);
    v.push('0' as u8);
    v.push('.' as u8);
    v.push('0' as u8);
    v.push('.' as u8);
    v.push('1' as u8);
    v.push(':' as u8);
    v.push('8' as u8);
    v.push('9' as u8);
    v.push('0' as u8);
    v.push('0' as u8);
    proof {
        assert(v@ =~= ws_default());
    }
    v
}

/// The snippet text after both default endpoints have been rewritten:
/// first every HTTP default becomes `http_url`, then every WebSocket
/// default becomes `ws_url`.
pub open spec fn rewritten(code: Seq<u8>, http_url: Seq<u8>, ws_url: Seq<u8>) -> Seq<u8> {
    replace_all(replace_all(code, http_default(), http_url), ws_default(), ws_url)
}

/// Rewrites the default local endpoints in `code` to the configured ones.
pub fn rewrite_endpoints(code: &[u8], http_url: &[u8], ws_url: &[u8]) -> (r: Vec<u8>)
    ensures
        r@ == rewritten(code@, http_url@, ws_url@),
{
    let pat_http = http_default_bytes();
    let pat_ws = ws_default_bytes();
    let mid = replace_all_bytes(code, pat_http.as_slice(), http_url);
    replace_all_bytes(mid.as_slice(), pat_ws.as_slice(), ws_url)
}

/// Whatever the submitted code, the rewritten text holds no occurrence of
/// either default endpoint, provided the configured replacements are safe
/// for both patterns: a replacement that itself holds a default, or that
/// overlaps one across a splice point, can reintroduce it.
pub proof fn lemma_rewrite_scrubs_defaults(code: Seq<u8>, http_url: Seq<u8>, ws_url: Seq<u8>)
    requires
        replacement_safe(http_default(), http_url),
        replacement_safe(ws_default(), ws_url),
        replacement_safe(http_default(), ws_url),
    ensures
        !contains_seq(rewritten(code, http_url, ws_url), http_default()),
        !contains_seq(rewritten(code, http_url, ws_url), ws_default()),
{
    let mid = replace_all(code, http_default(), http_url);
    lemma_replace_all_absent(code, http_default(), http_default(), http_url);
    lemma_replace_all_absent(mid, ws_default(), ws_default(), ws_url);
    lemma_replace_all_absent(mid, http_default(), ws_default(), ws_url);
}

/// Occurrences of the two default endpoints never overlap: the HTTP
/// default holds no `w`, so it cannot reach into a WebSocket default,
/// whose first byte is one; and the WebSocket default holds no `h`, so
/// the reverse is impossible too.
proof fn lemma_defaults_never_overlap(s: Seq<u8>, q1: int, q2: int)
    requires
        matches_at(s, http_default(), q1),
        matches_at(s, ws_default(), q2),
    ensures
        q1 + http_default().len() <= q2 || q2 + ws_default().len() <= q1,
{
    if q1 + http_default().len() > q2 && q2 + ws_default().len() > q1 {
        if q1 <= q2 {
            assert(s.subrange(q1, q1 + http_default().len() as int)[q2 - q1] == s[q2]);
            assert(s.subrange(q2, q2 + ws_default().len() as int)[0] == s[q2]);
            assert(http_default()[q2 - q1] == ('w' as u8));
            assert(false);
        } else {
            assert(s.subrange(q2, q2 + ws_default().len() as int)[q1 - q2] == s[q1]);
            assert(s.subrange(q1, q1 + http_default().len() as int)[0] == s[q1]);
            assert(ws_default()[q1 - q2] == ('h' as u8));
            assert(false);
        }
    }
}

/// Code that names the default WebSocket endpoint is really rewired:
/// whatever the configured replacements, the rewritten text holds the
/// configured WebSocket address.  The occurrence survives the HTTP pass
/// untouched — the two defaults cannot overlap — and the WebSocket pass
/// then turns it into the replacement.
pub proof fn lemma_rewrite_applies_ws(code: Seq<u8>, http_url: Seq<u8>, ws_url: Seq<u8>)
    requires
        contains_seq(code, ws_default()),
    ensures
        contains_seq(rewritten(code, http_url, ws_url), ws_url),
{
    let q = choose|q: int| matches_at(code, ws_default(), q);
    assert forall|k: int| matches_at(code, http_default(), k) implies k + http_default().len()
        <= q || k >= q + ws_default().len() by {
        lemma_defaults_never_overlap(code, k, q);
    }
    lemma_occurrence_preserved(code, ws_default(), http_default(), http_url, q);
    let mid = replace_all(code, http_default(), http_url);
    lemma_replace_all_inserts(mid, ws_default(), ws_url);
}

} // verus!
