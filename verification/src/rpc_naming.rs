//! Naming of RPC endpoints for metrics: which provider a URL belongs to and
//! which API key (shortened) it carries.

use vstd::prelude::*;
use vstd::utf8::*;
use vstd::string::*;
use crate::text::{chars_of, contains_chars, find_bytes_from, find_from, lemma_boundary_after_ascii, lemma_find_from, occurs_at, seq_contains};

verus! {

broadcast use {vstd::string::group_string_axioms, vstd::utf8::encode_utf8_valid_utf8,
    vstd::utf8::encode_utf8_decode_utf8};

/// The provider label of an RPC URL: the first known provider whose name
/// occurs in the URL, `localhost` for local endpoints, `unknown` otherwise.
pub open spec fn provider_name(url: Seq<char>) -> Seq<char> {
    if seq_contains(url, "helius"@) {
        "helius"@
    } else if seq_contains(url, "flux"@) {
        "flux"@
    } else if seq_contains(url, "quicknode"@) {
        "quicknode"@
    } else if seq_contains(url, "alchemy"@) {
        "alchemy"@
    } else if seq_contains(url, "triton"@) {
        "triton"@
    } else if seq_contains(url, "rpcpool"@) {
        "rpcpool"@
    } else if seq_contains(url, "localhost"@) || seq_contains(url, "127.0.0.1"@) {
        "localhost"@
    } else {
        "unknown"@
    }
}

/// Extract a provider name from an RPC URL.
pub fn extract_provider_name(url: &str) -> (name: String)
    ensures
        name@ == provider_name(url@),
{
    let u = chars_of(url);
    if contains_chars(&u, &chars_of("helius")) {
        "helius".to_owned()
    } else if contains_chars(&u, &chars_of("flux")) {
        "flux".to_owned()
    } else if contains_chars(&u, &chars_of("quicknode")) {
        "quicknode".to_owned()
    } else if contains_chars(&u, &chars_of("alchemy")) {
        "alchemy".to_owned()
    } else if contains_chars(&u, &chars_of("triton")) {
        "triton".to_owned()
    } else if contains_chars(&u, &chars_of("rpcpool")) {
        "rpcpool".to_owned()
    } else if contains_chars(&u, &chars_of("localhost")) || contains_chars(&u, &chars_of("127.0.0.1")) {
        "localhost".to_owned()
    } else {
        "unknown".to_owned()
    }
}

/// Byte offset where the API key value starts: just after the first
/// `api-key=`, or else after the first `api_key=`.
pub open spec fn key_value_start(b: Seq<u8>) -> Option<int> {
    match find_from(b, "api-key=".spec_bytes(), 0) {
        Some(i) => Some(i + 8),
        None => match find_from(b, "api_key=".spec_bytes(), 0) {
            Some(i) => Some(i + 8),
            None => None,
        },
    }
}

/// Byte offset where the API key value starting at `start` ends: the next
/// `&`, or the end of the URL.
pub open spec fn key_value_end(b: Seq<u8>, start: int) -> int {
    match find_from(b, "&".spec_bytes(), start) {
        Some(j) => j,
        None => b.len() as int,
    }
}

/// The shortened API key of a URL (given as UTF-8 bytes): its first 8 bytes
/// followed by `...` when the key has at least 8 bytes, the whole key
/// otherwise, and the empty string when the URL carries no key.
pub open spec fn api_key_id(b: Seq<u8>) -> Seq<char> {
    match key_value_start(b) {
        None => Seq::empty(),
        Some(s) => {
            let e = key_value_end(b, s);
            if e - s >= 8 {
                decode_utf8(b.subrange(s, s + 8)) + "..."@
            } else {
                decode_utf8(b.subrange(s, e))
            }
        },
    }
}

/// The 8-byte prefix of a long key ends on a character boundary (the
/// shortening cuts there).
pub open spec fn key_prefix_on_boundary(b: Seq<u8>) -> bool {
    match key_value_start(b) {
        None => true,
        Some(s) => key_value_end(b, s) - s >= 8 ==> is_char_boundary(b, s + 8),
    }
}

proof fn lemma_literal_bytes()
    ensures
        "api-key=".spec_bytes() =~= seq![97u8, 112, 105, 45, 107, 101, 121, 61],
        "api_key=".spec_bytes() =~= seq![97u8, 112, 105, 95, 107, 101, 121, 61],
        "&".spec_bytes() =~= seq![38u8],
{
    reveal_strlit("api-key=");
    reveal_strlit("api_key=");
    reveal_strlit("&");
    assert(is_ascii("api-key="));
    assert(is_ascii("api_key="));
    assert(is_ascii("&"));
}

/// Every position inside a run of one-byte characters that starts on a
/// character boundary is a boundary too.
proof fn lemma_boundary_after_ascii_run(b: Seq<u8>, i: int, n: int)
    requires
        valid_utf8(b),
        0 <= i,
        0 <= n,
        i + n <= b.len(),
        is_char_boundary(b, i),
        forall|t: int| i <= t < i + n ==> b[t] < 0x80,
    ensures
        is_char_boundary(b, i + n),
    decreases n,
{
    if n > 0 {
        lemma_boundary_after_ascii(b, i);
        lemma_boundary_after_ascii_run(b, i + 1, n - 1);
    }
}

/// Extract an API key identifier from an RPC URL (for example Helius's
/// `?api-key=...`), shortened so that the full key is never logged.
pub fn extract_api_key_id(url: &str) -> (id: String)
    requires
        key_prefix_on_boundary(url.spec_bytes()),
    ensures
        id@ == api_key_id(url.spec_bytes()),
{
    let b = url.as_bytes();
    let blen = b.len();
    let ghost bs = url.spec_bytes();
    proof {
        lemma_literal_bytes();
        lemma_find_from(bs, "api-key=".spec_bytes(), 0);
        lemma_find_from(bs, "api_key=".spec_bytes(), 0);
        is_char_boundary_start_end_of_seq(bs);
    }
    let found = match find_bytes_from(b, "api-key=".as_bytes(), 0) {
        Some(i) => Some(i),
        None => find_bytes_from(b, "api_key=".as_bytes(), 0),
    };
    match found {
        None => String::new(),
        Some(idx) => {
            proof {
                assert(occurs_at(bs, seq![97u8, 112, 105, 45, 107, 101, 121, 61], idx as int)
                    || occurs_at(bs, seq![97u8, 112, 105, 95, 107, 101, 121, 61], idx as int));
                assert(bs.subrange(idx as int, idx + 8)[0] == 97u8);
                assert(bs[idx as int] == 97u8);
                is_char_boundary_iff_not_is_continuation_byte(bs, idx as int);
                assert forall|t: int| idx <= t < idx + 8 implies bs[t] < 0x80 by {
                    assert(bs.subrange(idx as int, idx + 8)[t - idx] == bs[t]);
                }
                lemma_boundary_after_ascii_run(bs, idx as int, 8);
                assert(idx + 8 <= bs.len());
                assert(b@.len() == bs.len());
                assert(blen == bs.len());
            }
            let start = idx + 8;
            proof {
                lemma_find_from(bs, "&".spec_bytes(), start as int);
            }
            let end = match find_bytes_from(b, "&".as_bytes(), start) {
                Some(j) => j,
                None => b.len(),
            };
            let (_, rest) = url.split_at(start);
            proof {
                let r = rest.spec_bytes();
                assert(valid_utf8(r));
                is_char_boundary_start_end_of_seq(r);
                if end < b.len() {
                    assert(bs.subrange(end as int, end + 1)[0] == 38u8);
                    assert(r[end - start] == bs[end as int]);
                    is_char_boundary_iff_not_is_continuation_byte(r, end - start);
                }
            }
            if end - start >= 8 {
                proof {
                    let r = rest.spec_bytes();
                    if start + 8 < b.len() {
                        is_char_boundary_iff_not_is_continuation_byte(bs, start + 8);
                        assert(r[8] == bs[start + 8]);
                        is_char_boundary_iff_not_is_continuation_byte(r, 8);
                    }
                }
                let (key8, _) = rest.split_at(8);
                proof {
                    assert(key8.spec_bytes() =~= bs.subrange(start as int, start + 8));
                }
                let mut id = key8.to_owned();
                id.append("...");
                id
            } else {
                let (key, _) = rest.split_at(end - start);
                proof {
                    assert(key.spec_bytes() =~= bs.subrange(start as int, end as int));
                }
                key.to_owned()
            }
        },
    }
}

} // verus!
