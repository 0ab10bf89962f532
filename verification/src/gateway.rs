//! Decisions of the upstream gateway: when the alternate Codex path is not retried,
//! and which upstream model a request log records.
use vstd::prelude::*;
use crate::table::{first_index, lemma_first_index_scan};
use crate::text::{chars_of, normalize_optional_seq, normalize_optional_text, opt_str_view, opt_view, str_equal, string_from_range};

verus! {

/// A query string starts here.
pub open spec fn is_query_mark() -> spec_fn(char) -> bool {
    |c: char| c == '?'
}

/// The part of a URL before its query string.
pub open spec fn url_path_part(url: Seq<char>) -> Seq<char> {
    let q = first_index(url, is_query_mark());
    if q < 0 {
        url
    } else {
        url.take(q)
    }
}

/// `suffix` ends `s`.
pub open spec fn has_suffix(s: Seq<char>, suffix: Seq<char>) -> bool {
    suffix.len() <= s.len() && s.skip(s.len() - suffix.len()) == suffix
}

/// The path of the Codex responses endpoint.
pub open spec fn codex_responses_path() -> Seq<char> {
    "/codex/v1/responses"@
}

/// Whether `s` ends with `suffix`.
fn ends_with(s: &str, suffix: &str) -> (res: bool)
    ensures
        res == has_suffix(s@, suffix@),
{
    let x = chars_of(s);
    let p = chars_of(suffix);
    if p.len() > x.len() {
        return false;
    }
    let xl = x.len();
    let off = xl - p.len();
    let mut i: usize = 0;
    while i < p.len()
        invariant
            x@ == s@,
            xl == x@.len(),
            p@ == suffix@,
            off + p@.len() == x@.len(),
            0 <= i <= p@.len(),
            forall|k: int| 0 <= k < i ==> x@[off + k] == p@[k],
        decreases p@.len() - i,
    {
        if x[off + i] != p[i] {
            proof {
                assert(s@.skip(off as int)[i as int] != suffix@[i as int]);
            }
            return false;
        }
        i += 1;
    }
    assert(s@.skip(off as int) =~= suffix@);
    true
}

/// The part of a URL before its query string.
fn path_part(url: &str) -> (res: String)
    ensures
        res@ == url_path_part(url@),
{
    let v = chars_of(url);
    let mut i: usize = 0;
    while i < v.len()
        invariant
            v@ == url@,
            0 <= i <= v@.len(),
            forall|k: int| 0 <= k < i ==> !is_query_mark()(#[trigger] v@[k]),
        decreases v@.len() - i,
    {
        if v[i] == '?' {
            proof {
                lemma_first_index_scan(url@, is_query_mark(), i as int);
            }
            return string_from_range(&v, 0, i);
        }
        i += 1;
    }
    proof {
        lemma_first_index_scan(url@, is_query_mark(), i as int);
    }
    assert(v@.subrange(0, v@.len() as int) =~= v@);
    string_from_range(&v, 0, v.len())
}

/// Whether a request to `url` goes to the Codex responses endpoint, for which the
/// alternate path is not retried: the URL's path, before any query string, ends
/// with `/codex/v1/responses`.
pub fn should_skip_codex_v1_alt_for_responses(url: &str) -> (res: bool)
    ensures
        res == has_suffix(url_path_part(url@), codex_responses_path()),
{
    let path = path_part(url);
    ends_with(path.as_str(), "/codex/v1/responses")
}

/// The upstream model worth recording for a request: the trimmed upstream model,
/// unless it is absent, blank, or the same as the trimmed platform model.
pub open spec fn logged_upstream_model(platform_model: Option<Seq<char>>, upstream_model: Option<Seq<char>>) -> Option<
    Seq<char>,
> {
    match normalize_optional_seq(upstream_model) {
        None => None,
        Some(u) => if normalize_optional_seq(platform_model) == Some(u) {
            None
        } else {
            Some(u)
        },
    }
}

/// The upstream model to record in the request log, when it differs from the
/// platform model the client asked for.
pub fn resolve_direct_upstream_model_for_log(
    platform_model: Option<&str>,
    upstream_model: Option<&str>,
) -> (res: Option<String>)
    ensures
        opt_view(res) == logged_upstream_model(opt_str_view(platform_model), opt_str_view(upstream_model)),
{
    let upstream = match normalize_optional_text(upstream_model) {
        None => {
            return None;
        },
        Some(u) => u,
    };
    match normalize_optional_text(platform_model) {
        Some(p) => if str_equal(p.as_str(), upstream.as_str()) {
            None
        } else {
            Some(upstream)
        },
        None => Some(upstream),
    }
}

} // verus!
