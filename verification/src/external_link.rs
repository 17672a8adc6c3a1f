//! External-link rewriting: every anchor tag of a text whose href
//! leaves the site's host gets `target="_blank"` and a `rel` attribute
//! carrying `noopener`.

use vstd::prelude::*;
use crate::text::{
    contains_seq, contains_sub, matches_at, replace_all, spec_replace, starts_with_str, str_eq,
};
use vstd::string::StringExecFns;

verus! {

/// Whether the URL parser accepts this string.
pub uninterp spec fn url_parses(s: Seq<char>) -> bool;

/// The host of a parsed URL, if it has one; meaningful when
/// `url_parses(s)` holds.
pub uninterp spec fn url_host(s: Seq<char>) -> Option<Seq<char>>;

/// What parsing a URL and asking for its host yields.
pub enum UrlHost {
    /// The string is not a valid URL.
    NoParse,
    /// A valid URL without a host.
    NoHost,
    /// A valid URL with this host.
    Host(String),
}

/// Relies on `url::Url::parse` and `url::Url::host_str`: whether a
/// string parses as a URL, and its host, are functions of the string.
#[verifier::external_body]
fn parse_url_host(s: &str) -> (r: UrlHost)
    ensures
        match r {
            UrlHost::NoParse => !url_parses(s@),
            UrlHost::NoHost => url_parses(s@) && url_host(s@) is None,
            UrlHost::Host(h) => url_parses(s@) && url_host(s@) == Some(h@),
        },
{
    match url::Url::parse(s) {
        Err(_) => UrlHost::NoParse,
        Ok(u) => match u.host_str() {
            None => UrlHost::NoHost,
            Some(h) => UrlHost::Host(h.to_string()),
        },
    }
}

/// A protocol-relative href gets the https scheme for parsing.
pub open spec fn spec_normalized_href(href: Seq<char>) -> Seq<char> {
    if "//"@.is_prefix_of(href) {
        "https:"@ + href
    } else {
        href
    }
}

/// Is the href external to the base URL?  An href that does not parse
/// is internal; a base that does not parse makes everything external;
/// otherwise the hosts decide, and a missing host counts as external.
pub open spec fn spec_is_external_link(href: Seq<char>, base: Seq<char>) -> bool {
    let normalized = spec_normalized_href(href);
    if !url_parses(normalized) {
        false
    } else if !url_parses(base) {
        true
    } else {
        match (url_host(normalized), url_host(base)) {
            (Some(h), Some(b)) => h != b,
            _ => true,
        }
    }
}

/// Check whether an href points away from the base URL's host.
pub fn is_external_link(href: &str, base_url: &str) -> (r: bool)
    ensures
        r == spec_is_external_link(href@, base_url@),
{
    let normalized: String = if starts_with_str(href, "//") {
        String::from_str("https:").concat(href)
    } else {
        href.to_owned()
    };
    match parse_url_host(normalized.as_str()) {
        UrlHost::NoParse => false,
        UrlHost::NoHost => true,
        UrlHost::Host(h) => match parse_url_host(base_url) {
            UrlHost::NoParse => true,
            UrlHost::NoHost => true,
            UrlHost::Host(b) => !str_eq(h.as_str(), b.as_str()),
        },
    }
}

/// Is this character allowed inside a quoted `rel` value?
pub open spec fn spec_is_rel_char(c: char) -> bool {
    c != '<' && c != '>' && c != '"' && c != '\''
}

/// The position of the quote closing a `rel` value that opens at `j`:
/// the first following quote, unless `<`, `>` or the end of the text
/// comes first.
pub open spec fn spec_rel_close(s: Seq<char>, j: int) -> Option<int>
    decreases s.len() - j,
        when 0 <= j <= s.len()
{
    if j >= s.len() {
        None
    } else if s[j] == '"' || s[j] == '\'' {
        Some(j)
    } else if s[j] == '<' || s[j] == '>' {
        None
    } else {
        spec_rel_close(s, j + 1)
    }
}

/// Does a quoted `rel` attribute start at `i`, and where does its
/// value end?
pub open spec fn spec_rel_at(s: Seq<char>, i: int) -> Option<int> {
    if 0 <= i && i + 5 <= s.len() && s.subrange(i, i + 4) == "rel="@ && (s[i + 4] == '"' || s[i
        + 4] == '\'') {
        spec_rel_close(s, i + 5)
    } else {
        None
    }
}

/// The first quoted `rel` attribute at or after `i`: the start of the
/// match and the position of the closing quote.
pub open spec fn spec_find_rel_from(s: Seq<char>, i: nat) -> Option<(int, int)>
    decreases s.len() - i,
        when i <= s.len()
{
    if i + 5 > s.len() {
        None
    } else {
        match spec_rel_at(s, i as int) {
            Some(e) => Some((i as int, e)),
            None => spec_find_rel_from(s, i + 1),
        }
    }
}

/// The first quoted `rel` attribute of the text.
pub open spec fn spec_find_rel(s: Seq<char>) -> Option<(int, int)> {
    spec_find_rel_from(s, 0)
}

/// Find the first quoted `rel` attribute, as the rewriting pattern
/// `rel=["']([^<>"']*)["']` matches it.
fn find_rel(s: &str) -> (r: Option<(usize, usize)>)
    ensures
        match r {
            Some(p) => spec_find_rel(s@) == Some((p.0 as int, p.1 as int)) && p.0 + 5 <= p.1
                < s@.len(),
            None => spec_find_rel(s@) is None,
        },
{
    proof {
        reveal_strlit("rel=");
    }
    let n = s.unicode_len();
    if n < 5 {
        return None;
    }
    let mut i: usize = 0;
    loop
        invariant
            i <= n - 5 + 1,
            5 <= n,
            n == s@.len(),
            spec_find_rel(s@) == spec_find_rel_from(s@, i as nat),
        decreases n - i,
    {
        proof {
            reveal_strlit("rel=");
        }
        if i > n - 5 {
            return None;
        }
        let mut close: Option<usize> = None;
        if matches_at(s, "rel=", i) {
            let q = s.get_char(i + 4);
            if q == '"' || q == '\'' {
                let mut j = i + 5;
                let mut done = false;
                while !done
                    invariant
                        i + 5 <= j <= n,
                        n == s@.len(),
                        !done ==> close is None && spec_rel_close(s@, i + 5) == spec_rel_close(
                            s@,
                            j as int,
                        ),
                        done ==> match close {
                            Some(e) => spec_rel_close(s@, i + 5) == Some(e as int) && i + 5 <= e
                                < n,
                            None => spec_rel_close(s@, i + 5) is None,
                        },
                    decreases n - j + (if done {
                        0int
                    } else {
                        1int
                    }),
                {
                    if j == n {
                        done = true;
                    } else {
                        let c = s.get_char(j);
                        if c == '"' || c == '\'' {
                            close = Some(j);
                            done = true;
                        } else if c == '<' || c == '>' {
                            done = true;
                        } else {
                            j += 1;
                        }
                    }
                }
            }
        }
        match close {
            Some(e) => {
                return Some((i, e));
            },
            None => {
                proof {
                    assert(spec_rel_at(s@, i as int) is None);
                }
            },
        }
        i += 1;
    }
}

/// The text with `noopener` added to the value of its first quoted
/// `rel` attribute; a value already carrying `noopener`, or no such
/// attribute, leaves the text unchanged.
pub open spec fn spec_update_rel(s: Seq<char>) -> Seq<char> {
    match spec_find_rel(s) {
        Some((i, e)) => {
            let value = s.subrange(i + 5, e);
            if contains_seq(value, "noopener"@) {
                s
            } else {
                s.take(i) + "rel=\""@ + value + " noopener\""@ + s.skip(e + 1)
            }
        },
        None => s,
    }
}

/// Add `noopener` to the first quoted `rel` attribute's value.
fn update_rel(full: &str) -> (r: String)
    ensures
        r@ == spec_update_rel(full@),
{
    proof {
        reveal_strlit("noopener");
    }
    match find_rel(full) {
        Some((i, e)) => {
            let n = full.unicode_len();
            let value = full.substring_char(i + 5, e);
            proof {
                assert(value@ =~= full@.subrange(i + 5, e as int));
            }
            if contains_sub(value, "noopener") {
                full.to_owned()
            } else {
                let mut out = full.substring_char(0, i).to_owned();
                proof {
                    assert(out@ =~= full@.take(i as int));
                }
                out.append("rel=\"");
                out.append(value);
                out.append(" noopener\"");
                out.append(full.substring_char(e + 1, n));
                proof {
                    assert(full@.subrange(e + 1, n as int) =~= full@.skip(e + 1));
                }
                out
            }
        },
        None => full.to_owned(),
    }
}

/// What one matched anchor tag is rewritten to: an internal link or a
/// tag already carrying `target=` stays; otherwise `target="_blank"`
/// goes in before `href=`, and the `rel` attribute is added or gets
/// `noopener`.
pub open spec fn spec_rewrite_anchor(full: Seq<char>, href: Seq<char>, base: Seq<char>) -> Seq<
    char,
> {
    if !spec_is_external_link(href, base) || contains_seq(full, "target="@) {
        full
    } else if contains_seq(full, "rel="@) {
        spec_replace(spec_update_rel(full), "href="@, "target=\"_blank\" href="@)
    } else {
        spec_replace(
            full,
            "href="@,
            "target=\"_blank\" rel=\"noopener external nofollow noreferrer\" href="@,
        )
    }
}

/// Rewrite one matched anchor tag.
pub fn rewrite_anchor(full: &str, href: &str, base_url: &str) -> (r: String)
    ensures
        r@ == spec_rewrite_anchor(full@, href@, base_url@),
{
    proof {
        reveal_strlit("target=");
        reveal_strlit("rel=");
        reveal_strlit("href=");
    }
    if !is_external_link(href, base_url) || contains_sub(full, "target=") {
        full.to_owned()
    } else if contains_sub(full, "rel=") {
        let updated = update_rel(full);
        replace_all(updated.as_str(), "href=", "target=\"_blank\" href=")
    } else {
        replace_all(
            full,
            "href=",
            "target=\"_blank\" rel=\"noopener external nofollow noreferrer\" href=",
        )
    }
}

/// The anchor-tag matches of the rewriting pattern in a text: each
/// match's whole tag and captured href, in order.
pub uninterp spec fn anchor_matches(data: Seq<char>) -> Seq<(Seq<char>, Seq<char>)>;

/// Relies on `regex::Regex::captures_iter` with the anchor pattern
/// `<a(?:\s+?|\s+?[^<>]+?\s+?)href=["']((?:https?:|//)[^<>"']+)["'][^<>]*>`:
/// the matches and their capture groups are functions of the text.
#[verifier::external_body]
fn find_anchor_tags(data: &str) -> (r: Vec<(String, String)>)
    ensures
        r.deep_view() == anchor_matches(data@),
{
    let re = regex::Regex::new(
        r#"<a(?:\s+?|\s+?[^<>]+?\s+?)href=["']((?:https?:|//)[^<>"']+)["'][^<>]*>"#,
    ).unwrap();
    re.captures_iter(data).map(
        |c| (c.get(0).unwrap().as_str().to_string(), c.get(1).unwrap().as_str().to_string()),
    ).collect()
}

/// The text with its anchor-tag matches replaced, in order, by the
/// given replacements.
pub uninterp spec fn anchors_replaced(data: Seq<char>, reps: Seq<Seq<char>>) -> Seq<char>;

/// Relies on `regex::Regex::replace_all` with the same anchor pattern:
/// the result splices the replacements, in match order, between the
/// unmatched stretches of the text; with no match the text comes back
/// unchanged.
#[verifier::external_body]
fn replace_anchor_tags(data: &str, reps: &Vec<String>) -> (r: String)
    ensures
        r@ == anchors_replaced(data@, reps.deep_view()),
        anchor_matches(data@).len() == 0 ==> r@ == data@,
{
    let re = regex::Regex::new(
        r#"<a(?:\s+?|\s+?[^<>]+?\s+?)href=["']((?:https?:|//)[^<>"']+)["'][^<>]*>"#,
    ).unwrap();
    let mut k: usize = 0;
    let out = re.replace_all(data, |caps: &regex::Captures| {
        let rep = if k < reps.len() {
            reps[k].clone()
        } else {
            caps.get(0).unwrap().as_str().to_string()
        };
        k += 1;
        rep
    });
    out.to_string()
}

/// The rewrites for a sequence of anchor-tag matches.
pub open spec fn spec_rewrites(ms: Seq<(Seq<char>, Seq<char>)>, base: Seq<char>) -> Seq<
    Seq<char>,
> {
    ms.map_values(|m: (Seq<char>, Seq<char>)| spec_rewrite_anchor(m.0, m.1, base))
}

/// Rewrite every external anchor tag of a text.
pub fn replace_external_link(data: &str, base_url: &str) -> (r: String)
    ensures
        r@ == anchors_replaced(data@, spec_rewrites(anchor_matches(data@), base_url@)),
{
    let tags = find_anchor_tags(data);
    let ghost ms = anchor_matches(data@);
    let mut reps: Vec<String> = Vec::new();
    let mut k: usize = 0;
    while k < tags.len()
        invariant
            k <= tags.len(),
            tags.deep_view() == ms,
            reps.deep_view().len() == k,
            forall|j: int|
                0 <= j < k ==> #[trigger] reps.deep_view()[j] == spec_rewrite_anchor(
                    ms[j].0,
                    ms[j].1,
                    base_url@,
                ),
        decreases tags.len() - k,
    {
        let tag = &tags[k];
        let rewritten = rewrite_anchor(tag.0.as_str(), tag.1.as_str(), base_url);
        let ghost old_reps = reps.deep_view();
        proof {
            assert(ms[k as int] == (tag.0@, tag.1@));
        }
        reps.push(rewritten);
        proof {
            assert(reps.deep_view() =~~= old_reps.push(
                spec_rewrite_anchor(ms[k as int].0, ms[k as int].1, base_url@),
            ));
        }
        k += 1;
    }
    proof {
        assert(reps.deep_view() =~~= spec_rewrites(ms, base_url@));
    }
    replace_anchor_tags(data, &reps)
}

} // verus!
