//! Path and template-text utilities of the publishing pipeline.

use vstd::prelude::*;
use vstd::string::StringExecFns;
use crate::text::{
    contains_seq, contains_sub, ends_with_str, rfind_sub, replace_all, spec_replace, spec_rfind,
    starts_with_str, str_eq,
};

verus! {

/// The text with every `{% raw %}` and `{% endraw %}` marker removed.
pub open spec fn spec_remove_template_engines_syntax(text: Seq<char>) -> Seq<char> {
    spec_replace(
        spec_replace(text, "{% raw %}"@, Seq::empty()),
        "{% endraw %}"@,
        Seq::empty(),
    )
}

/// Remove the template engine's raw markers from the text.
pub fn remove_template_engines_syntax(text: &str) -> (r: String)
    ensures
        r@ == spec_remove_template_engines_syntax(text@),
{
    proof {
        reveal_strlit("{% raw %}");
        reveal_strlit("{% endraw %}");
        reveal_strlit("");
        assert(""@ =~= Seq::<char>::empty());
    }
    let pass = replace_all(text, "{% raw %}", "");
    replace_all(pass.as_str(), "{% endraw %}", "")
}

/// The canonical site path for a resource: a trailing slash is added,
/// a final `index.html` component is dropped, a leading slash is
/// added, and an article is rooted under `/articles`.
pub open spec fn spec_format_path(path: Seq<char>, content_type: Seq<char>) -> Seq<char> {
    let with_slash = if "/"@.is_suffix_of(path) {
        path
    } else {
        path + "/"@
    };
    let without_html = match spec_rfind(with_slash, ".html/"@) {
        Some(index) => {
            let prefix = with_slash.take(index);
            match spec_rfind(prefix, "/"@) {
                Some(slash_index) => prefix.take(slash_index + 1),
                None => with_slash,
            }
        },
        None => with_slash,
    };
    let rooted = if "/"@.is_prefix_of(without_html) {
        without_html
    } else {
        "/"@ + without_html
    };
    if content_type == "article"@ && !contains_seq(rooted, "/articles"@) {
        "/articles"@ + rooted
    } else {
        rooted
    }
}

/// Format a resource path for publishing.
pub fn format_path(path: &str, content_type: &str) -> (r: String)
    ensures
        r@ == spec_format_path(path@, content_type@),
{
    proof {
        reveal_strlit("/");
        reveal_strlit(".html/");
        reveal_strlit("/articles");
    }
    let with_slash: String = if ends_with_str(path, "/") {
        path.to_owned()
    } else {
        path.to_owned().concat("/")
    };
    let without_html: String = match rfind_sub(with_slash.as_str(), ".html/") {
        Some(index) => {
            proof {
                crate::text::lemma_rfind(with_slash@, ".html/"@);
            }
            let prefix = with_slash.as_str().substring_char(0, index);
            proof {
                assert(prefix@ =~= with_slash@.take(index as int));
            }
            match rfind_sub(prefix, "/") {
                Some(slash_index) => {
                    proof {
                        crate::text::lemma_rfind(prefix@, "/"@);
                    }
                    let kept = prefix.substring_char(0, slash_index + 1);
                    proof {
                        assert(kept@ =~= prefix@.take(slash_index + 1));
                    }
                    kept.to_owned()
                },
                None => with_slash.clone(),
            }
        },
        None => with_slash.clone(),
    };
    let rooted: String = if starts_with_str(without_html.as_str(), "/") {
        without_html
    } else {
        String::from_str("/").concat(without_html.as_str())
    };
    if str_eq(content_type, "article") && !contains_sub(rooted.as_str(), "/articles") {
        String::from_str("/articles").concat(rooted.as_str())
    } else {
        rooted
    }
}

/// Whether a glob pattern matches a path.
pub uninterp spec fn glob_matches(pattern: Seq<char>, path: Seq<char>) -> bool;

/// Relies on `glob_match::glob_match`: whether a glob pattern matches
/// a path is a function of the two strings.
#[verifier::external_body]
fn glob_match_str(pattern: &str, path: &str) -> (r: bool)
    ensures
        r == glob_matches(pattern@, path@),
{
    glob_match::glob_match(pattern, path)
}

/// Does any pattern of the skip list match the path?
pub open spec fn spec_should_skip_paths(path: Seq<char>, skip_paths: Seq<Seq<char>>) -> bool {
    exists|i: int| 0 <= i < skip_paths.len() && glob_matches(skip_paths[i], path)
}

/// Should this path be left out of publishing, per the configured glob
/// patterns?
pub fn should_skip_paths(path: &str, skip_paths: &Vec<String>) -> (r: bool)
    ensures
        r == spec_should_skip_paths(path@, skip_paths.deep_view()),
{
    let mut i: usize = 0;
    while i < skip_paths.len()
        invariant
            i <= skip_paths.len(),
            forall|j: int|
                0 <= j < i ==> !glob_matches(#[trigger] skip_paths.deep_view()[j], path@),
        decreases skip_paths.len() - i,
    {
        if glob_match_str(skip_paths[i].as_str(), path) {
            proof {
                assert(skip_paths.deep_view()[i as int] == skip_paths@[i as int]@);
            }
            return true;
        }
        i += 1;
    }
    false
}

} // verus!
