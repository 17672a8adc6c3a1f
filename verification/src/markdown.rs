//! Markdown rendering.
//!
//! Before the text reaches the parser, consecutive blockquote lines are
//! separated by an empty blockquote line (`>`), so each renders as its
//! own paragraph within one blockquote.

use vstd::prelude::*;
use crate::text::{lemma_find, spec_find};
use markdown_it::plugins::{cmark, extra, html};

verus! {

/// Whitespace, as `char::is_whitespace` defines it: the characters
/// with the Unicode `White_Space` property.
pub open spec fn spec_is_ws(c: char) -> bool {
    ||| c == ' '
    ||| ('\u{9}' <= c && c <= '\u{D}')
    ||| c == '\u{85}'
    ||| c == '\u{A0}'
    ||| c == '\u{1680}'
    ||| ('\u{2000}' <= c && c <= '\u{200A}')
    ||| c == '\u{2028}'
    ||| c == '\u{2029}'
    ||| c == '\u{202F}'
    ||| c == '\u{205F}'
    ||| c == '\u{3000}'
}

/// The line without its leading whitespace.
pub open spec fn spec_trim_start(l: Seq<char>) -> Seq<char>
    decreases l.len(),
{
    if l.len() > 0 && spec_is_ws(l[0]) {
        spec_trim_start(l.drop_first())
    } else {
        l
    }
}

/// Is this line a blockquote line (first non-blank character `>`)?
pub open spec fn line_is_blockquote(l: Seq<char>) -> bool {
    spec_trim_start(l).len() > 0 && spec_trim_start(l)[0] == '>'
}

/// Is this line an empty blockquote line (just `>`)?
pub open spec fn line_is_empty_blockquote(l: Seq<char>) -> bool {
    spec_trim_start(l) == ">"@
}

/// The line without one trailing carriage return, if any.
pub open spec fn strip_cr(l: Seq<char>) -> Seq<char> {
    if l.len() > 0 && l[l.len() - 1] == '\r' {
        l.drop_last()
    } else {
        l
    }
}

/// The lines of a text, as `str::lines` splits them: a line ends at a
/// newline (consumed, with one directly preceding carriage return
/// stripped) or at the end of the text (kept exactly as it stands,
/// a final bare carriage return included); a trailing newline opens
/// no further line.
pub open spec fn spec_lines(s: Seq<char>) -> Seq<Seq<char>>
    decreases s.len(),
{
    if s.len() == 0 {
        Seq::empty()
    } else {
        match spec_find(s, seq!['\n']) {
            Some(i) => if 0 <= i < s.len() {
                seq![strip_cr(s.take(i))] + spec_lines(s.skip(i + 1))
            } else {
                // a found index always lies inside the text
                seq![s]
            },
            None => seq![s],
        }
    }
}

/// The lines with an empty blockquote line inserted between every two
/// consecutive blockquote lines, as the preprocessing emits them.
pub open spec fn spec_process_lines(ls: Seq<Seq<char>>, prev_was_blockquote: bool) -> Seq<
    Seq<char>,
>
    decreases ls.len(),
{
    if ls.len() == 0 {
        Seq::empty()
    } else {
        let l = ls[0];
        let is_bq = line_is_blockquote(l);
        let head = if is_bq && prev_was_blockquote && !line_is_empty_blockquote(l) {
            seq![">"@, l]
        } else {
            seq![l]
        };
        head + spec_process_lines(ls.drop_first(), is_bq)
    }
}

/// The lines joined back with single newlines.
pub open spec fn spec_join_lines(ls: Seq<Seq<char>>) -> Seq<char>
    decreases ls.len(),
{
    if ls.len() == 0 {
        Seq::empty()
    } else if ls.len() == 1 {
        ls[0]
    } else {
        ls[0] + "\n"@ + spec_join_lines(ls.drop_first())
    }
}

/// Joining after appending one line appends the line after one
/// newline (or is just the line, when nothing came before).
pub proof fn lemma_join_push(ls: Seq<Seq<char>>, x: Seq<char>)
    ensures
        spec_join_lines(ls.push(x)) == if ls.len() == 0 {
            x
        } else {
            spec_join_lines(ls) + "\n"@ + x
        },
    decreases ls.len(),
{
    if ls.len() == 0 {
        assert(ls.push(x)[0] == x);
    } else if ls.len() == 1 {
        assert(ls.push(x).drop_first() =~~= seq![x]);
        assert(spec_join_lines(seq![x]) == x);
        assert(ls.push(x)[0] == ls[0]);
    } else {
        lemma_join_push(ls.drop_first(), x);
        assert(ls.push(x).drop_first() =~~= ls.drop_first().push(x));
        assert(ls.push(x)[0] == ls[0]);
        assert(ls[0] + "\n"@ + (spec_join_lines(ls.drop_first()) + "\n"@ + x) =~= (ls[0] + "\n"@
            + spec_join_lines(ls.drop_first())) + "\n"@ + x);
    }
}

/// The whole preprocessing: split into lines, separate consecutive
/// blockquote lines, join with newlines.
pub open spec fn spec_preprocess_blockquotes(s: Seq<char>) -> Seq<char> {
    spec_join_lines(spec_process_lines(spec_lines(s), false))
}

fn char_is_ws(c: char) -> (r: bool)
    ensures
        r == spec_is_ws(c),
{
    c == ' ' || ('\u{9}' <= c && c <= '\u{D}') || c == '\u{85}' || c == '\u{A0}' || c == '\u{1680}'
        || ('\u{2000}' <= c && c <= '\u{200A}') || c == '\u{2028}' || c == '\u{2029}' || c
        == '\u{202F}' || c == '\u{205F}' || c == '\u{3000}'
}

/// Classify a line: is it a blockquote line, and is it an empty one?
fn classify_line(l: &str) -> (r: (bool, bool))
    ensures
        r.0 == line_is_blockquote(l@),
        r.1 == line_is_empty_blockquote(l@),
{
    let n = l.unicode_len();
    let mut i: usize = 0;
    let mut stop = false;
    proof {
        assert(l@.skip(0) =~= l@);
    }
    while i < n && !stop
        invariant
            i <= n,
            n == l@.len(),
            spec_trim_start(l@) == spec_trim_start(l@.skip(i as int)),
            stop ==> i < n && !spec_is_ws(l@[i as int]),
        decreases n - i + if stop {
            0int
        } else {
            1int
        },
    {
        if char_is_ws(l.get_char(i)) {
            proof {
                assert(l@.skip(i as int).drop_first() =~= l@.skip(i + 1));
            }
            i += 1;
        } else {
            stop = true;
        }
    }
    proof {
        assert(spec_trim_start(l@) == l@.skip(i as int));
    }
    let is_bq = if i < n {
        l.get_char(i) == '>'
    } else {
        false
    };
    let is_empty = is_bq && i + 1 == n;
    proof {
        reveal_strlit(">");
        if is_bq {
            assert(l@.skip(i as int)[0] == l@[i as int]);
            if i + 1 == n {
                assert(l@.skip(i as int) =~= ">"@);
            } else {
                assert(l@.skip(i as int).len() > 1);
            }
        } else {
            if line_is_empty_blockquote(l@) {
                assert(l@.skip(i as int)[0] == '>');
                assert(false);
            }
        }
    }
    (is_bq, is_empty)
}

/// One line's content: the characters up to `e`, a trailing carriage
/// return stripped.
fn take_line(rest: &str, e: usize) -> (line: String)
    requires
        e <= rest@.len(),
    ensures
        line@ == strip_cr(rest@.take(e as int)),
{
    let l = rest.substring_char(0, e);
    proof {
        assert(l@ =~= rest@.take(e as int));
    }
    if e > 0 && l.get_char(e - 1) == '\r' {
        let stripped = rest.substring_char(0, e - 1);
        proof {
            assert(stripped@ =~= l@.drop_last());
        }
        stripped.to_owned()
    } else {
        l.to_owned()
    }
}

/// Split a text into its lines.
fn split_lines(s: &str) -> (lines: Vec<String>)
    ensures
        lines.deep_view() == spec_lines(s@),
{
    let n = s.unicode_len();
    let mut lines: Vec<String> = Vec::new();
    let mut pos: usize = 0;
    proof {
        reveal_strlit("\n");
        assert("\n"@ =~= seq!['\n']);
        assert(s@.skip(0) =~= s@);
        assert(lines.deep_view() =~= Seq::<Seq<char>>::empty());
        assert(lines.deep_view() + spec_lines(s@) =~~= spec_lines(s@));
    }
    while pos < n
        invariant
            pos <= n,
            n == s@.len(),
            spec_lines(s@) == lines.deep_view() + spec_lines(s@.skip(pos as int)),
        decreases n - pos,
    {
        let rest = s.substring_char(pos, n);
        proof {
            reveal_strlit("\n");
            assert("\n"@ =~= seq!['\n']);
            assert(rest@ =~= s@.skip(pos as int));
        }
        let ghost old_dv = lines.deep_view();
        match crate::text::find_sub(rest, "\n") {
            Some(i) => {
                proof {
                    lemma_find(rest@, "\n"@);
                }
                let line = take_line(rest, i);
                lines.push(line);
                proof {
                    assert(spec_lines(rest@) == seq![strip_cr(rest@.take(i as int))]
                        + spec_lines(rest@.skip(i + 1)));
                    assert(rest@.skip(i + 1) =~= s@.skip(pos + i + 1));
                    assert(lines.deep_view() =~~= old_dv.push(strip_cr(rest@.take(i as int))));
                    assert(old_dv + (seq![strip_cr(rest@.take(i as int))] + spec_lines(
                        rest@.skip(i + 1),
                    )) =~~= lines.deep_view() + spec_lines(rest@.skip(i + 1)));
                }
                pos = pos + i + 1;
            },
            None => {
                let line = rest.to_owned();
                lines.push(line);
                proof {
                    assert(lines.deep_view() =~~= old_dv.push(rest@));
                    assert(old_dv + seq![rest@] =~~= lines.deep_view());
                    assert(s@.skip(n as int) =~= Seq::<char>::empty());
                    assert(lines.deep_view() + spec_lines(s@.skip(n as int)) =~~=
                        lines.deep_view());
                }
                pos = n;
            },
        }
    }
    proof {
        assert(s@.skip(n as int) =~= Seq::<char>::empty());
        assert(lines.deep_view() + spec_lines(s@.skip(n as int)) =~~= lines.deep_view());
    }
    lines
}

/// Insert an empty blockquote line between consecutive blockquote
/// lines, so the parser renders each as a separate paragraph within
/// the same blockquote.
pub fn preprocess_blockquotes(input: &str) -> (r: String)
    ensures
        r@ == spec_preprocess_blockquotes(input@),
{
    let lines = split_lines(input);
    let ghost ld = lines.deep_view();
    let ghost full = spec_process_lines(ld, false);
    let mut result = String::new();
    let ghost mut done: Seq<Seq<char>> = Seq::empty();
    let mut prev_was_blockquote = false;
    let mut k: usize = 0;
    proof {
        assert(ld.skip(0) =~~= ld);
        assert(done + spec_process_lines(ld, false) =~~= full);
    }
    while k < lines.len()
        invariant
            k <= lines.len(),
            ld == lines.deep_view(),
            full == spec_process_lines(ld, false),
            done + spec_process_lines(ld.skip(k as int), prev_was_blockquote) == full,
            result@ == spec_join_lines(done),
            k == 0 ==> !prev_was_blockquote,
            (done.len() == 0) == (k == 0),
        decreases lines.len() - k,
    {
        let line = &lines[k];
        let (is_bq, is_empty_bq) = classify_line(line.as_str());
        let ghost done0 = done;
        let ghost rest = ld.skip(k as int);
        proof {
            assert(rest[0] == ld[k as int]);
            assert(ld[k as int] == line@);
            assert(rest.drop_first() =~~= ld.skip(k + 1));
        }
        let ghost head: Seq<Seq<char>> = if is_bq && prev_was_blockquote && !is_empty_bq {
            seq![">"@, line@]
        } else {
            seq![line@]
        };
        proof {
            assert(spec_process_lines(rest, prev_was_blockquote) == head + spec_process_lines(
                ld.skip(k + 1),
                is_bq,
            ));
        }
        if is_bq && prev_was_blockquote && !is_empty_bq {
            result.append("\n");
            result.append(">");
            proof {
                lemma_join_push(done, ">"@);
                done = done.push(">"@);
            }
        }
        if k > 0 {
            result.append("\n");
        }
        result.append(line.as_str());
        proof {
            lemma_join_push(done, line@);
            let done_new = done.push(line@);
            assert(done0 + head =~~= done_new);
            assert((done0 + head) + spec_process_lines(ld.skip(k + 1), is_bq) =~~= done0 + (head
                + spec_process_lines(ld.skip(k + 1), is_bq)));
            done = done_new;
        }
        prev_was_blockquote = is_bq;
        k += 1;
    }
    proof {
        assert(ld.skip(ld.len() as int) =~~= Seq::<Seq<char>>::empty());
        assert(done + Seq::<Seq<char>>::empty() =~~= done);
    }
    result
}

/// The HTML that the configured markdown parser renders for a text.
pub uninterp spec fn markdown_html(src: Seq<char>) -> Seq<char>;

/// Relies on `markdown_it::MarkdownIt` configured with the CommonMark
/// rules, the smartquotes, tables, strikethrough, syntect,
/// typographer and html plugins, the footnote plugins and the image
/// lazy-loading plugin: rendering is a function of the source text.
#[verifier::external_body]
fn render_markdown_ast(src: &str) -> (r: String)
    ensures
        r@ == markdown_html(src@),
{
    let mut parser = markdown_it::MarkdownIt::new();
    cmark::add(&mut parser);
    extra::smartquotes::add(&mut parser);
    extra::tables::add(&mut parser);
    extra::strikethrough::add(&mut parser);
    extra::syntect::add(&mut parser);
    extra::typographer::add(&mut parser);
    html::add(&mut parser);
    markdown_it_footnote::definitions::add(&mut parser);
    markdown_it_footnote::references::add(&mut parser);
    markdown_it_footnote::inline::add(&mut parser);
    markdown_it_footnote::collect::add(&mut parser);
    markdown_it_footnote::back_refs::add(&mut parser);
    markdown_it_lazyload::add(&mut parser);
    parser.parse(src).render()
}

/// Render markdown to HTML, after the blockquote preprocessing.
pub fn render(input: &str) -> (r: String)
    ensures
        r@ == markdown_html(spec_preprocess_blockquotes(input@)),
{
    let preprocessed = preprocess_blockquotes(input);
    render_markdown_ast(preprocessed.as_str())
}

} // verus!
