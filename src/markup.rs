//! Turning a post body into HTML: math delimiters become math markers, the
//! rest is CommonMark.

use vstd::prelude::*;
use vstd::string::StringExecFns;
use crate::text::{chars_of, string_of};

verus! {

/// The pieces of `s` between occurrences of `sep`, as `str::split` gives them.
pub uninterp spec fn split_pieces(s: Seq<char>, sep: Seq<char>) -> Seq<Seq<char>>;

/// The HTML that pulldown-cmark renders for `s`, with tables, footnotes,
/// task lists and strikethrough enabled.
pub uninterp spec fn commonmark_html(s: Seq<char>) -> Seq<char>;

/// Relies on `str::split`: the pieces of `s` between occurrences of `sep`.
#[verifier::external_body]
fn split_str(s: &str, sep: &str) -> (r: Vec<String>)
    ensures
        r@.map_values(|p: String| p@) == split_pieces(s@, sep@),
{
    s.split(sep).map(String::from).collect()
}

/// Relies on `pulldown_cmark::Parser::new_ext` and `pulldown_cmark::html::push_html`:
/// the HTML rendering of the markdown text `s`.
#[verifier::external_body]
fn commonmark_to_html(s: &str) -> (r: String)
    ensures
        r@ == commonmark_html(s@),
{
    let mut opts = pulldown_cmark::Options::empty();
    opts.insert(pulldown_cmark::Options::ENABLE_TABLES);
    opts.insert(pulldown_cmark::Options::ENABLE_FOOTNOTES);
    opts.insert(pulldown_cmark::Options::ENABLE_TASKLISTS);
    opts.insert(pulldown_cmark::Options::ENABLE_STRIKETHROUGH);
    let mut out = String::new();
    pulldown_cmark::html::push_html(&mut out, pulldown_cmark::Parser::new_ext(s, opts));
    out
}

/// Appends the characters of `src` to `dst`.
pub fn append_chars(dst: &mut Vec<char>, src: &Vec<char>)
    ensures
        final(dst)@ == old(dst)@ + src@,
{
    let mut i: usize = 0;
    while i < src.len()
        invariant
            i <= src@.len(),
            dst@ == old(dst)@ + src@.subrange(0, i as int),
        decreases src@.len() - i,
    {
        dst.push(src[i]);
        assert(dst@ =~= old(dst)@ + src@.subrange(0, i + 1));
        i += 1;
    }
    assert(src@.subrange(0, i as int) =~= src@);
}

/// `s` ends with a backslash.
pub open spec fn ends_with_backslash(s: Seq<char>) -> bool {
    s.len() > 0 && s.last() == '\\'
}

/// Pieces built from `cur`, whose last raw piece was `raw`, followed by
/// the raw pieces `rest`: a piece whose raw text ends with a backslash is
/// glued to the next one, the backslash giving way to `sep`.
pub open spec fn glue_escaped(cur: Seq<char>, raw: Seq<char>, rest: Seq<Seq<char>>, sep: Seq<char>) -> Seq<Seq<char>>
    decreases rest.len(),
{
    if rest.len() == 0 {
        seq![cur]
    } else if ends_with_backslash(raw) {
        glue_escaped(cur.drop_last() + sep + rest[0], rest[0], rest.drop_first(), sep)
    } else {
        seq![cur] + glue_escaped(rest[0], rest[0], rest.drop_first(), sep)
    }
}

/// `pieces` with every piece that ends in a backslash glued to the next one.
pub open spec fn merge_escaped(pieces: Seq<Seq<char>>, sep: Seq<char>) -> Seq<Seq<char>> {
    if pieces.len() == 0 {
        Seq::empty()
    } else {
        glue_escaped(pieces[0], pieces[0], pieces.drop_first(), sep)
    }
}

/// The pieces of `s` between the separators: when `escape_backslash`
/// holds, a separator right after a backslash is kept as text.
pub open spec fn split_spec(s: Seq<char>, sep: Seq<char>, escape_backslash: bool) -> Seq<Seq<char>> {
    if escape_backslash {
        merge_escaped(split_pieces(s, sep), sep)
    } else {
        split_pieces(s, sep)
    }
}

/// Splits `string` on `separator`; with `escape_backslash`, a separator
/// preceded by a backslash does not split and the backslash is dropped.
pub fn split(string: &str, separator: &str, escape_backslash: bool) -> (r: Vec<String>)
    ensures
        r@.map_values(|p: String| p@) == split_spec(string@, separator@, escape_backslash),
{
    let pieces = split_str(string, separator);
    if !escape_backslash || pieces.len() == 0 {
        return pieces;
    }
    let ghost ps = pieces@.map_values(|p: String| p@);
    let sep = chars_of(separator);
    let mut r: Vec<String> = Vec::new();
    let mut cur = chars_of(pieces[0].as_str());
    let mut raw_escapes = cur.len() > 0 && cur[cur.len() - 1] == '\\';
    let mut k: usize = 1;
    while k < pieces.len()
        invariant
            1 <= k <= pieces@.len(),
            ps == pieces@.map_values(|p: String| p@),
            sep@ == separator@,
            ps.len() == pieces@.len(),
            merge_escaped(ps, sep@) == r@.map_values(|p: String| p@) + glue_escaped(
                cur@,
                ps[k - 1],
                ps.subrange(k as int, ps.len() as int),
                sep@,
            ),
            raw_escapes == ends_with_backslash(ps[k - 1]),
            raw_escapes ==> cur@.len() > 0 && cur@.last() == '\\',
        decreases pieces@.len() - k,
    {
        let next = chars_of(pieces[k].as_str());
        let ghost rest = ps.subrange(k as int, ps.len() as int);
        assert(rest[0] == next@);
        assert(rest.drop_first() =~= ps.subrange(k + 1, ps.len() as int));
        let next_escapes = next.len() > 0 && next[next.len() - 1] == '\\';
        if raw_escapes {
            let ghost before = cur@;
            cur.pop();
            append_chars(&mut cur, &sep);
            append_chars(&mut cur, &next);
            assert(cur@ == before.drop_last() + sep@ + rest[0]);
            assert(glue_escaped(before, ps[k - 1], rest, sep@) == glue_escaped(
                cur@,
                rest[0],
                rest.drop_first(),
                sep@,
            ));
        } else {
            let piece = string_of(cur.as_slice());
            let ghost done = r@.map_values(|p: String| p@);
            proof {
                assert(glue_escaped(cur@, ps[k - 1], rest, sep@) == seq![cur@] + glue_escaped(
                    rest[0],
                    rest[0],
                    rest.drop_first(),
                    sep@,
                ));
                assert(done + (seq![cur@] + glue_escaped(rest[0], rest[0], rest.drop_first(), sep@))
                    =~= done.push(piece@) + glue_escaped(rest[0], rest[0], rest.drop_first(), sep@));
            }
            r.push(piece);
            assert(r@.map_values(|p: String| p@) =~= done.push(piece@));
            cur = next;
        }
        raw_escapes = next_escapes;
        k += 1;
    }
    assert(ps.subrange(k as int, ps.len() as int) =~= Seq::<Seq<char>>::empty());
    let last = string_of(cur.as_slice());
    proof {
        let done = r@.map_values(|p: String| p@);
        assert(merge_escaped(ps, sep@) == done + seq![cur@]);
    }
    r.push(last);
    assert(r@.map_values(|p: String| p@) =~= merge_escaped(ps, sep@));
    r
}

/// Opening marker of inline math.
pub open spec fn inline_open() -> Seq<char> {
    "<language-inline-math>"@
}

/// Closing marker of inline math.
pub open spec fn inline_close() -> Seq<char> {
    "</language-inline-math>"@
}

/// Opening marker of display math.
pub open spec fn display_open() -> Seq<char> {
    "<language-math>"@
}

/// Closing marker of display math.
pub open spec fn display_close() -> Seq<char> {
    "</language-math>"@
}

/// `pieces` joined, every other one (starting from the first when
/// `inside` holds, else from the second) wrapped in `open` and `close`.
pub open spec fn wrap_alternate(pieces: Seq<Seq<char>>, inside: bool, open: Seq<char>, close: Seq<char>) -> Seq<char>
    decreases pieces.len(),
{
    if pieces.len() == 0 {
        Seq::empty()
    } else {
        (if inside { open + pieces[0] + close } else { pieces[0] }) + wrap_alternate(
            pieces.drop_first(),
            !inside,
            open,
            close,
        )
    }
}

/// `raw` with the text between each pair of `delimiters` wrapped in math
/// markers: the inline ones for `$`, the display ones otherwise.
pub open spec fn replace_delimiters_spec(raw: Seq<char>, delimiters: Seq<char>, escape_backslash: bool) -> Seq<char> {
    let pieces = split_spec(raw, delimiters, escape_backslash);
    if delimiters == seq!['$'] {
        wrap_alternate(pieces, false, inline_open(), inline_close())
    } else {
        wrap_alternate(pieces, false, display_open(), display_close())
    }
}

/// Replaces math delimiters in `raw_content` with HTML math markers, see
/// [`replace_delimiters_spec`].
pub fn replace_delimiters(raw_content: &str, delimiters: &str, escape_backslash: bool) -> (r: String)
    ensures
        r@ == replace_delimiters_spec(raw_content@, delimiters@, escape_backslash),
{
    let d = chars_of(delimiters);
    let inline = d.len() == 1 && d[0] == '$';
    assert(inline == (delimiters@ == seq!['$'])) by {
        if delimiters@ == seq!['$'] {
            assert(d@.len() == 1 && d@[0] == '$');
        }
        if inline {
            assert(d@ =~= seq!['$']);
        }
    }
    let pre_marker = if inline { "<language-inline-math>" } else { "<language-math>" };
    let post_marker = if inline { "</language-inline-math>" } else { "</language-math>" };
    let items = split(raw_content, delimiters, escape_backslash);
    let ghost ps = items@.map_values(|p: String| p@);
    let mut replaced_content = String::new();
    let mut inside_delimiters = false;
    let mut k: usize = 0;
    assert(ps.subrange(0, ps.len() as int) =~= ps);
    assert(replaced_content@ + wrap_alternate(ps, false, pre_marker@, post_marker@) =~= wrap_alternate(
        ps,
        false,
        pre_marker@,
        post_marker@,
    ));
    while k < items.len()
        invariant
            k <= items@.len(),
            ps == items@.map_values(|p: String| p@),
            ps.len() == items@.len(),
            wrap_alternate(ps, false, pre_marker@, post_marker@) == replaced_content@ + wrap_alternate(
                ps.subrange(k as int, ps.len() as int),
                inside_delimiters,
                pre_marker@,
                post_marker@,
            ),
        decreases items@.len() - k,
    {
        let ghost rest = ps.subrange(k as int, ps.len() as int);
        let ghost before = replaced_content@;
        assert(rest[0] == items@[k as int]@);
        assert(rest.drop_first() =~= ps.subrange(k + 1, ps.len() as int));
        if inside_delimiters {
            replaced_content.append(pre_marker);
            replaced_content.append(items[k].as_str());
            replaced_content.append(post_marker);
        } else {
            replaced_content.append(items[k].as_str());
        }
        assert(before + wrap_alternate(rest, inside_delimiters, pre_marker@, post_marker@) =~= replaced_content@
            + wrap_alternate(rest.drop_first(), !inside_delimiters, pre_marker@, post_marker@));
        inside_delimiters = !inside_delimiters;
        k += 1;
    }
    assert(ps.subrange(k as int, ps.len() as int) =~= Seq::<Seq<char>>::empty());
    proof {
        reveal_strlit("<language-inline-math>");
        reveal_strlit("</language-inline-math>");
        reveal_strlit("<language-math>");
        reveal_strlit("</language-math>");
    }
    assert(replaced_content@ =~= wrap_alternate(ps, false, pre_marker@, post_marker@));
    replaced_content
}

/// The body after math replacement: `$$` pairs first, then `$` pairs, in
/// which `\$` stays a dollar sign.
pub open spec fn math_marked(content: Seq<char>) -> Seq<char> {
    replace_delimiters_spec(
        replace_delimiters_spec(content, seq!['$', '$'], false),
        seq!['$'],
        true,
    )
}

/// Renders a post body to HTML: math delimiters become markers, then the
/// text goes through CommonMark.
pub fn markdown_to_html(content: &str) -> (r: String)
    ensures
        r@ == commonmark_html(math_marked(content@)),
{
    let display = replace_delimiters(content, "$$", false);
    let marked = replace_delimiters(display.as_str(), "$", true);
    proof {
        reveal_strlit("$$");
        reveal_strlit("$");
        assert("$$"@ =~= seq!['$', '$']);
        assert("$"@ =~= seq!['$']);
    }
    commonmark_to_html(marked.as_str())
}

} // verus!
