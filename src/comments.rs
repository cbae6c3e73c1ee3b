use vstd::prelude::*;

use crate::text::{
    ascii_lower, has_prefix, lines_of, split_lines, starts_with_str, str_eq, string_views,
    string_views_index, to_ascii_lower, trim_start_of, trim_start_str, is_white_space, lines_from,
    line_text,
};

verus! {

/// Extensions whose full-line comments start with `#`.
pub open spec fn is_hash_ext(ext: Seq<char>) -> bool {
    ext == "py"@ || ext == "sh"@ || ext == "bash"@ || ext == "zsh"@ || ext == "rb"@ || ext
        == "yaml"@ || ext == "yml"@ || ext == "toml"@
}

/// Extensions whose full-line comments start with `//`.
pub open spec fn is_slash_ext(ext: Seq<char>) -> bool {
    ext == "rs"@ || ext == "c"@ || ext == "h"@ || ext == "cpp"@ || ext == "hpp"@ || ext == "cc"@
        || ext == "js"@ || ext == "ts"@ || ext == "java"@ || ext == "go"@ || ext == "cs"@ || ext
        == "swift"@ || ext == "kt"@
}

/// The comment leaders registered for a lowercase extension; empty for an
/// extension that has none.
pub open spec fn leaders_of(ext: Seq<char>) -> Seq<Seq<char>> {
    if is_hash_ext(ext) {
        seq!["#"@]
    } else if is_slash_ext(ext) {
        seq!["//"@]
    } else if ext == "sql"@ {
        seq!["--"@]
    } else {
        seq![]
    }
}

/// The text after leading whitespace begins with one of the leaders.
pub open spec fn starts_with_leader(trimmed: Seq<char>, leaders: Seq<Seq<char>>) -> bool {
    exists|k: int| 0 <= k < leaders.len() && has_prefix(trimmed, #[trigger] leaders[k])
}

/// A line is dropped when it is blank, or when what follows its leading
/// whitespace begins with a leader of the (lowercase) extension.
pub open spec fn dropped(trimmed: Seq<char>, ext: Seq<char>) -> bool {
    trimmed.len() == 0 || starts_with_leader(trimmed, leaders_of(ext))
}

/// The kept lines, each followed by one line feed.
pub open spec fn stripped(lines: Seq<Seq<char>>, ext: Seq<char>) -> Seq<char>
    decreases lines.len(),
{
    if lines.len() == 0 {
        Seq::empty()
    } else {
        let rest = stripped(lines.drop_last(), ext);
        if dropped(trim_start_of(lines.last()), ext) {
            rest
        } else {
            rest + lines.last() + seq!['\n']
        }
    }
}

/// The comment leaders for a lowercase extension.
pub fn leaders_for_ext(ext: &str) -> (r: Vec<&'static str>)
    ensures
        r@.len() == leaders_of(ext@).len(),
        forall|k: int| 0 <= k < r@.len() ==> #[trigger] r@[k]@ == leaders_of(ext@)[k],
{
    proof {
        reveal_strlit("#");
        reveal_strlit("//");
        reveal_strlit("--");
    }
    if str_eq(ext, "py") || str_eq(ext, "sh") || str_eq(ext, "bash") || str_eq(ext, "zsh")
        || str_eq(ext, "rb") || str_eq(ext, "yaml") || str_eq(ext, "yml") || str_eq(ext, "toml") {
        vec!["#"]
    } else if str_eq(ext, "rs") || str_eq(ext, "c") || str_eq(ext, "h") || str_eq(ext, "cpp")
        || str_eq(ext, "hpp") || str_eq(ext, "cc") || str_eq(ext, "js") || str_eq(ext, "ts")
        || str_eq(ext, "java") || str_eq(ext, "go") || str_eq(ext, "cs") || str_eq(ext, "swift")
        || str_eq(ext, "kt") {
        vec!["//"]
    } else if str_eq(ext, "sql") {
        vec!["--"]
    } else {
        Vec::new()
    }
}

/// Whether a line, given as what follows its leading whitespace, is dropped
/// for the extension `ext` (compared in ASCII lowercase).
pub fn line_is_dropped(trimmed: &str, ext: &str) -> (r: bool)
    ensures
        r == dropped(trimmed@, ascii_lower(ext@)),
{
    if trimmed.unicode_len() == 0 {
        return true;
    }
    let lower = to_ascii_lower(ext);
    let leaders = leaders_for_ext(lower.as_str());
    let mut k: usize = 0;
    while k < leaders.len()
        invariant
            lower@ == ascii_lower(ext@),
            leaders@.len() == leaders_of(lower@).len(),
            forall|j: int| 0 <= j < leaders@.len() ==> #[trigger] leaders@[j]@ == leaders_of(lower@)[j],
            k <= leaders@.len(),
            forall|j: int| 0 <= j < k ==> !has_prefix(trimmed@, #[trigger] leaders_of(lower@)[j]),
        decreases leaders@.len() - k,
    {
        if starts_with_str(trimmed, leaders[k]) {
            assert(has_prefix(trimmed@, leaders_of(lower@)[k as int]));
            assert(starts_with_leader(trimmed@, leaders_of(lower@)));
            return true;
        }
        k = k + 1;
    }
    false
}

/// Keeps the lines that are not dropped for the extension `ext` (compared in
/// ASCII lowercase), each followed by one line feed.
pub fn strip_lines(lines: &Vec<String>, ext: &str) -> (r: String)
    ensures
        r@ == stripped(string_views(lines@), ascii_lower(ext@)),
{
    let ghost all = string_views(lines@);
    let ghost lext = ascii_lower(ext@);
    proof {
        string_views_index(lines@);
    }
    let mut out = String::new();
    let mut i: usize = 0;
    while i < lines.len()
        invariant
            all == string_views(lines@),
            lext == ascii_lower(ext@),
            lines@.len() == all.len(),
            forall|j: int| 0 <= j < lines@.len() ==> #[trigger] lines@[j]@ == all[j],
            i <= lines@.len(),
            out@ == stripped(all.subrange(0, i as int), lext),
        decreases lines@.len() - i,
    {
        let line = lines[i].as_str();
        let trimmed = trim_start_str(line);
        let drop = line_is_dropped(trimmed, ext);
        proof {
            assert(line@ == all[i as int]);
            assert(all.subrange(0, i + 1).drop_last() =~= all.subrange(0, i as int));
            assert(all.subrange(0, i + 1).last() == all[i as int]);
            reveal_strlit("\n");
        }
        if !drop {
            out.append(line);
            out.append("\n");
            assert("\n"@ =~= seq!['\n']);
        }
        i = i + 1;
    }
    assert(all.subrange(0, lines@.len() as int) =~= all);
    out
}

/// Conservatively strips full-line comments and blank lines.
///
/// Every line that is blank after its leading whitespace is dropped; for an
/// extension with registered leaders, so is every line whose first
/// non-whitespace characters are a leader. Every other line is kept as it
/// stands, followed by one line feed. Inline and block comments are not touched.
pub fn strip_comments_for_ext(src: &str, ext: &str) -> (r: String)
    ensures
        r@ == stripped(lines_of(src@), ascii_lower(ext@)),
{
    let lines = split_lines(src);
    strip_lines(&lines, ext)
}

/// The stripped text is empty or ends in a line feed.
pub proof fn stripped_ends_with_newline(lines: Seq<Seq<char>>, ext: Seq<char>)
    ensures
        stripped(lines, ext).len() == 0 || stripped(lines, ext).last() == '\n',
    decreases lines.len(),
{
    if lines.len() > 0 {
        stripped_ends_with_newline(lines.drop_last(), ext);
    }
}

/// A text holds a character outside `White_Space`.
pub open spec fn has_visible(s: Seq<char>) -> bool {
    exists|j: int| 0 <= j < s.len() && !is_white_space(#[trigger] s[j])
}

proof fn lemma_trim_start_visible(s: Seq<char>)
    requires
        trim_start_of(s).len() > 0,
    ensures
        has_visible(s),
    decreases s.len(),
{
    if s.len() > 0 && is_white_space(s[0]) {
        lemma_trim_start_visible(s.drop_first());
        let j = choose|j: int| 0 <= j < s.drop_first().len() && !is_white_space(#[trigger] s.drop_first()[j]);
        assert(s[j + 1] == s.drop_first()[j]);
    } else {
        assert(!is_white_space(s[0]));
    }
}

proof fn lemma_line_then_rest(l: Seq<char>, rest: Seq<char>, cur: Seq<char>)
    requires
        forall|j: int| 0 <= j < l.len() ==> #[trigger] l[j] != '\n',
    ensures
        lines_from(l + seq!['\n'] + rest, cur) == seq![line_text(cur + l)] + lines_from(rest, Seq::empty()),
    decreases l.len(),
{
    let t = l + seq!['\n'] + rest;
    if l.len() == 0 {
        assert(t.drop_first() =~= rest);
        assert(cur + l =~= cur);
    } else {
        assert(t[0] == l[0]);
        assert(t.drop_first() =~= l.drop_first() + seq!['\n'] + rest);
        lemma_line_then_rest(l.drop_first(), rest, cur.push(l[0]));
        assert(cur.push(l[0]) + l.drop_first() =~= cur + l);
    }
}

proof fn lemma_lines_concat(x: Seq<char>, y: Seq<char>, cur: Seq<char>)
    requires
        x.len() > 0,
        x.last() == '\n',
    ensures
        lines_from(x + y, cur) == lines_from(x, cur) + lines_from(y, Seq::empty()),
    decreases x.len(),
{
    let t = x + y;
    assert(t[0] == x[0]);
    assert(t.drop_first() =~= x.drop_first() + y);
    if x[0] == '\n' {
        if x.len() == 1 {
            assert(x.drop_first() + y =~= y);
            assert(lines_from(x.drop_first(), Seq::empty()) =~= Seq::<Seq<char>>::empty());
        } else {
            lemma_lines_concat(x.drop_first(), y, Seq::empty());
        }
        assert(seq![line_text(cur)] + (lines_from(x.drop_first(), Seq::empty()) + lines_from(y, Seq::empty()))
            =~= seq![line_text(cur)] + lines_from(x.drop_first(), Seq::empty()) + lines_from(y, Seq::empty()));
    } else {
        lemma_lines_concat(x.drop_first(), y, cur.push(x[0]));
    }
}

/// Every line of the stripped text holds a character outside `White_Space`,
/// for lines that themselves hold no line feed (as the lines of a text do).
pub proof fn stripped_lines_are_not_blank(lines: Seq<Seq<char>>, ext: Seq<char>)
    requires
        forall|i: int, j: int| 0 <= i < lines.len() && 0 <= j < lines[i].len() ==> #[trigger] lines[i][j] != '\n',
    ensures
        forall|k: int| 0 <= k < lines_of(stripped(lines, ext)).len() ==> has_visible(
            #[trigger] lines_of(stripped(lines, ext))[k],
        ),
    decreases lines.len(),
{
    if lines.len() > 0 {
        let pre = lines.drop_last();
        assert forall|i: int, j: int| 0 <= i < pre.len() && 0 <= j < pre[i].len() implies #[trigger] pre[i][j] != '\n' by {
            assert(pre[i] == lines[i]);
        }
        stripped_lines_are_not_blank(pre, ext);
        let rest = stripped(pre, ext);
        let l = lines.last();
        if !dropped(trim_start_of(l), ext) {
            assert forall|j: int| 0 <= j < l.len() implies #[trigger] l[j] != '\n' by {
                assert(lines[lines.len() - 1][j] != '\n');
            }
            lemma_line_then_rest(l, Seq::empty(), Seq::empty());
            assert(lines_from(Seq::<char>::empty(), Seq::empty()) =~= Seq::<Seq<char>>::empty());
            assert(Seq::<char>::empty() + l =~= l);
            let piece = l + seq!['\n'];
            assert(piece + Seq::<char>::empty() =~= piece);
            assert(lines_from(piece, Seq::empty()) =~= seq![line_text(l)]);
            stripped_ends_with_newline(pre, ext);
            assert(stripped(lines, ext) =~= rest + piece);
            if rest.len() == 0 {
                assert(rest + piece =~= piece);
            } else {
                lemma_lines_concat(rest, piece, Seq::empty());
            }
            lemma_trim_start_visible(l);
            let w = choose|j: int| 0 <= j < l.len() && !is_white_space(#[trigger] l[j]);
            assert(has_visible(line_text(l))) by {
                if l.len() > 0 && l.last() == '\r' {
                    assert(w < l.len() - 1);
                    assert(line_text(l)[w] == l[w]);
                } else {
                    assert(line_text(l)[w] == l[w]);
                }
            }
            let all = lines_of(stripped(lines, ext));
            assert(all =~= lines_of(rest) + seq![line_text(l)]);
            assert forall|k: int| 0 <= k < all.len() implies has_visible(#[trigger] all[k]) by {
                if k < lines_of(rest).len() {
                    assert(all[k] == lines_of(rest)[k]);
                }
            }
        }
    }
}

proof fn lemma_lines_have_no_feed(s: Seq<char>, cur: Seq<char>)
    requires
        forall|j: int| 0 <= j < cur.len() ==> #[trigger] cur[j] != '\n',
    ensures
        forall|i: int, j: int|
            0 <= i < lines_from(s, cur).len() && 0 <= j < lines_from(s, cur)[i].len()
                ==> #[trigger] lines_from(s, cur)[i][j] != '\n',
    decreases s.len(),
{
    if s.len() == 0 {
        let all = lines_from(s, cur);
        assert forall|i: int, j: int| 0 <= i < all.len() && 0 <= j < all[i].len() implies #[trigger] all[i][j] != '\n' by {
            assert(cur.len() > 0);
            assert(all == seq![cur]);
            assert(all[i] == cur);
        }
    } else if s[0] == '\n' {
        lemma_lines_have_no_feed(s.drop_first(), Seq::empty());
        let all = lines_from(s, cur);
        let tail = lines_from(s.drop_first(), Seq::empty());
        assert forall|i: int, j: int| 0 <= i < all.len() && 0 <= j < all[i].len() implies #[trigger] all[i][j] != '\n' by {
            if i == 0 {
                assert(all[0] == line_text(cur));
                assert(line_text(cur)[j] == cur[j]);
            } else {
                assert(all[i] == tail[i - 1]);
            }
        }
    } else {
        let c2 = cur.push(s[0]);
        assert forall|j: int| 0 <= j < c2.len() implies #[trigger] c2[j] != '\n' by {
            if j < cur.len() {
                assert(c2[j] == cur[j]);
            }
        }
        lemma_lines_have_no_feed(s.drop_first(), c2);
        assert(lines_from(s, cur) == lines_from(s.drop_first(), c2));
    }
}

/// Every line of a stripped text holds a character outside `White_Space`, and
/// the stripped text is empty or ends in a line feed.
pub proof fn stripped_text_has_no_blank_line(src: Seq<char>, ext: Seq<char>)
    ensures
        forall|k: int| 0 <= k < lines_of(stripped(lines_of(src), ext)).len() ==> has_visible(
            #[trigger] lines_of(stripped(lines_of(src), ext))[k],
        ),
        stripped(lines_of(src), ext).len() == 0 || stripped(lines_of(src), ext).last() == '\n',
{
    lemma_lines_have_no_feed(src, Seq::empty());
    stripped_lines_are_not_blank(lines_of(src), ext);
    stripped_ends_with_newline(lines_of(src), ext);
}

/// A line that is only whitespace is dropped, for every extension.
pub proof fn whitespace_lines_are_blank(line: Seq<char>, ext: Seq<char>)
    requires
        forall|j: int| 0 <= j < line.len() ==> is_white_space(#[trigger] line[j]),
    ensures
        dropped(trim_start_of(line), ext),
    decreases line.len(),
{
    if line.len() > 0 {
        assert forall|j: int| 0 <= j < line.drop_first().len() implies is_white_space(
            #[trigger] line.drop_first()[j],
        ) by {
            assert(line.drop_first()[j] == line[j + 1]);
        }
        whitespace_lines_are_blank(line.drop_first(), ext);
    }
}

/// For an extension without registered leaders, a line is dropped exactly
/// when it is blank.
pub proof fn unregistered_ext_only_drops_blank_lines(trimmed: Seq<char>, ext: Seq<char>)
    requires
        leaders_of(ext).len() == 0,
    ensures
        dropped(trimmed, ext) == (trimmed.len() == 0),
{
}

/// A line whose leading non-whitespace text is neither empty nor begins with
/// a registered leader is kept, whatever comment marker follows the code on it.
pub proof fn code_lines_are_kept(lines: Seq<Seq<char>>, ext: Seq<char>, i: int)
    requires
        0 <= i < lines.len(),
        trim_start_of(lines[i]).len() > 0,
        !starts_with_leader(trim_start_of(lines[i]), leaders_of(ext)),
    ensures
        kept_before(lines, ext, i) + lines[i] + seq!['\n'] == stripped(
            lines.subrange(0, i + 1),
            ext,
        ),
{
    assert(lines.subrange(0, i + 1).drop_last() =~= lines.subrange(0, i));
}

/// A line that is blank after its leading whitespace adds nothing to the
/// output, for every extension.
pub proof fn blank_lines_are_dropped(lines: Seq<Seq<char>>, ext: Seq<char>, i: int)
    requires
        0 <= i < lines.len(),
        trim_start_of(lines[i]).len() == 0,
    ensures
        stripped(lines.subrange(0, i + 1), ext) == kept_before(lines, ext, i),
{
    assert(lines.subrange(0, i + 1).drop_last() =~= lines.subrange(0, i));
}

/// A line that begins, after its leading whitespace, with a registered leader
/// adds nothing to the output.
pub proof fn comment_lines_are_dropped(lines: Seq<Seq<char>>, ext: Seq<char>, i: int, k: int)
    requires
        0 <= i < lines.len(),
        0 <= k < leaders_of(ext).len(),
        has_prefix(trim_start_of(lines[i]), leaders_of(ext)[k]),
    ensures
        stripped(lines.subrange(0, i + 1), ext) == kept_before(lines, ext, i),
{
    assert(lines.subrange(0, i + 1).drop_last() =~= lines.subrange(0, i));
}

/// The output produced by the lines before index `i`.
pub open spec fn kept_before(lines: Seq<Seq<char>>, ext: Seq<char>, i: int) -> Seq<char> {
    stripped(lines.subrange(0, i), ext)
}

} // verus!
