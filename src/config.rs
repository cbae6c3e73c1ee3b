use vstd::prelude::*;

use crate::comments::{strip_comments_for_ext, stripped};
use crate::output::{size_skip_message, size_skip_text};
use crate::paths::{ext_listed, extension_of, matches_ext, path_extension, selected_by_ext};
use crate::text::{ascii_lower, lines_of, str_eq, to_ascii_lower, trim_of, trim_str};

verus! {

/// The settings of one run, handed over by the command-line layer.
pub struct Config {
    /// Normalized extensions: lowercase, no leading dot, non-empty, distinct.
    pub exts: Vec<String>,
    pub paths: Vec<String>,
    pub follow_symlinks: bool,
    pub no_gitignore: bool,
    pub json: bool,
    pub excludes: Vec<String>,
    pub max_bytes: Option<u64>,
    pub strip_comments: bool,
    pub end_marker: bool,
}

/// The text without its leading dots.
pub open spec fn without_leading_dots(s: Seq<char>) -> Seq<char>
    decreases s.len(),
{
    if s.len() > 0 && s[0] == '.' {
        without_leading_dots(s.drop_first())
    } else {
        s
    }
}

/// The normalized form of one extension argument: trimmed, leading dots
/// removed, ASCII lowercase.
pub open spec fn normalized_ext(raw: Seq<char>) -> Seq<char> {
    ascii_lower(without_leading_dots(trim_of(raw)))
}

/// `e` is the normalized form of some argument, and is not empty.
pub open spec fn from_args(e: Seq<char>, raw: Seq<String>) -> bool {
    e.len() > 0 && exists|i: int| 0 <= i < raw.len() && normalized_ext((#[trigger] raw[i])@) == e
}

/// No extension occurs twice.
pub open spec fn distinct(exts: Seq<String>) -> bool {
    forall|i: int, j: int| 0 <= i < j < exts.len() ==> (#[trigger] exts[i])@ != (#[trigger] exts[j])@
}

/// Removes the leading dots of a text.
pub fn strip_leading_dots(s: &str) -> (r: &str)
    ensures
        r@ == without_leading_dots(s@),
{
    let n = s.unicode_len();
    let mut i: usize = 0;
    assert(s@.subrange(0, n as int) =~= s@);
    while i < n && s.get_char(i) == '.'
        invariant
            n == s@.len(),
            i <= n,
            without_leading_dots(s@.subrange(i as int, n as int)) == without_leading_dots(s@),
        decreases n - i,
    {
        assert(s@.subrange(i as int, n as int).drop_first() =~= s@.subrange(i + 1, n as int));
        i = i + 1;
    }
    s.substring_char(i, n)
}

/// Normalizes the extension arguments into a set: each is trimmed, stripped
/// of leading dots and lowercased; empty results are left out and repeats
/// kept once. Fails when nothing is left.
pub fn normalize_exts(raw: &Vec<String>) -> (r: Result<Vec<String>, String>)
    ensures
        r is Err <==> forall|i: int| 0 <= i < raw@.len() ==> normalized_ext((#[trigger] raw@[i])@).len() == 0,
        r matches Err(m) ==> m@ == "No valid extensions provided (after normalisation)."@,
        r matches Ok(v) ==> distinct(v@) && v@.len() > 0 && forall|e: Seq<char>|
            ext_listed(e, v@) <==> #[trigger] from_args(e, raw@),
{
    let mut out: Vec<String> = Vec::new();
    let mut i: usize = 0;
    while i < raw.len()
        invariant
            i <= raw@.len(),
            distinct(out@),
            forall|e: Seq<char>| ext_listed(e, out@) <==> #[trigger] from_args(e, raw@.subrange(0, i as int)),
            out@.len() == 0 <==> forall|j: int| 0 <= j < i ==> normalized_ext((#[trigger] raw@[j])@).len() == 0,
        decreases raw@.len() - i,
    {
        let t = trim_str(raw[i].as_str());
        let d = strip_leading_dots(t);
        let e = to_ascii_lower(d);
        let ghost before = out@;
        assert(e@ == normalized_ext(raw@[i as int]@));
        if e.unicode_len() > 0 {
            let mut k: usize = 0;
            let mut found = false;
            while k < out.len()
                invariant
                    out@ == before,
                    k <= out@.len(),
                    found ==> ext_listed(e@, out@),
                    !found ==> forall|j: int| 0 <= j < k ==> (#[trigger] out@[j])@ != e@,
                decreases out@.len() - k,
            {
                if str_eq(out[k].as_str(), e.as_str()) {
                    found = true;
                }
                k = k + 1;
            }
            if !found {
                out.push(e);
            }
        }
        proof {
            lemma_from_args_step(raw@, i as int);
            assert forall|x: Seq<char>| ext_listed(x, out@) <==> #[trigger] from_args(x, raw@.subrange(0, i + 1)) by {
                lemma_listed_push(before, e);
                if ext_listed(x, before) {
                    let q = choose|q: int| 0 <= q < before.len() && (#[trigger] before[q])@ == x;
                    assert(out@[q] == before[q]);
                }
            }
            assert forall|a: int, b: int| 0 <= a < b < out@.len() implies (#[trigger] out@[a])@ != (#[trigger] out@[b])@ by {
                if b >= before.len() {
                    assert(out@[a] == before[a]);
                }
            }
        }
        i = i + 1;
    }
    assert(raw@.subrange(0, raw@.len() as int) =~= raw@);
    if out.len() == 0 {
        proof { reveal_strlit("No valid extensions provided (after normalisation)."); }
        return Err(String::from_str("No valid extensions provided (after normalisation)."));
    }
    Ok(out)
}

proof fn lemma_from_args_step(raw: Seq<String>, i: int)
    requires
        0 <= i < raw.len(),
    ensures
        forall|x: Seq<char>| #[trigger] from_args(x, raw.subrange(0, i + 1)) <==> (from_args(x, raw.subrange(0, i)) || (x.len() > 0 && x == normalized_ext(raw[i]@))),
{
    let pre = raw.subrange(0, i);
    let nxt = raw.subrange(0, i + 1);
    assert forall|x: Seq<char>| #[trigger] from_args(x, nxt) <==> (from_args(x, pre) || (x.len() > 0 && x == normalized_ext(raw[i]@))) by {
        if from_args(x, nxt) {
            let w = choose|w: int| 0 <= w < nxt.len() && normalized_ext((#[trigger] nxt[w])@) == x;
            if w < i {
                assert(pre[w] == nxt[w]);
            }
        }
        if from_args(x, pre) {
            let w = choose|w: int| 0 <= w < pre.len() && normalized_ext((#[trigger] pre[w])@) == x;
            assert(nxt[w] == pre[w]);
        }
        if x.len() > 0 && x == normalized_ext(raw[i]@) {
            assert(nxt[i] == raw[i]);
        }
    }
}

proof fn lemma_listed_push(v: Seq<String>, s: String)
    ensures
        forall|x: Seq<char>| #[trigger] ext_listed(x, v.push(s)) <==> (ext_listed(x, v) || x == s@),
{
    let w = v.push(s);
    assert forall|x: Seq<char>| #[trigger] ext_listed(x, w) <==> (ext_listed(x, v) || x == s@) by {
        if ext_listed(x, w) {
            let q = choose|q: int| 0 <= q < w.len() && (#[trigger] w[q])@ == x;
            if q < v.len() {
                assert(v[q] == w[q]);
            }
        }
        if ext_listed(x, v) {
            let q = choose|q: int| 0 <= q < v.len() && (#[trigger] v[q])@ == x;
            assert(w[q] == v[q]);
        }
        if x == s@ {
            assert(w[v.len() as int] == s);
        }
    }
}

/// The file is over the configured byte threshold.
pub open spec fn too_large(size: Option<u64>, limit: Option<u64>) -> bool {
    match (size, limit) {
        (Some(s), Some(l)) => s > l,
        _ => false,
    }
}

/// What the run does with one walked entry.
pub enum FileAction {
    /// Not a file, or not a configured extension: no record, no diagnostic.
    Skip,
    /// Over the size threshold: the informational line, no record, no failure.
    TooLarge(String),
    /// Read, transform and emit the file.
    Emit,
}

/// Decides what happens to a walked entry. `size` is the file's size where it
/// could be read; an unknown size never skips the file.
pub fn plan_file(cfg: &Config, is_file: bool, path: &str, display_path: &str, size: Option<u64>) -> (r: FileAction)
    ensures
        r is Emit <==> is_file && selected_by_ext(path@, cfg.exts@) && !too_large(size, cfg.max_bytes),
        r is TooLarge <==> is_file && selected_by_ext(path@, cfg.exts@) && too_large(size, cfg.max_bytes),
        r matches FileAction::TooLarge(m) ==> m@ == size_skip_text(
            display_path@,
            size->Some_0 as nat,
            cfg.max_bytes->Some_0 as nat,
        ),
{
    if !is_file || !matches_ext(path, &cfg.exts) {
        return FileAction::Skip;
    }
    match (size, cfg.max_bytes) {
        (Some(s), Some(l)) => {
            if s > l {
                FileAction::TooLarge(size_skip_message(display_path, s, l))
            } else {
                FileAction::Emit
            }
        },
        _ => FileAction::Emit,
    }
}

/// The content to emit for a file: with comment stripping on, the text
/// stripped for the file's extension (none: the empty extension); else the
/// text unchanged.
pub open spec fn emitted_content(text: Seq<char>, path: Seq<char>, strip: bool) -> Seq<char> {
    if strip {
        stripped(
            lines_of(text),
            ascii_lower(
                match extension_of(path) {
                    Some(e) => e,
                    None => Seq::empty(),
                },
            ),
        )
    } else {
        text
    }
}

/// The content to emit for the file at `path` whose text is `text`.
pub fn file_content(text: String, path: &str, strip_comments: bool) -> (r: String)
    ensures
        r@ == emitted_content(text@, path@, strip_comments),
{
    if !strip_comments {
        return text;
    }
    match path_extension(path) {
        Some(e) => strip_comments_for_ext(text.as_str(), e.as_str()),
        None => {
            let r = strip_comments_for_ext(text.as_str(), "");
            proof {
                reveal_strlit("");
                assert(""@ =~= Seq::<char>::empty());
            }
            r
        },
    }
}

/// Something that happened while processing one root or one entry.
pub enum RunEvent {
    RootUnresolved,
    WalkFailed,
    ReadFailed,
    SkippedForSize,
}

/// The run's aggregate outcome so far.
pub struct RunStatus {
    pub had_error: bool,
}

impl RunStatus {
    /// A run with nothing gone wrong yet.
    pub fn new() -> (r: RunStatus)
        ensures
            !r.had_error,
    {
        RunStatus { had_error: false }
    }

    /// Takes note of an event: every event but a size skip marks the run as
    /// failed, and a failed run stays failed.
    pub fn record(&mut self, event: RunEvent)
        ensures
            final(self).had_error == (old(self).had_error || !(event is SkippedForSize)),
    {
        match event {
            RunEvent::SkippedForSize => {},
            _ => {
                self.had_error = true;
            },
        }
    }
}

} // verus!
