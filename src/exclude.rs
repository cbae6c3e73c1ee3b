use vstd::prelude::*;

use crate::paths::{path_relative_to, relative_or_self};
use crate::text::{ends_with_char, normalize_for_matching, slash_normalized, trim_of, trim_str};

verus! {

#[verifier::external_type_specification]
#[verifier::external_body]
pub struct ExGlobSet(globset::GlobSet);

#[verifier::external_type_specification]
#[verifier::external_body]
pub struct ExGlobSetBuilder(globset::GlobSetBuilder);

#[verifier::external_type_specification]
#[verifier::external_body]
pub struct ExGlobError(globset::Error);

/// Whether `globset::Glob::new` parses a pattern; it depends on the text alone.
pub uninterp spec fn glob_parses(pattern: Seq<char>) -> bool;

/// Whether `GlobSetBuilder::build` succeeds on a builder holding these
/// patterns, in this order; it depends on the patterns alone.
pub uninterp spec fn set_builds(patterns: Seq<Seq<char>>) -> bool;

/// Whether the glob of `pattern` matches the path `path`.
pub uninterp spec fn glob_matches(pattern: Seq<char>, path: Seq<char>) -> bool;

/// The patterns added to a builder, in order.
pub uninterp spec fn builder_patterns(b: globset::GlobSetBuilder) -> Seq<Seq<char>>;

/// The patterns a built set was built from, in order.
pub uninterp spec fn set_patterns(s: globset::GlobSet) -> Seq<Seq<char>>;

/// Relies on `globset::GlobSetBuilder::new`: a builder with no glob.
#[verifier::external_body]
fn new_builder() -> (r: globset::GlobSetBuilder)
    ensures
        builder_patterns(r) == Seq::<Seq<char>>::empty(),
{
    globset::GlobSetBuilder::new()
}

/// Relies on `globset::Glob::new`, which parses the pattern or returns an
/// error, and on `GlobSetBuilder::add`, which appends the parsed glob.
#[verifier::external_body]
fn add_pattern(b: &mut globset::GlobSetBuilder, pattern: &str) -> (r: Result<(), globset::Error>)
    ensures
        r.is_ok() == glob_parses(pattern@),
        r is Ok ==> builder_patterns(*final(b)) == builder_patterns(*old(b)).push(pattern@),
        r is Err ==> builder_patterns(*final(b)) == builder_patterns(*old(b)),
{
    let g = globset::Glob::new(pattern)?;
    b.add(g);
    Ok(())
}

/// Relies on `globset::GlobSetBuilder::build`, which compiles every glob
/// added and returns an error where that fails.
#[verifier::external_body]
fn build_set(b: &globset::GlobSetBuilder) -> (r: Result<globset::GlobSet, globset::Error>)
    ensures
        r.is_ok() == set_builds(builder_patterns(*b)),
        r matches Ok(s) ==> set_patterns(s) == builder_patterns(*b),
{
    b.build()
}

/// Relies on `globset::GlobSet::is_match`: true if any glob in the set
/// matches the path.
#[verifier::external_body]
fn set_is_match(s: &globset::GlobSet, path: &str) -> (r: bool)
    ensures
        r == (exists|i: int|
            0 <= i < set_patterns(*s).len() && glob_matches(#[trigger] set_patterns(*s)[i], path@)),
{
    s.is_match(path)
}

/// The compiled set of user exclude patterns.
pub struct ExcludeRules {
    set: globset::GlobSet,
}

impl View for ExcludeRules {
    type V = Seq<Seq<char>>;

    closed spec fn view(&self) -> Seq<Seq<char>> {
        set_patterns(self.set)
    }
}

/// Why the exclude patterns cannot be used.
pub enum ExcludeError {
    /// A pattern that `globset` does not parse.
    InvalidPattern(String),
    /// The parsed patterns could not be compiled into one set.
    BuildFailed,
}

impl ExcludeError {
    /// The diagnostic for the error.
    pub fn message(&self) -> (r: String)
        ensures
            self matches ExcludeError::InvalidPattern(p) ==> r@ == "Invalid --exclude glob pattern: "@ + p@,
            self is BuildFailed ==> r@ == "Failed to build exclude glob set"@,
    {
        match self {
            ExcludeError::InvalidPattern(p) => {
                let mut m = String::from_str("Invalid --exclude glob pattern: ");
                m.append(p.as_str());
                m
            },
            ExcludeError::BuildFailed => String::from_str("Failed to build exclude glob set"),
        }
    }
}

/// The patterns that take part: each raw pattern trimmed, the empty ones left
/// out, in their order.
pub open spec fn usable_patterns(raw: Seq<String>) -> Seq<Seq<char>>
    decreases raw.len(),
{
    if raw.len() == 0 {
        Seq::empty()
    } else {
        let rest = usable_patterns(raw.drop_last());
        let t = trim_of(raw.last()@);
        if t.len() == 0 {
            rest
        } else {
            rest.push(t)
        }
    }
}

/// Some pattern of the set matches `path`.
pub open spec fn any_matches(pats: Seq<Seq<char>>, path: Seq<char>) -> bool {
    exists|i: int| 0 <= i < pats.len() && glob_matches(#[trigger] pats[i], path)
}

/// `p` is the first pattern of `pats` that `globset` rejects.
pub open spec fn first_rejected(pats: Seq<Seq<char>>, p: Seq<char>) -> bool {
    exists|i: int|
        0 <= i < pats.len() && pats[i] == p && !glob_parses(#[trigger] pats[i]) && forall|j: int|
            0 <= j < i ==> glob_parses(#[trigger] pats[j])
}

/// Some pattern of `pats` is rejected.
pub open spec fn some_rejected(pats: Seq<Seq<char>>) -> bool {
    exists|i: int| 0 <= i < pats.len() && !glob_parses(#[trigger] pats[i])
}

/// An entry, given as its slash-separated path relative to the root, is
/// excluded when a pattern matches that path or, for a directory whose path
/// does not end in a slash, that path with a slash appended.
pub open spec fn excluded(pats: Seq<Seq<char>>, rel: Seq<char>, is_dir: bool) -> bool {
    any_matches(pats, rel) || (is_dir && !(rel.len() > 0 && rel.last() == '/') && any_matches(
        pats,
        rel.push('/'),
    ))
}

/// Whether the walk keeps an entry: the root (depth 0) always, and any other
/// entry unless the exclude rules exclude its path relative to the root.
pub open spec fn entry_kept(
    rules: Option<Seq<Seq<char>>>,
    root: Seq<char>,
    path: Seq<char>,
    depth: int,
    is_dir: bool,
) -> bool {
    depth == 0 || match rules {
        None => true,
        Some(pats) => !excluded(pats, slash_normalized(relative_or_self(root, path)), is_dir),
    }
}

/// The view of an optional rule set.
pub open spec fn rules_view(rules: Option<ExcludeRules>) -> Option<Seq<Seq<char>>> {
    match rules {
        Some(r) => Some(r@),
        None => None,
    }
}

/// Compiles the user exclude patterns into one glob set. With no patterns at
/// all there is no rule set; patterns that are empty after trimming are left
/// out; the first pattern that does not parse is an error, and so is a set
/// that cannot be compiled.
pub fn build_exclude_globset(patterns: &Vec<String>) -> (r: Result<Option<ExcludeRules>, ExcludeError>)
    ensures
        patterns@.len() == 0 <==> r matches Ok(None),
        r matches Err(ExcludeError::InvalidPattern(_)) <==> some_rejected(usable_patterns(patterns@)),
        r matches Err(ExcludeError::InvalidPattern(p)) ==> first_rejected(usable_patterns(patterns@), p@),
        r is Err ==> patterns@.len() > 0,
        r matches Err(ExcludeError::BuildFailed) <==> (patterns@.len() > 0 && !some_rejected(
            usable_patterns(patterns@),
        ) && !set_builds(usable_patterns(patterns@))),
        r matches Ok(Some(rs)) ==> rs@ == usable_patterns(patterns@),
{
    if patterns.len() == 0 {
        return Ok(None);
    }
    let mut builder = new_builder();
    let mut i: usize = 0;
    while i < patterns.len()
        invariant
            i <= patterns@.len(),
            builder_patterns(builder) == usable_patterns(patterns@.subrange(0, i as int)),
            !some_rejected(usable_patterns(patterns@.subrange(0, i as int))),
        decreases patterns@.len() - i,
    {
        let ghost before = usable_patterns(patterns@.subrange(0, i as int));
        proof {
            assert(patterns@.subrange(0, i + 1).drop_last() =~= patterns@.subrange(0, i as int));
        }
        let pat = trim_str(patterns[i].as_str());
        if pat.unicode_len() != 0 {
            match add_pattern(&mut builder, pat) {
                Ok(()) => {
                    proof {
                        let now = usable_patterns(patterns@.subrange(0, i + 1));
                        assert(now == before.push(pat@));
                        assert forall|j: int| 0 <= j < now.len() implies glob_parses(
                            #[trigger] now[j],
                        ) by {
                            if j < before.len() {
                                assert(now[j] == before[j]);
                            }
                        }
                    }
                },
                Err(_) => {
                    proof {
                        let now = usable_patterns(patterns@.subrange(0, i + 1));
                        assert(now == before.push(pat@));
                        lemma_usable_prefix(patterns@, i as int + 1);
                        let all = usable_patterns(patterns@);
                        assert(all[before.len() as int] == pat@);
                        assert forall|j: int| 0 <= j < before.len() implies glob_parses(
                            #[trigger] all[j],
                        ) by {
                            assert(all[j] == now[j]);
                            assert(now[j] == before[j]);
                            if !glob_parses(before[j]) {
                                assert(some_rejected(before));
                            }
                        }
                        assert(!glob_parses(all[before.len() as int]));
                    }
                    return Err(ExcludeError::InvalidPattern(pat.to_owned()));
                },
            }
        } else {
            proof {
                assert(usable_patterns(patterns@.subrange(0, i + 1)) == before);
            }
        }
        i = i + 1;
    }
    assert(patterns@.subrange(0, patterns@.len() as int) =~= patterns@);
    match build_set(&builder) {
        Ok(set) => Ok(Some(ExcludeRules { set })),
        Err(_) => Err(ExcludeError::BuildFailed),
    }
}

/// The usable patterns of a prefix of the raw list are a prefix of those of
/// the whole list.
proof fn lemma_usable_prefix(raw: Seq<String>, n: int)
    requires
        0 <= n <= raw.len(),
    ensures
        usable_patterns(raw.subrange(0, n)).len() <= usable_patterns(raw).len(),
        forall|j: int|
            0 <= j < usable_patterns(raw.subrange(0, n)).len() ==> #[trigger] usable_patterns(
                raw,
            )[j] == usable_patterns(raw.subrange(0, n))[j],
    decreases raw.len() - n,
{
    if n < raw.len() {
        lemma_usable_prefix(raw, n + 1);
        assert(raw.subrange(0, n + 1).drop_last() =~= raw.subrange(0, n));
    } else {
        assert(raw.subrange(0, n) =~= raw);
    }
}

/// Whether some pattern of the rule set matches `path`.
pub fn rules_match(rules: &ExcludeRules, path: &str) -> (r: bool)
    ensures
        r == any_matches(rules@, path@),
{
    set_is_match(&rules.set, path)
}

/// Whether the rules exclude an entry, given as its slash-separated path
/// relative to the root; a directory is also tried with a trailing slash, so
/// that a pattern over a directory's contents prunes the directory itself.
pub fn is_excluded(rules: &ExcludeRules, rel: &str, is_dir: bool) -> (r: bool)
    ensures
        r == excluded(rules@, rel@, is_dir),
{
    if rules_match(rules, rel) {
        return true;
    }
    if is_dir && !ends_with_char(rel, '/') {
        let mut dir = String::from_str(rel);
        dir.append("/");
        proof {
            reveal_strlit("/");
            assert(dir@ =~= rel@.push('/'));
        }
        return rules_match(rules, dir.as_str());
    }
    false
}

/// The entry filter of the walk: keeps the root, and drops any other entry
/// that the exclude rules exclude, matched against its path relative to
/// `root` in slash-separated form.
pub fn keep_entry(rules: &Option<ExcludeRules>, root: &str, path: &str, depth: usize, is_dir: bool) -> (r: bool)
    ensures
        r == entry_kept(rules_view(*rules), root@, path@, depth as int, is_dir),
{
    if depth == 0 {
        return true;
    }
    match rules {
        None => true,
        Some(rs) => {
            let rel = path_relative_to(root, path);
            let rel_norm = match &rel {
                Some(p) => normalize_for_matching(p.as_str()),
                None => normalize_for_matching(path),
            };
            !is_excluded(rs, rel_norm.as_str(), is_dir)
        },
    }
}

} // verus!
