//! Exclusion rules and the decision whether a file needs copying.

use vstd::prelude::*;
use crate::paths::{file_name, path_file_name, path_strip_prefix, strip_prefix};
use crate::sync::types::FileInfo;
use crate::text::{
    chars_of, contains_chars, has_infix, has_prefix, starts_with_chars, str_eq, string_of,
};

verus! {

#[verifier::external_type_specification]
#[verifier::external_body]
pub struct ExRegex(regex::Regex);

/// Whether `regex::Regex::new` accepts `pattern`.
pub uninterp spec fn regex_compiles(pattern: Seq<char>) -> bool;

/// What `regex::Regex::is_match` answers for the regex compiled from
/// `pattern` on `haystack`: whether it matches anywhere in `haystack`.
pub uninterp spec fn regex_is_match(pattern: Seq<char>, haystack: Seq<char>) -> bool;

/// A regular expression together with the text it was compiled from. Only
/// `compile_regex` builds one.
pub struct CompiledRegex {
    source: String,
    re: regex::Regex,
}

impl CompiledRegex {
    /// The text the regular expression was compiled from.
    pub closed spec fn source(&self) -> Seq<char> {
        self.source@
    }
}

/// `regex::Regex::new`: `Some` exactly when the crate accepts `pattern`.
/// The contract claims that acceptance depends on the pattern alone.
#[verifier::external_body]
fn compile_regex(pattern: &str) -> (r: Option<CompiledRegex>)
    ensures
        r is Some <==> regex_compiles(pattern@),
        r matches Some(c) ==> c.source() == pattern@,
{
    match regex::Regex::new(pattern) {
        Ok(re) => Some(CompiledRegex { source: pattern.to_string(), re }),
        Err(_) => None,
    }
}

/// `regex::Regex::is_match` on a regex built by `compile_regex`. The
/// contract claims that the answer depends on the pattern and the haystack
/// alone.
#[verifier::external_body]
fn regex_matches(c: &CompiledRegex, haystack: &str) -> (b: bool)
    ensures
        b == regex_is_match(c.source(), haystack@),
{
    c.re.is_match(haystack)
}

/// A character that has a meaning of its own in a regular expression.
pub open spec fn is_regex_meta(c: char) -> bool {
    c == '\\' || c == '.' || c == '+' || c == '*' || c == '?' || c == '(' || c == ')' || c == '|' || c == '['
        || c == ']' || c == '{' || c == '}' || c == '^' || c == '$' || c == '#' || c == '&' || c == '-' || c == '~'
}

/// What one character of a wildcard pattern stands for: `*` any text,
/// any other character itself (escaped when the regex syntax gives it a
/// meaning).
pub open spec fn wildcard_piece(c: char) -> Seq<char> {
    if c == '*' {
        seq!['.', '*']
    } else if is_regex_meta(c) {
        seq!['\\', c]
    } else {
        seq![c]
    }
}

/// The regular expression text of a wildcard pattern's characters.
pub open spec fn wildcard_body(pattern: Seq<char>) -> Seq<char>
    decreases pattern.len(),
{
    if pattern.len() == 0 {
        Seq::empty()
    } else {
        wildcard_body(pattern.drop_last()) + wildcard_piece(pattern.last())
    }
}

/// The regular expression a wildcard pattern stands for: `*` matches any
/// text, every other character only itself, and the whole text must match.
pub open spec fn wildcard_regex(pattern: Seq<char>) -> Seq<char> {
    seq!['^'] + wildcard_body(pattern) + seq!['$']
}

fn is_regex_meta_exec(c: char) -> (b: bool)
    ensures
        b == is_regex_meta(c),
{
    c == '\\' || c == '.' || c == '+' || c == '*' || c == '?' || c == '(' || c == ')' || c == '|' || c == '['
        || c == ']' || c == '{' || c == '}' || c == '^' || c == '$' || c == '#' || c == '&' || c == '-' || c == '~'
}

/// The regular expression text of a wildcard pattern.
fn wildcard_regex_exec(p: &[char]) -> (r: Vec<char>)
    ensures
        r@ == wildcard_regex(p@),
{
    let mut src: Vec<char> = Vec::new();
    src.push('^');
    let mut i: usize = 0;
    while i < p.len()
        invariant
            i <= p.len(),
            src@ == seq!['^'] + wildcard_body(p@.take(i as int)),
        decreases p.len() - i,
    {
        let c = p[i];
        let ghost before = src@;
        if c == '*' {
            src.push('.');
            src.push('*');
        } else if is_regex_meta_exec(c) {
            src.push('\\');
            src.push(c);
        } else {
            src.push(c);
        }
        i = i + 1;
        assert(p@.take(i as int).drop_last() =~= p@.take(i - 1));
        assert(p@.take(i as int).last() == c);
        assert(src@ =~= before + wildcard_piece(c));
        assert(src@ =~= seq!['^'] + wildcard_body(p@.take(i as int)));
    }
    src.push('$');
    assert(p@.take(p.len() as int) =~= p@);
    assert(src@ =~= wildcard_regex(p@));
    src
}

/// Whether one exclusion pattern matches a path relative to the scanned
/// directory:
/// - `/p`: the relative path begins with `p`;
/// - `p/`: the relative path begins with `p/` or contains `/p/`;
/// - otherwise `p` is a wildcard pattern that must match the whole relative
///   path (a pattern the regex crate refuses matches nothing).
pub open spec fn pattern_matches(pattern: Seq<char>, rel: Seq<char>) -> bool {
    if pattern.len() > 0 && pattern[0] == '/' {
        has_prefix(rel, pattern.drop_first())
    } else if pattern.len() > 0 && pattern.last() == '/' {
        has_prefix(rel, pattern) || has_infix(rel, seq!['/'] + pattern)
    } else {
        regex_compiles(wildcard_regex(pattern)) && regex_is_match(wildcard_regex(pattern), rel)
    }
}

/// File names that are always left out: macOS bookkeeping files and
/// AppleDouble files (`._*`).
pub open spec fn is_system_file_name(name: Seq<char>) -> bool {
    ||| name == ".DS_Store"@
    ||| name == ".fseventsd"@
    ||| name == ".Trashes"@
    ||| name == ".Spotlight-V100"@
    ||| name == ".TemporaryItems"@
    ||| has_prefix(name, "._"@)
}

/// Whether some pattern of `patterns` matches `rel`.
pub open spec fn some_pattern_matches(patterns: Seq<String>, rel: Seq<char>) -> bool {
    exists|i: int| 0 <= i < patterns.len() && pattern_matches(#[trigger] patterns[i]@, rel)
}

/// Whether `path` is excluded: it lies under `root`, and either a pattern
/// matches its path relative to `root` or its file name is a system file.
/// A path not under `root` is never excluded.
pub open spec fn spec_should_exclude(path: Seq<char>, root: Seq<char>, patterns: Seq<String>) -> bool {
    match path_strip_prefix(path, root) {
        None => false,
        Some(rel) => some_pattern_matches(patterns, rel) || match path_file_name(rel) {
            Some(name) => is_system_file_name(name),
            None => false,
        },
    }
}

/// Whether one exclusion pattern matches a relative path (`pattern_matches`).
pub fn pattern_matches_exec(pattern: &str, rel: &str) -> (b: bool)
    ensures
        b == pattern_matches(pattern@, rel@),
{
    let p = chars_of(pattern);
    let r = chars_of(rel);
    if p.len() > 0 && p[0] == '/' {
        let tail = &p.as_slice()[1..p.len()];
        assert(tail@ =~= p@.drop_first());
        starts_with_chars(r.as_slice(), tail)
    } else if p.len() > 0 && p[p.len() - 1] == '/' {
        if starts_with_chars(r.as_slice(), p.as_slice()) {
            return true;
        }
        let mut slashed: Vec<char> = Vec::new();
        slashed.push('/');
        let mut i: usize = 0;
        while i < p.len()
            invariant
                i <= p.len(),
                slashed@ == seq!['/'] + p@.take(i as int),
            decreases p.len() - i,
        {
            slashed.push(p[i]);
            i = i + 1;
            assert(slashed@ =~= seq!['/'] + p@.take(i as int));
        }
        assert(p@.take(p.len() as int) =~= p@);
        contains_chars(r.as_slice(), slashed.as_slice())
    } else {
        let src = wildcard_regex_exec(p.as_slice());
        let src_text = string_of(src.as_slice());
        match compile_regex(src_text.as_str()) {
            Some(c) => regex_matches(&c, rel),
            None => false,
        }
    }
}

/// Whether a file name is one of the always-excluded system files.
pub fn is_system_file_name_exec(name: &str) -> (b: bool)
    ensures
        b == is_system_file_name(name@),
{
    let v = chars_of(name);
    let apple = chars_of("._");
    str_eq(name, ".DS_Store") || str_eq(name, ".fseventsd") || str_eq(name, ".Trashes") || str_eq(
        name,
        ".Spotlight-V100",
    ) || str_eq(name, ".TemporaryItems") || starts_with_chars(v.as_slice(), apple.as_slice())
}

/// Whether `path` is excluded by `exclude_patterns` when scanning `root`.
///
/// Patterns: `/p` matches relative paths that begin with `p`; `p/` matches
/// a directory `p` at any depth; any other pattern is a wildcard pattern
/// (`*` matches any text) over the whole relative path. System files
/// (`.DS_Store`, `.fseventsd`, `.Trashes`, `.Spotlight-V100`,
/// `.TemporaryItems`, `._*`) are always excluded.
pub fn should_exclude(path: &str, root: &str, exclude_patterns: &[String]) -> (b: bool)
    ensures
        b == spec_should_exclude(path@, root@, exclude_patterns@),
{
    let relative = match strip_prefix(path, root) {
        Some(rel) => rel,
        None => return false,
    };
    let mut i: usize = 0;
    while i < exclude_patterns.len()
        invariant
            i <= exclude_patterns@.len(),
            path_strip_prefix(path@, root@) == Some(relative@),
            forall|j: int| 0 <= j < i ==> !pattern_matches(#[trigger] exclude_patterns@[j]@, relative@),
        decreases exclude_patterns.len() - i,
    {
        if pattern_matches_exec(exclude_patterns[i].as_str(), relative.as_str()) {
            assert(pattern_matches(exclude_patterns@[i as int]@, relative@));
            return true;
        }
        i = i + 1;
    }
    match file_name(relative.as_str()) {
        Some(name) => is_system_file_name_exec(name.as_str()),
        None => false,
    }
}

/// Whether a source file must be copied over its counterpart in the target.
pub open spec fn spec_should_sync(source: FileInfo, target: Option<FileInfo>, checksum: bool) -> bool {
    match target {
        None => true,
        Some(t) => if checksum {
            !source.spec_content_eq(&t)
        } else {
            source.spec_is_newer_than(&t)
        },
    }
}

/// Whether the source file must be copied: always when the target lacks
/// it; in checksum mode when size or digest differ; otherwise when the
/// source is newer or the sizes differ.
pub fn should_sync(source_info: &FileInfo, target_info: Option<&FileInfo>, checksum: bool) -> (b: bool)
    ensures
        b == spec_should_sync(
            *source_info,
            match target_info {
                Some(t) => Some(*t),
                None => None,
            },
            checksum,
        ),
{
    match target_info {
        None => true,
        Some(target) => {
            if checksum {
                !source_info.content_eq(target)
            } else {
                source_info.is_newer_than(target)
            }
        },
    }
}

/// A file compared with an identical copy of itself never needs syncing,
/// in either comparison mode.
pub proof fn lemma_identical_file_needs_no_sync(f: FileInfo, checksum: bool)
    ensures
        !spec_should_sync(f, Some(f), checksum),
{
}

/// A file the target lacks always needs syncing.
pub proof fn lemma_missing_file_needs_sync(f: FileInfo, checksum: bool)
    ensures
        spec_should_sync(f, None, checksum),
{
}

/// Exclusion only grows with the rules: a path excluded under `patterns`
/// stays excluded when more patterns are added.
pub proof fn lemma_more_patterns_exclude_more(path: Seq<char>, root: Seq<char>, patterns: Seq<String>, more: Seq<String>)
    ensures
        spec_should_exclude(path, root, patterns) ==> spec_should_exclude(path, root, patterns + more),
{
    if let Some(rel) = path_strip_prefix(path, root) {
        if some_pattern_matches(patterns, rel) {
            let i = choose|i: int| 0 <= i < patterns.len() && pattern_matches(#[trigger] patterns[i]@, rel);
            assert((patterns + more)[i] == patterns[i]);
        }
    }
}

/// System files are excluded whatever the rules say, as long as they lie
/// under the scanned directory.
pub proof fn lemma_system_files_always_excluded(path: Seq<char>, root: Seq<char>, patterns: Seq<String>)
    ensures
        (path_strip_prefix(path, root) matches Some(rel) && path_file_name(rel) matches Some(name)
            && is_system_file_name(name)) ==> spec_should_exclude(path, root, patterns),
{
}

/// With no rules, only system files are excluded.
pub proof fn lemma_no_rules_exclude_only_system_files(path: Seq<char>, root: Seq<char>)
    ensures
        spec_should_exclude(path, root, Seq::empty()) == (path_strip_prefix(path, root) matches Some(rel)
            && path_file_name(rel) matches Some(name) && is_system_file_name(name)),
{
}

/// Exclusion decomposes per pattern: a path is excluded by two lists of
/// rules together exactly when one of the lists excludes it.
pub proof fn lemma_exclusion_per_pattern(path: Seq<char>, root: Seq<char>, first: Seq<String>, second: Seq<String>)
    ensures
        spec_should_exclude(path, root, first + second) == (spec_should_exclude(path, root, first)
            || spec_should_exclude(path, root, second)),
{
    if let Some(rel) = path_strip_prefix(path, root) {
        let all = first + second;
        if some_pattern_matches(all, rel) {
            let i = choose|i: int| 0 <= i < all.len() && pattern_matches(#[trigger] all[i]@, rel);
            if i < first.len() {
                assert(all[i] == first[i]);
            } else {
                assert(all[i] == second[i - first.len()]);
            }
        }
        if some_pattern_matches(first, rel) {
            let i = choose|i: int| 0 <= i < first.len() && pattern_matches(#[trigger] first[i]@, rel);
            assert(all[i] == first[i]);
        }
        if some_pattern_matches(second, rel) {
            let i = choose|i: int| 0 <= i < second.len() && pattern_matches(#[trigger] second[i]@, rel);
            assert(all[first.len() + i] == second[i]);
        }
    }
}

/// The macOS system entries are left out whatever the rules say: a path
/// under the root whose name is `.DS_Store`, `.fseventsd`, `.Trashes`,
/// `.Spotlight-V100` or `.TemporaryItems`, or begins with `._`, is
/// excluded, under any patterns.
pub proof fn lemma_macos_entries_excluded(path: Seq<char>, root: Seq<char>, patterns: Seq<String>, rel: Seq<char>, name: Seq<char>)
    requires
        path_strip_prefix(path, root) == Some(rel),
        path_file_name(rel) == Some(name),
        name == ".DS_Store"@ || name == ".fseventsd"@ || name == ".Trashes"@ || name == ".Spotlight-V100"@ || name
            == ".TemporaryItems"@ || (name.len() >= 2 && name[0] == '.' && name[1] == '_'),
    ensures
        spec_should_exclude(path, root, patterns),
{
    reveal_strlit("._");
    if name.len() >= 2 && name[0] == '.' && name[1] == '_' {
        assert(name.subrange(0, 2) =~= "._"@);
    }
}

/// When a file must be copied over its counterpart: in time mode exactly
/// when the source is newer or the sizes differ; in checksum mode exactly
/// when the sizes or the digests differ; always when there is none.
pub proof fn lemma_sync_decision(source: FileInfo, target: FileInfo)
    ensures
        spec_should_sync(source, Some(target), false) <==> (source.mtime > target.mtime || source.size != target.size),
        spec_should_sync(source, Some(target), true) <==> (source.size != target.size || source.blake3_hash
            != target.blake3_hash),
        spec_should_sync(source, None, false),
        spec_should_sync(source, None, true),
{
}

/// A `/`-anchored pattern `/p` excludes a path under the root whose path
/// relative to the root begins with `p`; a pattern `p/` one whose relative
/// path begins with `p/` or holds `/p/`.
pub proof fn lemma_path_patterns(path: Seq<char>, root: Seq<char>, patterns: Seq<String>, i: int, rel: Seq<char>)
    requires
        0 <= i < patterns.len(),
        path_strip_prefix(path, root) == Some(rel),
    ensures
        (patterns[i]@.len() > 0 && patterns[i]@[0] == '/' && has_prefix(rel, patterns[i]@.drop_first()))
            ==> spec_should_exclude(path, root, patterns),
        (patterns[i]@.len() > 1 && patterns[i]@[0] != '/' && patterns[i]@.last() == '/' && (has_prefix(
            rel,
            patterns[i]@,
        ) || has_infix(rel, seq!['/'] + patterns[i]@))) ==> spec_should_exclude(path, root, patterns),
{
    assert(pattern_matches(patterns[i]@, rel) ==> some_pattern_matches(patterns, rel));
}

} // verus!
