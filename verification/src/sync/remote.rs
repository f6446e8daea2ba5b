//! Remote targets of the form `user@host[:port]:path[?key=keyfile]`, and the
//! commands and replies exchanged with the remote side.

use vstd::prelude::*;
use crate::numbers::{
    decimal, decimal_string, is_digit, lemma_decimal_digits, lemma_parse_decimal, lemma_parse_signed_decimal,
    parse_i64_exec, parse_i64_spec, parse_unsigned, parse_unsigned_exec, signed_decimal, all_digits,
};
use crate::sync::report::texts;
use crate::text::{contains_chars, has_infix, push_char, str_eq};
use crate::text::{
    chars_of, find_char, find_chars, first_index, first_occurrence, is_first_index, is_last_index, last_index,
    lemma_first_index_absent, lemma_first_index_is, lemma_first_occurrence_absent, lemma_first_occurrence_is,
    lemma_infix_of_join, lemma_last_index_is, occurs_at, rfind_char, string_of,
};

verus! {

/// A remote location reached over SSH.
pub struct RemoteTarget {
    pub user: String,
    pub host: String,
    pub port: u16,
    pub path: String,
    pub ssh_key_path: Option<String>,
}

/// The contents of a [`RemoteTarget`] as character sequences.
pub struct RemoteTargetView {
    pub user: Seq<char>,
    pub host: Seq<char>,
    pub port: u16,
    pub path: Seq<char>,
    pub ssh_key_path: Option<Seq<char>>,
}

/// The view of an optional string.
pub open spec fn opt_view(s: Option<String>) -> Option<Seq<char>> {
    match s {
        Some(x) => Some(x@),
        None => None,
    }
}

impl View for RemoteTarget {
    type V = RemoteTargetView;

    open spec fn view(&self) -> RemoteTargetView {
        RemoteTargetView {
            user: self.user@,
            host: self.host@,
            port: self.port,
            path: self.path@,
            ssh_key_path: opt_view(self.ssh_key_path),
        }
    }
}

/// The marker that separates a key file from the rest of a target.
pub open spec fn key_marker() -> Seq<char> {
    seq!['?', 'k', 'e', 'y', '=']
}

/// The port used when a target names none.
pub open spec fn default_ssh_port() -> u16 {
    22
}

/// Host and port from the text between `@` and the last `:`: a `host:port`
/// pair splits at its first `:` and the port must be a `u16`; text without
/// `:` is the host alone, on the default port.
pub open spec fn spec_host_port(hp: Seq<char>) -> Option<(Seq<char>, u16)> {
    match first_index(hp, ':') {
        Some(k) => match parse_unsigned(hp.skip(k + 1), 0xffff) {
            Some(port) => Some((hp.take(k), port as u16)),
            None => None,
        },
        None => Some((hp, default_ssh_port())),
    }
}

/// What a target string denotes. The key file is everything after the first
/// `?key=`; the user is what precedes the first `@`; the path is what
/// follows the last `:` after it; what lies between is host and port.
pub open spec fn spec_parse_remote_target(t: Seq<char>) -> Option<RemoteTargetView> {
    let (tp, key) = match first_occurrence(t, key_marker()) {
        Some(i) => (t.take(i), Some(t.skip(i + 5))),
        None => (t, None),
    };
    match first_index(tp, '@') {
        None => None,
        Some(a) => {
            let rest = tp.skip(a + 1);
            match last_index(rest, ':') {
                None => None,
                Some(cp) => match spec_host_port(rest.take(cp)) {
                    None => None,
                    Some(hp) => Some(
                        RemoteTargetView {
                            user: tp.take(a),
                            host: hp.0,
                            port: hp.1,
                            path: rest.skip(cp + 1),
                            ssh_key_path: key,
                        },
                    ),
                },
            }
        },
    }
}

/// The view of an optional remote target.
pub open spec fn opt_target_view(r: Option<RemoteTarget>) -> Option<RemoteTargetView> {
    match r {
        Some(x) => Some(x@),
        None => None,
    }
}

fn string_of_range(v: &[char], lo: usize, hi: usize) -> (s: String)
    requires
        lo <= hi <= v.len(),
    ensures
        s@ == v@.subrange(lo as int, hi as int),
{
    string_of(&v[lo..hi])
}

fn host_port(hp: &[char]) -> (r: Option<(String, u16)>)
    ensures
        match r {
            Some(x) => spec_host_port(hp@) == Some((x.0@, x.1)),
            None => spec_host_port(hp@) is None,
        },
{
    match find_char(hp, ':') {
        Some(k) => {
            assert(hp@.subrange(k + 1, hp.len() as int) =~= hp@.skip(k + 1));
            match parse_unsigned_exec(&hp[k + 1..hp.len()], 0xffff) {
                Some(port) => {
                    let host = string_of_range(hp, 0, k);
                    assert(hp@.subrange(0, k as int) =~= hp@.take(k as int));
                    Some((host, port as u16))
                },
                None => None,
            }
        },
        None => Some((string_of(hp), 22)),
    }
}

/// Parses a remote target; `None` when the text has no `@`, no `:` after it,
/// or a port that is not a `u16`.
pub fn parse_remote_target(target: &str) -> (r: Option<RemoteTarget>)
    ensures
        opt_target_view(r) == spec_parse_remote_target(target@),
{
    let t = chars_of(target);
    let marker: [char; 5] = ['?', 'k', 'e', 'y', '='];
    assert(marker@ =~= key_marker());
    let (tp_end, key) = match find_chars(t.as_slice(), &marker) {
        Some(i) => {
            assert(occurs_at(t@, marker@, i as int));
            assert(key_marker().len() == 5);
            assert(marker@.len() == 5);
            let tl = t.len();
            assert(i + 5 <= tl);
            let start = i + 5;
            let k = string_of_range(t.as_slice(), start, tl);
            assert(t@.subrange(i + 5, t.len() as int) =~= t@.skip(i + 5));
            (i, Some(k))
        },
        None => (t.len(), None),
    };
    let ghost tp = t@.subrange(0, tp_end as int);
    assert(first_occurrence(t@, key_marker()) is Some ==> tp =~= t@.take(
        first_occurrence(t@, key_marker())->0,
    ));
    assert(first_occurrence(t@, key_marker()) is None ==> tp =~= t@);
    let tpv = &t.as_slice()[0..tp_end];
    assert(tpv@ == tp);
    let a = match find_char(tpv, '@') {
        Some(a) => a,
        None => return None,
    };
    let restv = &tpv[a + 1..tpv.len()];
    assert(restv@ =~= tp.skip(a + 1));
    let cp = match rfind_char(restv, ':') {
        Some(cp) => cp,
        None => return None,
    };
    let hpv = &restv[0..cp];
    assert(hpv@ =~= restv@.take(cp as int));
    let (host, port) = match host_port(hpv) {
        Some(x) => x,
        None => return None,
    };
    let user = string_of_range(tpv, 0, a);
    assert(tpv@.subrange(0, a as int) =~= tp.take(a as int));
    let path = string_of_range(restv, cp + 1, restv.len());
    assert(restv@.subrange(cp + 1, restv.len() as int) =~= restv@.skip(cp + 1));
    Some(RemoteTarget { user, host, port, path, ssh_key_path: key })
}

/// A file found on the remote side.
pub struct RemoteFile {
    /// Path relative to the target directory, as in `subdir/file.txt`.
    pub path: String,
    /// Size in bytes.
    pub size: u64,
    /// Modification time, Unix seconds.
    pub mtime: i64,
}

impl RemoteFile {
    /// Whether the local file is the same as this remote file: same size
    /// and same modification time in whole seconds. The local file is given
    /// by its metadata, `None` when that could not be read (then it is not
    /// the same): its size, and its whole seconds since the Unix epoch,
    /// `None` when its time is unavailable or before the epoch, which then
    /// counts as 0. The seconds are taken as an `i64` as `as` gives them.
    pub fn is_same_as_local(&self, local: Option<(u64, Option<u64>)>) -> (b: bool)
        ensures
            b == match local {
                Some((size, secs)) => self.size == size && self.mtime == local_seconds(secs),
                None => false,
            },
    {
        match local {
            Some((size, secs)) => {
                let mtime: i64 = match secs {
                    Some(s) => s as i64,
                    None => 0,
                };
                self.size == size && self.mtime == mtime
            },
            None => false,
        }
    }
}

/// A local file's modification time in whole Unix seconds as the
/// comparison takes it: 0 when unavailable.
pub open spec fn local_seconds(secs: Option<u64>) -> i64 {
    match secs {
        Some(s) => s as i64,
        None => 0,
    }
}

/// The contents of a [`RemoteFile`].
pub struct RemoteFileView {
    pub path: Seq<char>,
    pub size: u64,
    pub mtime: i64,
}

impl View for RemoteFile {
    type V = RemoteFileView;

    open spec fn view(&self) -> RemoteFileView {
        RemoteFileView { path: self.path@, size: self.size, mtime: self.mtime }
    }
}

/// `s` split at every `c` (what `str::split` with a `char` gives): always at
/// least one piece.
pub open spec fn split_on(s: Seq<char>, c: char) -> Seq<Seq<char>>
    decreases s.len(),
{
    match first_index(s, c) {
        None => seq![s],
        Some(i) => if 0 <= i < s.len() {
            seq![s.take(i)] + split_on(s.skip(i + 1), c)
        } else {
            seq![s]
        },
    }
}

/// A line without its `\r`, if it ends with one.
pub open spec fn strip_cr(line: Seq<char>) -> Seq<char> {
    if line.len() > 0 && line.last() == '\r' {
        line.drop_last()
    } else {
        line
    }
}

/// The lines of `s` (what `str::lines` gives): split at `\n`, each line
/// before a `\n` loses a trailing `\r`, and a final line ending adds no
/// empty line.
pub open spec fn spec_lines(s: Seq<char>) -> Seq<Seq<char>>
    decreases s.len(),
{
    if s.len() == 0 {
        Seq::empty()
    } else {
        match first_index(s, '\n') {
            None => seq![s],
            Some(i) => if 0 <= i < s.len() {
                seq![strip_cr(s.take(i))] + spec_lines(s.skip(i + 1))
            } else {
                seq![s]
            },
        }
    }
}

/// One line of the remote listing, `path<TAB>size<TAB>mtime`: lines with
/// another number of fields are skipped; a size that is not a `u64` reads
/// as 0; the modification time is the part before the first `.`, and reads
/// as 0 when it is not an `i64`.
pub open spec fn spec_listing_record(line: Seq<char>) -> Option<RemoteFileView> {
    let parts = split_on(line, '\t');
    if parts.len() == 3 {
        Some(
            RemoteFileView {
                path: parts[0],
                size: match parse_unsigned(parts[1], u64::MAX as nat) {
                    Some(v) => v as u64,
                    None => 0,
                },
                mtime: match parse_i64_spec(split_on(parts[2], '.')[0]) {
                    Some(v) => v as i64,
                    None => 0,
                },
            },
        )
    } else {
        None
    }
}

/// The records of a list of lines, in order.
pub open spec fn spec_listing_records(lines: Seq<Seq<char>>) -> Seq<RemoteFileView>
    decreases lines.len(),
{
    if lines.len() == 0 {
        Seq::empty()
    } else {
        match spec_listing_record(lines[0]) {
            Some(r) => seq![r] + spec_listing_records(lines.drop_first()),
            None => spec_listing_records(lines.drop_first()),
        }
    }
}

/// The files named by the remote listing.
pub open spec fn spec_parse_listing(output: Seq<char>) -> Seq<RemoteFileView> {
    spec_listing_records(spec_lines(output))
}

/// The views of a list of remote files.
pub open spec fn remote_files_view(v: Seq<RemoteFile>) -> Seq<RemoteFileView> {
    v.map_values(|f: RemoteFile| f@)
}

/// The pieces of `s` split at `c`.
fn split_chars(s: &[char], c: char) -> (parts: Vec<Vec<char>>)
    ensures
        parts@.map_values(|p: Vec<char>| p@) == split_on(s@, c),
    decreases s.len(),
{
    match find_char(s, c) {
        None => {
            let mut parts: Vec<Vec<char>> = Vec::new();
            parts.push(vstd::slice::slice_to_vec(s));
            assert(parts@.map_values(|p: Vec<char>| p@) =~= seq![s@]);
            parts
        },
        Some(i) => {
            let head = vstd::slice::slice_to_vec(&s[0..i]);
            let tail = &s[i + 1..s.len()];
            assert(tail@ =~= s@.skip(i + 1));
            assert(head@ =~= s@.take(i as int));
            let rest = split_chars(tail, c);
            let mut parts: Vec<Vec<char>> = Vec::new();
            parts.push(head);
            let mut k: usize = 0;
            while k < rest.len()
                invariant
                    k <= rest@.len(),
                    parts@.len() == k + 1,
                    parts@[0]@ == s@.take(i as int),
                    forall|j: int| 0 <= j < k ==> (#[trigger] parts@[j + 1])@ == rest@[j]@,
                decreases rest.len() - k,
            {
                parts.push(rest[k].clone());
                k = k + 1;
            }
            let ghost lhs = parts@.map_values(|p: Vec<char>| p@);
            let ghost rhs = seq![s@.take(i as int)] + rest@.map_values(|p: Vec<char>| p@);
            assert(lhs.len() == rhs.len());
            assert forall|j: int| 0 <= j < lhs.len() implies lhs[j] == rhs[j] by {
                if j > 0 {
                    assert(parts@[(j - 1) + 1]@ == rest@[j - 1]@);
                }
            }
            assert(lhs =~= rhs);
            parts
        },
    }
}

fn listing_record(line: &[char]) -> (r: Option<RemoteFile>)
    ensures
        match r {
            Some(f) => spec_listing_record(line@) == Some(f@),
            None => spec_listing_record(line@) is None,
        },
{
    let parts = split_chars(line, '\t');
    proof {
        assert(parts@.len() == split_on(line@, '\t').len());
    }
    if parts.len() != 3 {
        return None;
    }
    assert(parts@[0]@ == split_on(line@, '\t')[0]);
    assert(parts@[1]@ == split_on(line@, '\t')[1]);
    assert(parts@[2]@ == split_on(line@, '\t')[2]);
    let size = match parse_unsigned_exec(parts[1].as_slice(), u64::MAX) {
        Some(v) => v,
        None => 0,
    };
    let secs = split_chars(parts[2].as_slice(), '.');
    assert(split_on(parts@[2]@, '.').len() >= 1);
    assert(secs@.len() >= 1);
    assert(secs@.map_values(|p: Vec<char>| p@)[0] == secs@[0]@);
    let mtime = match parse_i64_exec(secs[0].as_slice()) {
        Some(v) => v,
        None => 0,
    };
    Some(RemoteFile { path: string_of(parts[0].as_slice()), size, mtime })
}

/// One line of the remote listing as `find -printf '%P\t%s\t%T@'` prints
/// it for `f`: path, size, and modification time in seconds followed by
/// `.` and the fraction digits `frac`.
pub open spec fn spec_listing_line(f: RemoteFileView, frac: Seq<char>) -> Seq<char> {
    f.path + seq!['\t'] + decimal(f.size as nat) + seq!['\t'] + signed_decimal(f.mtime as int) + seq!['.'] + frac
}

/// The listing printed for `files`, one line each, each ended by `\n`;
/// `fracs` holds the fraction digits of each line.
pub open spec fn spec_listing_text(files: Seq<RemoteFileView>, fracs: Seq<Seq<char>>) -> Seq<char>
    decreases files.len(),
{
    if files.len() == 0 || fracs.len() == 0 {
        Seq::empty()
    } else {
        spec_listing_line(files[0], fracs[0]) + seq!['\n'] + spec_listing_text(files.drop_first(), fracs.drop_first())
    }
}

proof fn lemma_split_on_join(a: Seq<char>, c: char, b: Seq<char>)
    requires
        !a.contains(c),
    ensures
        split_on(a + seq![c] + b, c) == seq![a] + split_on(b, c),
{
    let s = a + seq![c] + b;
    assert(is_first_index(s, c, a.len() as int)) by {
        assert forall|j: int| 0 <= j < a.len() implies s[j] != c by {
            assert(s[j] == a[j]);
        }
    }
    lemma_first_index_is(s, c, a.len() as int);
    assert(s.take(a.len() as int) =~= a);
    assert(s.skip(a.len() as int + 1) =~= b);
}

proof fn lemma_split_on_whole(a: Seq<char>, c: char)
    requires
        !a.contains(c),
    ensures
        split_on(a, c) == seq![a],
{
    lemma_first_index_absent(a, c);
}

proof fn lemma_lines_join(a: Seq<char>, b: Seq<char>)
    requires
        !a.contains('\n'),
    ensures
        spec_lines(a + seq!['\n'] + b) == seq![strip_cr(a)] + spec_lines(b),
{
    let s = a + seq!['\n'] + b;
    assert(is_first_index(s, '\n', a.len() as int)) by {
        assert forall|j: int| 0 <= j < a.len() implies s[j] != '\n' by {
            assert(s[j] == a[j]);
        }
    }
    lemma_first_index_is(s, '\n', a.len() as int);
    assert(s.take(a.len() as int) =~= a);
    assert(s.skip(a.len() as int + 1) =~= b);
}

/// The characters of a number's text are digits and `-`.
proof fn lemma_number_chars(n: int)
    ensures
        forall|i: int| 0 <= i < signed_decimal(n).len() ==> ({
            let ch = #[trigger] signed_decimal(n)[i];
            ch == '-' || is_digit(ch)
        }),
        signed_decimal(n).len() > 0,
{
    if n < 0 {
        lemma_decimal_digits((-n) as nat);
        let d = decimal((-n) as nat);
        assert forall|i: int| 1 <= i < signed_decimal(n).len() implies signed_decimal(n)[i] == d[i - 1] by {}
    } else {
        lemma_decimal_digits(n as nat);
    }
}

proof fn lemma_listing_line_record(f: RemoteFileView, frac: Seq<char>)
    requires
        !f.path.contains('\t'),
        !f.path.contains('\n'),
        all_digits(frac),
    ensures
        spec_listing_record(spec_listing_line(f, frac)) == Some(f),
        !spec_listing_line(f, frac).contains('\n'),
        strip_cr(spec_listing_line(f, frac)) == spec_listing_line(f, frac),
{
    let line = spec_listing_line(f, frac);
    let ds = decimal(f.size as nat);
    let sd = signed_decimal(f.mtime as int);
    let tail = sd + seq!['.'] + frac;
    lemma_decimal_digits(f.size as nat);
    lemma_number_chars(f.mtime as int);
    assert(line =~= f.path + seq!['\t'] + (ds + seq!['\t'] + tail));
    assert(!ds.contains('\t')) by {
        assert forall|i: int| 0 <= i < ds.len() implies ds[i] != '\t' by {
            assert(is_digit(ds[i]));
        }
    }
    assert(!sd.contains('.')) by {
        assert forall|i: int| 0 <= i < sd.len() implies sd[i] != '.' by {
            let ch = sd[i];
            assert(ch == '-' || is_digit(ch));
        }
    }
    assert(!tail.contains('\t')) by {
        assert forall|i: int| 0 <= i < tail.len() implies tail[i] != '\t' by {
            if i < sd.len() {
                assert(tail[i] == sd[i]);
                let ch = sd[i];
                assert(ch == '-' || is_digit(ch));
            } else if i > sd.len() {
                assert(tail[i] == frac[i - sd.len() - 1]);
                assert(is_digit(frac[i - sd.len() - 1]));
            }
        }
    }
    lemma_split_on_join(f.path, '\t', ds + seq!['\t'] + tail);
    lemma_split_on_join(ds, '\t', tail);
    lemma_split_on_whole(tail, '\t');
    let parts = split_on(line, '\t');
    assert(parts =~= seq![f.path, ds, tail]);
    lemma_parse_decimal(f.size as nat, u64::MAX as nat);
    lemma_split_on_join(sd, '.', frac);
    assert(split_on(tail, '.')[0] == sd);
    lemma_parse_signed_decimal(f.mtime);
    assert forall|i: int| 0 <= i < line.len() implies line[i] != '\n' by {
        if i < f.path.len() {
            assert(line[i] == f.path[i]);
        } else if f.path.len() < i < f.path.len() + 1 + ds.len() {
            assert(line[i] == ds[i - f.path.len() - 1]);
            assert(is_digit(ds[i - f.path.len() - 1]));
        } else if i > f.path.len() + 1 + ds.len() {
            let k = i - f.path.len() - 2 - ds.len();
            assert(line[i] == tail[k]);
            if k < sd.len() {
                assert(tail[k] == sd[k]);
                let ch = sd[k];
                assert(ch == '-' || is_digit(ch));
            } else if k > sd.len() {
                assert(tail[k] == frac[k - sd.len() - 1]);
                assert(is_digit(frac[k - sd.len() - 1]));
            }
        }
    }
    if frac.len() > 0 {
        assert(line.last() == frac.last());
        assert(is_digit(frac[frac.len() - 1]));
    } else {
        assert(line.last() == '.');
    }
}

/// Reading back what the remote prints: the listing printed for a list of
/// files parses to those files, in order, whenever no path holds a tab or
/// a line break.
pub proof fn lemma_listing_text_parses(files: Seq<RemoteFileView>, fracs: Seq<Seq<char>>)
    requires
        fracs.len() == files.len(),
        forall|i: int| 0 <= i < files.len() ==> !(#[trigger] files[i]).path.contains('\t') && !files[i].path.contains('\n'),
        forall|i: int| 0 <= i < fracs.len() ==> all_digits(#[trigger] fracs[i]),
    ensures
        spec_parse_listing(spec_listing_text(files, fracs)) == files,
    decreases files.len(),
{
    if files.len() == 0 {
        assert(spec_lines(Seq::<char>::empty()) == Seq::<Seq<char>>::empty());
        assert(files =~= Seq::<RemoteFileView>::empty());
    } else {
        let line = spec_listing_line(files[0], fracs[0]);
        let rest = spec_listing_text(files.drop_first(), fracs.drop_first());
        assert(!files[0].path.contains('\t') && !files[0].path.contains('\n'));
        assert(all_digits(fracs[0]));
        lemma_listing_line_record(files[0], fracs[0]);
        lemma_lines_join(line, rest);
        assert forall|i: int| 0 <= i < files.drop_first().len() implies !(#[trigger] files.drop_first()[i]).path.contains('\t')
            && !files.drop_first()[i].path.contains('\n') by {
            assert(files.drop_first()[i] == files[i + 1]);
        }
        assert forall|i: int| 0 <= i < fracs.drop_first().len() implies all_digits(#[trigger] fracs.drop_first()[i]) by {
            assert(fracs.drop_first()[i] == fracs[i + 1]);
        }
        lemma_listing_text_parses(files.drop_first(), fracs.drop_first());
        let lines = seq![line] + spec_lines(rest);
        assert(lines[0] == line);
        assert(lines.drop_first() =~= spec_lines(rest));
        assert(spec_listing_records(lines) == seq![files[0]] + files.drop_first());
        assert(seq![files[0]] + files.drop_first() =~= files);
    }
}

/// Reads the remote listing (`find ... -printf '%P\t%s\t%T@\n'`): one file
/// per well-formed line, in order.
pub fn parse_listing(output: &str) -> (files: Vec<RemoteFile>)
    ensures
        remote_files_view(files@) == spec_parse_listing(output@),
{
    let s = chars_of(output);
    let mut files: Vec<RemoteFile> = Vec::new();
    let mut pos: usize = 0;
    assert(s@.skip(0) =~= s@);
    while pos < s.len()
        invariant
            pos <= s@.len(),
            remote_files_view(files@) + spec_listing_records(spec_lines(s@.skip(pos as int)))
                == spec_parse_listing(output@),
            s@ == output@,
        decreases s.len() - pos,
    {
        let rest = &s.as_slice()[pos..s.len()];
        assert(rest@ =~= s@.skip(pos as int));
        let (line_end, next) = match find_char(rest, '\n') {
            Some(i) => (pos + i, pos + i + 1),
            None => (s.len(), s.len()),
        };
        let mut line = &rest[0..line_end - pos];
        let ghost raw = line@;
        if line_end < s.len() && line.len() > 0 && line[line.len() - 1] == '\r' {
            line = &line[0..line.len() - 1];
            assert(line@ =~= raw.drop_last());
        }
        let ghost lines = spec_lines(rest@);
        proof {
            match first_index(rest@, '\n') {
                Some(i) => {
                    assert(raw =~= rest@.take(i));
                    assert(line@ == strip_cr(rest@.take(i)));
                    assert(rest@.skip(i + 1) =~= s@.skip(next as int));
                    assert(lines == seq![line@] + spec_lines(s@.skip(next as int)));
                    assert(lines[0] == line@);
                    assert(lines.drop_first() =~= spec_lines(s@.skip(next as int)));
                },
                None => {
                    assert(raw =~= rest@);
                    assert(lines == seq![rest@]);
                    assert(s@.skip(next as int) =~= Seq::<char>::empty());
                    assert(lines.drop_first() =~= spec_lines(s@.skip(next as int)));
                },
            }
        }
        let ghost before = remote_files_view(files@);
        match listing_record(line) {
            Some(f) => {
                files.push(f);
                assert(remote_files_view(files@) =~= before + seq![f@]);
            },
            None => {
            },
        }
        assert(remote_files_view(files@) + spec_listing_records(spec_lines(s@.skip(next as int))) =~= before
            + spec_listing_records(lines));
        pos = next;
    }
    assert(s@.skip(pos as int) =~= Seq::<char>::empty());
    assert(remote_files_view(files@) + spec_listing_records(spec_lines(s@.skip(pos as int))) =~= remote_files_view(files@));
    files
}

/// Whether `shell_escape::unix::escape` leaves `c` unquoted.
pub open spec fn shell_safe_char(c: char) -> bool {
    ('a' <= c && c <= 'z') || ('A' <= c && c <= 'Z') || ('0' <= c && c <= '9') || c == '-' || c == '_'
        || c == '=' || c == '/' || c == ',' || c == '.' || c == '+'
}

/// How one character is written inside single quotes: `'` and `!` close
/// the quote, are escaped with a backslash, and reopen it.
pub open spec fn quoted_char(c: char) -> Seq<char> {
    if c == '\'' || c == '!' {
        seq!['\'', '\\', c, '\'']
    } else {
        seq![c]
    }
}

/// The characters of `s` as written inside single quotes.
pub open spec fn quoted_body(s: Seq<char>) -> Seq<char>
    decreases s.len(),
{
    if s.len() == 0 {
        Seq::empty()
    } else {
        quoted_body(s.drop_last()) + quoted_char(s.last())
    }
}

/// `shell_escape::unix::escape`: a non-empty text of safe characters stays
/// as it is; any other text is put in single quotes.
pub open spec fn spec_shell_escape(s: Seq<char>) -> Seq<char> {
    if s.len() > 0 && forall|i: int| 0 <= i < s.len() ==> shell_safe_char(#[trigger] s[i]) {
        s
    } else {
        seq!['\''] + quoted_body(s) + seq!['\'']
    }
}

/// `shell_escape::unix::escape`, whose behaviour its source states in full:
/// safe text is kept, other text is single-quoted with `'` and `!`
/// escaped. The remote commands run in a Unix shell, so the Unix form is
/// used on every platform (`shell_escape::escape` picks it on Unix only).
#[verifier::external_body]
fn shell_escape(s: &str) -> (r: String)
    ensures
        r@ == spec_shell_escape(s@),
{
    shell_escape::unix::escape(std::borrow::Cow::Borrowed(s)).into_owned()
}

/// `user@host`.
pub open spec fn spec_login(r: RemoteTargetView) -> Seq<char> {
    r.user + "@"@ + r.host
}

/// `user@host:path`, the scp form of a remote location.
pub open spec fn spec_remote_location(r: RemoteTargetView) -> Seq<char> {
    r.user + "@"@ + r.host + ":"@ + r.path
}

/// The host as written in a target text: `host:port`, or `host` alone
/// when the port is the default one and is not written out.
pub open spec fn spec_host_text(r: RemoteTargetView, explicit_port: bool) -> Seq<char> {
    if r.port == default_ssh_port() && !explicit_port {
        r.host
    } else {
        r.host + seq![':'] + decimal(r.port as nat)
    }
}

/// A target text without its key file: `user@host[:port]:path`.
pub open spec fn spec_target_core(r: RemoteTargetView, explicit_port: bool) -> Seq<char> {
    r.user + seq!['@'] + (spec_host_text(r, explicit_port) + seq![':'] + r.path)
}

/// The target text that denotes `r`: `user@host:path`, with `:port` after
/// the host unless the port is the default one and `explicit_port` is
/// off, and `?key=keyfile` at the end when `r` names a key file.
pub open spec fn spec_target_text(r: RemoteTargetView, explicit_port: bool) -> Seq<char> {
    match r.ssh_key_path {
        Some(k) => spec_target_core(r, explicit_port) + key_marker() + k,
        None => spec_target_core(r, explicit_port),
    }
}

proof fn lemma_core_has_no_marker(r: RemoteTargetView, explicit_port: bool)
    requires
        !has_infix(r.user, key_marker()),
        !has_infix(r.host, key_marker()),
        !has_infix(r.path, key_marker()),
    ensures
        !has_infix(spec_target_core(r, explicit_port), key_marker()),
{
    let m = key_marker();
    let dp = decimal(r.port as nat);
    assert(!m.contains('@') && !m.contains(':')) by {
        assert forall|j: int| 0 <= j < m.len() implies m[j] != '@' && m[j] != ':' by {}
    }
    lemma_decimal_digits(r.port as nat);
    assert(!has_infix(dp, m)) by {
        assert forall|i: int| !occurs_at(dp, m, i) by {
            if occurs_at(dp, m, i) {
                assert(dp.subrange(i, i + 5)[0] == dp[i]);
                assert(is_digit(dp[i]));
            }
        }
    }
    if r.port != default_ssh_port() || explicit_port {
        lemma_infix_of_join(r.host, ':', dp, m);
    }
    lemma_infix_of_join(spec_host_text(r, explicit_port), ':', r.path, m);
    lemma_infix_of_join(r.user, '@', spec_host_text(r, explicit_port) + seq![':'] + r.path, m);
}

proof fn lemma_key_marker_splits(core: Seq<char>, k: Seq<char>)
    requires
        !has_infix(core, key_marker()),
    ensures
        first_occurrence(core + key_marker() + k, key_marker()) == Some(core.len() as int),
        (core + key_marker() + k).take(core.len() as int) == core,
        (core + key_marker() + k).skip(core.len() as int + 5) == k,
{
    let m = key_marker();
    let t = core + m + k;
    assert forall|j: int| 0 <= j < core.len() implies !occurs_at(t, m, j) by {
        if occurs_at(t, m, j) {
            if j + 5 <= core.len() {
                assert(t.subrange(j, j + 5) =~= core.subrange(j, j + 5));
                assert(occurs_at(core, m, j));
            } else {
                let d = core.len() - j;
                assert(t.subrange(j, j + 5)[d] == t[core.len() as int]);
                assert(t[core.len() as int] == '?');
            }
        }
    }
    assert(t.subrange(core.len() as int, core.len() as int + 5) =~= m);
    lemma_first_occurrence_is(t, m, core.len() as int);
    assert(t.take(core.len() as int) =~= core);
    assert(t.skip(core.len() as int + 5) =~= k);
}

proof fn lemma_host_text_parses(r: RemoteTargetView, explicit_port: bool)
    requires
        !r.host.contains(':'),
    ensures
        spec_host_port(spec_host_text(r, explicit_port)) == Some((r.host, r.port)),
{
    let hp = spec_host_text(r, explicit_port);
    if r.port == default_ssh_port() && !explicit_port {
        lemma_first_index_absent(r.host, ':');
    } else {
        assert(is_first_index(hp, ':', r.host.len() as int)) by {
            assert forall|j: int| 0 <= j < r.host.len() implies hp[j] != ':' by {
                assert(hp[j] == r.host[j]);
            }
        }
        lemma_first_index_is(hp, ':', r.host.len() as int);
        assert(hp.skip(r.host.len() as int + 1) =~= decimal(r.port as nat));
        assert(hp.take(r.host.len() as int) =~= r.host);
        lemma_parse_decimal(r.port as nat, 0xffff);
    }
}

/// Parsing gives back the target that a target text was written from,
/// with or without the default port written out, whenever the parts can be
/// told apart: the user holds no `@`, host and path hold no `:`, and none
/// of the three holds `?key=`.
pub proof fn lemma_target_text_parses(r: RemoteTargetView, explicit_port: bool)
    requires
        !r.user.contains('@'),
        !r.host.contains(':'),
        !r.path.contains(':'),
        !has_infix(r.user, key_marker()),
        !has_infix(r.host, key_marker()),
        !has_infix(r.path, key_marker()),
    ensures
        spec_parse_remote_target(spec_target_text(r, explicit_port)) == Some(r),
{
    let hp = spec_host_text(r, explicit_port);
    let rest = hp + seq![':'] + r.path;
    let core = spec_target_core(r, explicit_port);
    lemma_core_has_no_marker(r, explicit_port);
    match r.ssh_key_path {
        Some(k) => lemma_key_marker_splits(core, k),
        None => lemma_first_occurrence_absent(core, key_marker()),
    }
    // The user ends at the first `@`.
    assert(is_first_index(core, '@', r.user.len() as int)) by {
        assert forall|j: int| 0 <= j < r.user.len() implies core[j] != '@' by {
            assert(core[j] == r.user[j]);
        }
    }
    lemma_first_index_is(core, '@', r.user.len() as int);
    assert(core.take(r.user.len() as int) =~= r.user);
    assert(core.skip(r.user.len() as int + 1) =~= rest);
    // The path starts after the last `:`.
    assert(is_last_index(rest, ':', hp.len() as int)) by {
        assert forall|j: int| hp.len() < j < rest.len() implies rest[j] != ':' by {
            assert(rest[j] == r.path[j - hp.len() - 1]);
        }
    }
    lemma_last_index_is(rest, ':', hp.len() as int);
    assert(rest.take(hp.len() as int) =~= hp);
    assert(rest.skip(hp.len() as int + 1) =~= r.path);
    lemma_host_text_parses(r, explicit_port);
}

/// A key file suffix changes only the key file: appending `?key=keyfile`
/// to a text without `?key=` parses as the text does, with that key file.
pub proof fn lemma_key_suffix_sets_only_the_key(t: Seq<char>, k: Seq<char>)
    requires
        !has_infix(t, key_marker()),
    ensures
        spec_parse_remote_target(t + key_marker() + k) == match spec_parse_remote_target(t) {
            Some(r) => Some(RemoteTargetView { ssh_key_path: Some(k), ..r }),
            None => None,
        },
{
    lemma_key_marker_splits(t, k);
    lemma_first_occurrence_absent(t, key_marker());
}

/// The start of a command line: `program`, run through `sshpass -p` when a
/// password is given.
pub open spec fn auth_prefix(program: Seq<char>, password: Option<Seq<char>>) -> Seq<Seq<char>> {
    match password {
        Some(p) => seq!["sshpass"@, "-p"@, p, program],
        None => seq![program],
    }
}

/// `-i keyfile` when the target names a key file.
pub open spec fn key_args(r: RemoteTargetView) -> Seq<Seq<char>> {
    match r.ssh_key_path {
        Some(k) => seq!["-i"@, k],
        None => Seq::empty(),
    }
}

/// The options every connection uses.
pub open spec fn connect_options() -> Seq<Seq<char>> {
    seq!["-o"@, "StrictHostKeyChecking=accept-new"@, "-o"@, "ConnectTimeout=10"@]
}

/// The command line (program first) that opens an SSH session to the
/// target; the remote command is appended to it.
pub open spec fn spec_ssh_command(r: RemoteTargetView, password: Option<Seq<char>>) -> Seq<Seq<char>> {
    auth_prefix("ssh"@, password) + key_args(r) + connect_options() + seq![
        "-p"@,
        decimal(r.port as nat),
        spec_login(r),
    ]
}

/// The command line (program first) that copies a local file to the
/// target with scp.
pub open spec fn spec_upload_command(r: RemoteTargetView, password: Option<Seq<char>>, local: Seq<char>) -> Seq<Seq<char>> {
    auth_prefix("scp"@, password) + connect_options() + seq!["-P"@, decimal(r.port as nat)] + key_args(r)
        + seq![local, spec_remote_location(r)]
}

/// The command line (program first) that copies the target's file to a
/// local path with scp.
pub open spec fn spec_download_command(r: RemoteTargetView, password: Option<Seq<char>>, local: Seq<char>) -> Seq<Seq<char>> {
    auth_prefix("scp"@, password) + key_args(r) + connect_options() + seq![
        "-P"@,
        decimal(r.port as nat),
        spec_remote_location(r),
        local,
    ]
}

/// The command line (program first) that checks, without a password,
/// whether key-based login works.
pub open spec fn spec_keypair_test_command(user: Seq<char>, host: Seq<char>, port: u16) -> Seq<Seq<char>> {
    seq![
        "ssh"@,
        "-o"@,
        "StrictHostKeyChecking=accept-new"@,
        "-o"@,
        "ConnectTimeout=5"@,
        "-o"@,
        "BatchMode=yes"@,
        "-o"@,
        "PasswordAuthentication=no"@,
        "-p"@,
        decimal(port as nat),
        user + "@"@ + host,
        "exit 0"@,
    ]
}

fn push_text(v: &mut Vec<String>, s: &str)
    ensures
        texts(final(v)@) == texts(old(v)@).push(s@),
{
    let ghost before = texts(v@);
    v.push(String::from_str(s));
    assert(texts(v@) =~= before.push(s@));
}

fn push_auth_prefix(v: &mut Vec<String>, program: &str, password: Option<&str>)
    ensures
        texts(final(v)@) == texts(old(v)@) + auth_prefix(
            program@,
            match password {
                Some(p) => Some(p@),
                None => None,
            },
        ),
{
    let ghost before = texts(v@);
    match password {
        Some(p) => {
            push_text(v, "sshpass");
            push_text(v, "-p");
            push_text(v, p);
            push_text(v, program);
        },
        None => {
            push_text(v, program);
        },
    }
    assert(texts(v@) =~= before + auth_prefix(
        program@,
        match password {
            Some(p) => Some(p@),
            None => None,
        },
    ));
}

fn push_key_args(v: &mut Vec<String>, r: &RemoteTarget)
    ensures
        texts(final(v)@) == texts(old(v)@) + key_args(r@),
{
    let ghost before = texts(v@);
    match &r.ssh_key_path {
        Some(k) => {
            push_text(v, "-i");
            push_text(v, k.as_str());
        },
        None => {
        },
    }
    assert(texts(v@) =~= before + key_args(r@));
}

fn push_connect_options(v: &mut Vec<String>)
    ensures
        texts(final(v)@) == texts(old(v)@) + connect_options(),
{
    let ghost before = texts(v@);
    push_text(v, "-o");
    push_text(v, "StrictHostKeyChecking=accept-new");
    push_text(v, "-o");
    push_text(v, "ConnectTimeout=10");
    assert(texts(v@) =~= before + connect_options());
}

fn login(user: &String, host: &String) -> (s: String)
    ensures
        s@ == user@ + "@"@ + host@,
{
    let mut s = user.clone();
    s.append("@");
    s.append(host.as_str());
    s
}

fn remote_location(r: &RemoteTarget) -> (s: String)
    ensures
        s@ == spec_remote_location(r@),
{
    let mut s = login(&r.user, &r.host);
    s.append(":");
    s.append(r.path.as_str());
    s
}

/// The optional password as text.
pub open spec fn opt_str_view(p: Option<&str>) -> Option<Seq<char>> {
    match p {
        Some(x) => Some(x@),
        None => None,
    }
}

/// The SSH command line for the target (program first); the remote
/// command goes after it.
pub fn ssh_command(remote: &RemoteTarget, password: Option<&str>) -> (args: Vec<String>)
    ensures
        texts(args@) == spec_ssh_command(remote@, opt_str_view(password)),
{
    let mut v: Vec<String> = Vec::new();
    push_auth_prefix(&mut v, "ssh", password);
    push_key_args(&mut v, remote);
    push_connect_options(&mut v);
    push_text(&mut v, "-p");
    let port = decimal_string(remote.port as u64);
    push_text(&mut v, port.as_str());
    let l = login(&remote.user, &remote.host);
    push_text(&mut v, l.as_str());
    assert(texts(v@) =~= spec_ssh_command(remote@, opt_str_view(password)));
    v
}

/// The scp command line (program first) that uploads `local_path` to the
/// target.
pub fn upload_command(remote: &RemoteTarget, password: Option<&str>, local_path: &str) -> (args: Vec<String>)
    ensures
        texts(args@) == spec_upload_command(remote@, opt_str_view(password), local_path@),
{
    let mut v: Vec<String> = Vec::new();
    push_auth_prefix(&mut v, "scp", password);
    push_connect_options(&mut v);
    push_text(&mut v, "-P");
    let port = decimal_string(remote.port as u64);
    push_text(&mut v, port.as_str());
    push_key_args(&mut v, remote);
    push_text(&mut v, local_path);
    let loc = remote_location(remote);
    push_text(&mut v, loc.as_str());
    assert(texts(v@) =~= spec_upload_command(remote@, opt_str_view(password), local_path@));
    v
}

/// The scp command line (program first) that downloads the target to
/// `local_path`.
pub fn download_command(remote: &RemoteTarget, password: Option<&str>, local_path: &str) -> (args: Vec<String>)
    ensures
        texts(args@) == spec_download_command(remote@, opt_str_view(password), local_path@),
{
    let mut v: Vec<String> = Vec::new();
    push_auth_prefix(&mut v, "scp", password);
    push_key_args(&mut v, remote);
    push_connect_options(&mut v);
    push_text(&mut v, "-P");
    let port = decimal_string(remote.port as u64);
    push_text(&mut v, port.as_str());
    let loc = remote_location(remote);
    push_text(&mut v, loc.as_str());
    push_text(&mut v, local_path);
    assert(texts(v@) =~= spec_download_command(remote@, opt_str_view(password), local_path@));
    v
}

/// The command line (program first) that checks key-based login.
pub fn keypair_test_command(remote_user: &String, remote_host: &String, remote_port: u16) -> (args: Vec<String>)
    ensures
        texts(args@) == spec_keypair_test_command(remote_user@, remote_host@, remote_port),
{
    let mut v: Vec<String> = Vec::new();
    push_text(&mut v, "ssh");
    push_text(&mut v, "-o");
    push_text(&mut v, "StrictHostKeyChecking=accept-new");
    push_text(&mut v, "-o");
    push_text(&mut v, "ConnectTimeout=5");
    push_text(&mut v, "-o");
    push_text(&mut v, "BatchMode=yes");
    push_text(&mut v, "-o");
    push_text(&mut v, "PasswordAuthentication=no");
    push_text(&mut v, "-p");
    let port = decimal_string(remote_port as u64);
    push_text(&mut v, port.as_str());
    let l = login(remote_user, remote_host);
    push_text(&mut v, l.as_str());
    push_text(&mut v, "exit 0");
    assert(texts(v@) =~= spec_keypair_test_command(remote_user@, remote_host@, remote_port));
    v
}

/// The remote command that creates the target directory.
pub open spec fn spec_mkdir_command(r: RemoteTargetView) -> Seq<char> {
    "mkdir -p "@ + spec_shell_escape(r.path)
}

/// The remote command that lists the target's files, one
/// `path<TAB>size<TAB>mtime` line each, hidden files left out.
pub open spec fn spec_listing_command(r: RemoteTargetView) -> Seq<char> {
    "cd "@ + spec_shell_escape(r.path) + " && find . -type f ! -name '.*' -printf '%P\\t%s\\t%T@\\n'"@
}

/// The remote command that deletes `file` under the target directory.
pub open spec fn spec_remove_command(r: RemoteTargetView, file: Seq<char>) -> Seq<char> {
    "rm -f "@ + r.path + "/"@ + spec_shell_escape(file)
}

/// The remote command that creates the target directory.
pub fn mkdir_command(remote: &RemoteTarget) -> (c: String)
    ensures
        c@ == spec_mkdir_command(remote@),
{
    let mut c = String::from_str("mkdir -p ");
    let e = shell_escape(remote.path.as_str());
    c.append(e.as_str());
    c
}

/// The remote command that lists the target's files.
pub fn listing_command(remote: &RemoteTarget) -> (c: String)
    ensures
        c@ == spec_listing_command(remote@),
{
    let mut c = String::from_str("cd ");
    let e = shell_escape(remote.path.as_str());
    c.append(e.as_str());
    c.append(" && find . -type f ! -name '.*' -printf '%P\\t%s\\t%T@\\n'");
    c
}

/// The remote command that deletes `path` under the target directory.
pub fn remove_command(remote: &RemoteTarget, path: &str) -> (c: String)
    ensures
        c@ == spec_remove_command(remote@, path@),
{
    let mut c = String::from_str("rm -f ");
    c.append(remote.path.as_str());
    c.append("/");
    let e = shell_escape(path);
    c.append(e.as_str());
    c
}

/// What a failed listing means: a missing directory is an empty listing
/// (`None`); anything else is an error with this message.
pub open spec fn spec_listing_failure(stderr: Seq<char>) -> Option<Seq<char>> {
    if has_infix(stderr, "No such file or directory"@) {
        None
    } else {
        Some("❌ 扫描远程目录失败:\n"@ + stderr)
    }
}

/// What a failed listing means: `None` when the directory does not exist
/// (the listing is empty), else the error message.
pub fn listing_failure(stderr: &str) -> (r: Option<String>)
    ensures
        opt_view(r) == spec_listing_failure(stderr@),
{
    let s = chars_of(stderr);
    let pat = chars_of("No such file or directory");
    if contains_chars(s.as_slice(), pat.as_slice()) {
        None
    } else {
        let mut m = String::from_str("❌ 扫描远程目录失败:\n");
        m.append(stderr);
        Some(m)
    }
}

/// The explanation of a failed upload: known causes are named, anything
/// else is the tool's own error output.
pub open spec fn spec_upload_failure(stderr: Seq<char>, r: RemoteTargetView) -> Seq<char> {
    "❌ 上传失败: "@ + if has_infix(stderr, "Permission denied"@) {
        "权限不足，请检查远程目录权限或认证信息"@
    } else if has_infix(stderr, "Connection refused"@) {
        "连接被拒绝，请检查主机"@ + r.host + "和端口"@ + decimal(r.port as nat) + "是否可用"@
    } else if has_infix(stderr, "No such file or directory"@) {
        "远程目录不存在，请先创建目录"@
    } else {
        stderr
    }
}

fn text_contains(hay: &Vec<char>, needle: &str) -> (b: bool)
    ensures
        b == has_infix(hay@, needle@),
{
    let n = chars_of(needle);
    contains_chars(hay.as_slice(), n.as_slice())
}

/// The message of a failed upload.
pub fn upload_failure(stderr: &str, remote: &RemoteTarget) -> (m: String)
    ensures
        m@ == spec_upload_failure(stderr@, remote@),
{
    let s = chars_of(stderr);
    let mut m = String::from_str("❌ 上传失败: ");
    if text_contains(&s, "Permission denied") {
        m.append("权限不足，请检查远程目录权限或认证信息");
    } else if text_contains(&s, "Connection refused") {
        m.append("连接被拒绝，请检查主机");
        m.append(remote.host.as_str());
        m.append("和端口");
        let port = decimal_string(remote.port as u64);
        m.append(port.as_str());
        m.append("是否可用");
    } else if text_contains(&s, "No such file or directory") {
        m.append("远程目录不存在，请先创建目录");
    } else {
        m.append(stderr);
    }
    assert(m@ =~= spec_upload_failure(stderr@, remote@));
    m
}

/// The password to use: the one from the environment when set, else the
/// one given on the command line.
pub open spec fn spec_chosen_password(password: Option<Seq<char>>, env_password: Option<Seq<char>>) -> Option<
    Seq<char>,
> {
    match env_password {
        Some(p) => Some(p),
        None => password,
    }
}

/// The message for a target that is not a remote target.
pub open spec fn spec_invalid_target_message(target: Seq<char>) -> Seq<char> {
    "无效的远程目标格式: "@ + target
}

impl RemoteTarget {
    /// The password to use for this target: the environment's
    /// (`SYNCBOX_SSH_PASSWORD`, read by the caller) wins over the command
    /// line's. `None` means key-based login must be confirmed.
    pub fn handle_auth(&self, password: Option<String>, env_password: Option<String>) -> (r: Option<String>)
        ensures
            opt_view(r) == spec_chosen_password(opt_view(password), opt_view(env_password)),
    {
        match env_password {
            Some(p) => Some(p),
            None => password,
        }
    }

    /// Parses a remote target and picks its password; an error names the
    /// text when it is no remote target.
    pub fn resolve_and_auth(target: &str, password: Option<String>, env_password: Option<String>) -> (r: Result<
        (Self, Option<String>),
        String,
    >)
        ensures
            match r {
                Ok((remote, pw)) => {
                    &&& spec_parse_remote_target(target@) == Some(remote@)
                    &&& opt_view(pw) == spec_chosen_password(opt_view(password), opt_view(env_password))
                },
                Err(m) => {
                    &&& spec_parse_remote_target(target@) is None
                    &&& m@ == spec_invalid_target_message(target@)
                },
            },
    {
        match parse_remote_target(target) {
            Some(remote) => {
                let pw = remote.handle_auth(password, env_password);
                Ok((remote, pw))
            },
            None => {
                let mut m = String::from_str("无效的远程目标格式: ");
                m.append(target);
                Err(m)
            },
        }
    }
}

/// `c` is white space in Unicode's sense (what `char::is_whitespace` says).
pub open spec fn is_white(c: char) -> bool {
    ||| ('\u{9}' <= c && c <= '\u{d}')
    ||| c == ' '
    ||| c == '\u{85}'
    ||| c == '\u{a0}'
    ||| c == '\u{1680}'
    ||| ('\u{2000}' <= c && c <= '\u{200a}')
    ||| c == '\u{2028}'
    ||| c == '\u{2029}'
    ||| c == '\u{202f}'
    ||| c == '\u{205f}'
    ||| c == '\u{3000}'
}

/// `c` in lower case, for ASCII letters; other characters unchanged.
pub open spec fn ascii_lower(c: char) -> char {
    if 'A' <= c && c <= 'Z' {
        ((c as int) + 32) as char
    } else {
        c
    }
}

/// `s` without leading white space (what `str::trim_start` gives).
pub open spec fn trim_start(s: Seq<char>) -> Seq<char>
    decreases s.len(),
{
    if s.len() > 0 && is_white(s[0]) {
        trim_start(s.drop_first())
    } else {
        s
    }
}

/// `s` without trailing white space (what `str::trim_end` gives).
pub open spec fn trim_end(s: Seq<char>) -> Seq<char>
    decreases s.len(),
{
    if s.len() > 0 && is_white(s.last()) {
        trim_end(s.drop_last())
    } else {
        s
    }
}

/// The reply to "is key-based login set up?" is yes: trimmed of white
/// space and read without case it is `y` or `yes`.
pub open spec fn spec_is_yes(input: Seq<char>) -> bool {
    let w = trim_end(trim_start(input)).map_values(|c: char| ascii_lower(c));
    w == seq!['y'] || w == seq!['y', 'e', 's']
}

fn is_white_exec(c: char) -> (b: bool)
    ensures
        b == is_white(c),
{
    ('\u{9}' <= c && c <= '\u{d}') || c == ' ' || c == '\u{85}' || c == '\u{a0}' || c == '\u{1680}' || ('\u{2000}'
        <= c && c <= '\u{200a}') || c == '\u{2028}' || c == '\u{2029}' || c == '\u{202f}' || c == '\u{205f}' || c
        == '\u{3000}'
}

fn lower_is(c: char, l: char, u: char) -> (b: bool)
    requires
        'a' <= l <= 'z',
        u as int == l as int - 32,
    ensures
        b == (ascii_lower(c) == l),
{
    c == l || c == u
}

/// Whether the reply to the key-login question is yes (`y` or `yes`, any
/// case, surrounding white space ignored).
pub fn keypair_answer_is_yes(input: &str) -> (b: bool)
    ensures
        b == spec_is_yes(input@),
{
    let v = chars_of(input);
    let mut a: usize = 0;
    assert(v@.skip(0) =~= v@);
    while a < v.len() && is_white_exec(v[a])
        invariant
            a <= v@.len(),
            trim_start(v@) == trim_start(v@.skip(a as int)),
        decreases v.len() - a,
    {
        assert(v@.skip(a as int).drop_first() =~= v@.skip(a + 1));
        a = a + 1;
    }
    let ghost ts = v@.skip(a as int);
    assert(trim_start(v@) == ts);
    let mut b: usize = v.len();
    assert(ts =~= v@.subrange(a as int, b as int));
    while b > a && is_white_exec(v[b - 1])
        invariant
            a <= b <= v@.len(),
            ts == v@.skip(a as int),
            trim_end(ts) == trim_end(v@.subrange(a as int, b as int)),
        decreases b,
    {
        assert(v@.subrange(a as int, b as int).drop_last() =~= v@.subrange(a as int, b - 1));
        b = b - 1;
    }
    let ghost w = v@.subrange(a as int, b as int);
    assert(trim_end(ts) == w);
    let n = b - a;
    let r = (n == 1 && lower_is(v[a], 'y', 'Y')) || (n == 3 && lower_is(v[a], 'y', 'Y') && lower_is(
        v[a + 1],
        'e',
        'E',
    ) && lower_is(v[a + 2], 's', 'S'));
    let ghost lw = w.map_values(|c: char| ascii_lower(c));
    assert(v@ == input@);
    assert(lw.len() == n);
    assert(n >= 1 ==> lw[0] == ascii_lower(v@[a as int]));
    assert(n >= 3 ==> lw[1] == ascii_lower(v@[a + 1]) && lw[2] == ascii_lower(v@[a + 2]));
    assert(spec_is_yes(input@) == (lw == seq!['y'] || lw == seq!['y', 'e', 's']));
    if r {
        if n == 1 {
            assert(lw =~= seq!['y']);
        } else {
            assert(lw =~= seq!['y', 'e', 's']);
        }
    } else {
        proof {
            if lw == seq!['y'] {
                assert(lw[0] == 'y');
            }
            if lw == seq!['y', 'e', 's'] {
                assert(lw[0] == 'y' && lw[1] == 'e' && lw[2] == 's');
            }
        }
    }
    r
}

/// The hint given when password login needs `sshpass` and it is missing.
pub open spec fn sshpass_hint() -> Seq<char> {
    "需要安装 sshpass 以使用密码认证，请执行：\n- Ubuntu/Debian: sudo apt install sshpass\n- macOS: brew install sshpass\n- Windows: 通过 WSL 或 Cygwin 安装"@
}

/// Whether the tools for the chosen login are there: password login runs
/// through `sshpass`, so a password without `sshpass` installed is an error
/// with the installation hint; anything else is fine.
pub fn login_tools_check(password_given: bool, sshpass_installed: bool) -> (r: Result<(), String>)
    ensures
        r is Err <==> (password_given && !sshpass_installed),
        r matches Err(m) ==> m@ == sshpass_hint(),
{
    if password_given && !sshpass_installed {
        Err(
            String::from_str(
                "需要安装 sshpass 以使用密码认证，请执行：\n- Ubuntu/Debian: sudo apt install sshpass\n- macOS: brew install sshpass\n- Windows: 通过 WSL 或 Cygwin 安装",
            ),
        )
    } else {
        Ok(())
    }
}

/// The environment's password wins: when `SYNCBOX_SSH_PASSWORD` is set its
/// value is used, else the one given on the command line, if any.
pub proof fn lemma_environment_password_wins(password: Option<Seq<char>>, env_password: Option<Seq<char>>)
    ensures
        env_password matches Some(e) ==> spec_chosen_password(password, env_password) == Some(e),
        env_password is None ==> spec_chosen_password(password, env_password) == password,
{
}

} // verus!
