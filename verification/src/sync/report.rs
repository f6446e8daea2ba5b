//! The outcome of a sync run.

use vstd::prelude::*;
use crate::utils::format::{format_file_size, push_count, spec_format_count, spec_format_file_size};
use crate::text::{has_infix, has_suffix, occurs_at};

verus! {

/// What a sync run did.
pub struct SyncReport {
    /// Files copied (dry run: files that would be copied).
    pub copied: Vec<String>,
    /// Files that could not be copied, with the error.
    pub errors: Vec<(String, String)>,
    /// Files deleted from the target.
    pub deleted: Vec<String>,
    /// Files to be deleted in a dry run; in a real run, the files deleted.
    pub would_delete: Vec<String>,
    /// Files that could not be deleted, with the error.
    pub delete_errors: Vec<(String, String)>,
}

/// The texts of a list of strings.
pub open spec fn texts(v: Seq<String>) -> Seq<Seq<char>> {
    v.map_values(|s: String| s@)
}

/// The texts of a list of (path, message) pairs.
pub open spec fn pair_texts(v: Seq<(String, String)>) -> Seq<(Seq<char>, Seq<char>)> {
    v.map_values(|p: (String, String)| (p.0@, p.1@))
}

impl SyncReport {
    /// A report in which nothing happened.
    pub open spec fn is_empty_report(&self) -> bool {
        &&& self.copied@.len() == 0
        &&& self.errors@.len() == 0
        &&& self.deleted@.len() == 0
        &&& self.would_delete@.len() == 0
        &&& self.delete_errors@.len() == 0
    }

    /// A report in which nothing happened.
    pub fn new() -> (r: Self)
        ensures
            r.is_empty_report(),
    {
        SyncReport {
            copied: Vec::new(),
            errors: Vec::new(),
            deleted: Vec::new(),
            would_delete: Vec::new(),
            delete_errors: Vec::new(),
        }
    }
}

impl Default for SyncReport {
    fn default() -> (r: Self)
        ensures
            r.is_empty_report(),
    {
        SyncReport::new()
    }
}

/// One line `  - path` per path.
pub open spec fn path_lines(ps: Seq<Seq<char>>) -> Seq<char>
    decreases ps.len(),
{
    if ps.len() == 0 {
        Seq::empty()
    } else {
        path_lines(ps.drop_last()) + "  - "@ + ps.last() + "\n"@
    }
}

/// One line `  - path: message` per pair.
pub open spec fn error_lines(es: Seq<(Seq<char>, Seq<char>)>) -> Seq<char>
    decreases es.len(),
{
    if es.len() == 0 {
        Seq::empty()
    } else {
        error_lines(es.drop_last()) + "  - "@ + es.last().0 + ": "@ + es.last().1 + "\n"@
    }
}

/// The word that marks pending work in a dry run.
pub open spec fn pending(dry_run: bool) -> Seq<char> {
    if dry_run {
        "待"@
    } else {
        Seq::empty()
    }
}

/// The first line: the mode, the number of source files, the number of
/// files synced (or to sync) and their total size.
pub open spec fn report_header(report: SyncReport, dry_run: bool, total_source_files: nat, total_sync_size: nat) -> Seq<char> {
    (if dry_run { "试运行模式"@ } else { "同步成功！"@ }) + "\n源文件总数："@ + spec_format_count(total_source_files)
        + "，"@ + pending(dry_run) + "同步文件数: "@ + spec_format_count(report.copied@.len())
        + " ("@ + spec_format_file_size(total_sync_size) + ")\n"@
}

/// The copy section: the files synced, when details are asked for; the
/// error count (outside a dry run) and the error details.
pub open spec fn report_copy_section(report: SyncReport, dry_run: bool, detail: bool) -> Seq<char> {
    let copied = texts(report.copied@);
    let errors = pair_texts(report.errors@);
    (if detail && copied.len() > 0 {
        pending(dry_run) + "同步的文件：\n"@ + path_lines(copied)
    } else {
        Seq::empty()
    }) + (if !dry_run && errors.len() > 0 {
        "同步错误数: "@ + spec_format_count(errors.len()) + "\n"@
    } else {
        Seq::empty()
    }) + (if detail && errors.len() > 0 {
        "同步错误详情：\n"@ + error_lines(errors)
    } else {
        Seq::empty()
    })
}

/// The deletion part of a dry run: the files that would be deleted.
pub open spec fn report_dry_deletions(report: SyncReport, detail: bool) -> Seq<char> {
    let would = texts(report.would_delete@);
    if would.len() > 0 {
        "待删除文件数: "@ + spec_format_count(would.len()) + "\n"@ + (if detail {
            "待删除的文件：\n"@ + path_lines(would)
        } else {
            Seq::empty()
        })
    } else {
        Seq::empty()
    }
}

/// The deletion errors of a real run.
pub open spec fn report_delete_errors(report: SyncReport, detail: bool) -> Seq<char> {
    let derrs = pair_texts(report.delete_errors@);
    if derrs.len() > 0 {
        "删除错误数: "@ + spec_format_count(derrs.len()) + "\n"@ + (if detail {
            "删除错误详情：\n"@ + error_lines(derrs)
        } else {
            Seq::empty()
        })
    } else {
        Seq::empty()
    }
}

/// The deletion part of a real run: the files deleted and the failures.
pub open spec fn report_real_deletions(report: SyncReport, detail: bool) -> Seq<char> {
    let deleted = texts(report.deleted@);
    if deleted.len() > 0 || report.delete_errors@.len() > 0 {
        "已删除文件数: "@ + spec_format_count(deleted.len()) + "\n"@ + (if detail && deleted.len() > 0 {
            "已删除的文件：\n"@ + path_lines(deleted)
        } else {
            Seq::empty()
        }) + report_delete_errors(report, detail)
    } else {
        Seq::empty()
    }
}

/// The deletion section, shown only when deletion is on and something was
/// (or would be) deleted or failed to be.
pub open spec fn report_delete_section(report: SyncReport, dry_run: bool, delete_extra: bool, detail: bool) -> Seq<char> {
    if !delete_extra {
        Seq::empty()
    } else if dry_run {
        report_dry_deletions(report, detail)
    } else {
        report_real_deletions(report, detail)
    }
}

/// The whole report text.
pub open spec fn spec_report_text(
    report: SyncReport,
    dry_run: bool,
    delete_extra: bool,
    total_source_files: nat,
    total_sync_size: nat,
    detail: bool,
) -> Seq<char> {
    report_header(report, dry_run, total_source_files, total_sync_size) + report_copy_section(
        report,
        dry_run,
        detail,
    ) + report_delete_section(report, dry_run, delete_extra, detail)
}

fn push_path_lines(s: &mut String, ps: &Vec<String>)
    ensures
        final(s)@ == old(s)@ + path_lines(texts(ps@)),
{
    let ghost start = s@;
    let mut i: usize = 0;
    while i < ps.len()
        invariant
            i <= ps@.len(),
            s@ == start + path_lines(texts(ps@.take(i as int))),
        decreases ps.len() - i,
    {
        let ghost before = s@;
        s.append("  - ");
        s.append(ps[i].as_str());
        s.append("\n");
        i = i + 1;
        let ghost t = texts(ps@.take(i as int));
        assert(t.drop_last() =~= texts(ps@.take(i - 1)));
        assert(t.last() == ps@[i - 1]@);
        assert(s@ =~= start + path_lines(t));
    }
    assert(ps@.take(ps.len() as int) =~= ps@);
}

pub(crate) fn push_error_lines(s: &mut String, es: &Vec<(String, String)>)
    ensures
        final(s)@ == old(s)@ + error_lines(pair_texts(es@)),
{
    let ghost start = s@;
    let mut i: usize = 0;
    while i < es.len()
        invariant
            i <= es@.len(),
            s@ == start + error_lines(pair_texts(es@.take(i as int))),
        decreases es.len() - i,
    {
        s.append("  - ");
        s.append(es[i].0.as_str());
        s.append(": ");
        s.append(es[i].1.as_str());
        s.append("\n");
        i = i + 1;
        let ghost t = pair_texts(es@.take(i as int));
        assert(t.drop_last() =~= pair_texts(es@.take(i - 1)));
        assert(t.last() == (es@[i - 1].0@, es@[i - 1].1@));
        assert(s@ =~= start + error_lines(t));
    }
    assert(es@.take(es.len() as int) =~= es@);
}

fn push_count_line(s: &mut String, label: &str, n: usize)
    ensures
        final(s)@ == old(s)@ + label@ + spec_format_count(n as nat) + "\n"@,
{
    let ghost start = s@;
    s.append(label);
    push_count(s, n as u64);
    s.append("\n");
    assert(s@ =~= start + label@ + spec_format_count(n as nat) + "\n"@);
}

fn push_header(s: &mut String, report: &SyncReport, dry_run: bool, total_source_files: usize, total_sync_size: u64)
    ensures
        final(s)@ == old(s)@ + report_header(*report, dry_run, total_source_files as nat, total_sync_size as nat),
{
    let ghost start = s@;
    if dry_run {
        s.append("试运行模式");
    } else {
        s.append("同步成功！");
    }
    s.append("\n源文件总数：");
    push_count(s, total_source_files as u64);
    s.append("，");
    if dry_run {
        s.append("待");
    }
    s.append("同步文件数: ");
    push_count(s, report.copied.len() as u64);
    s.append(" (");
    let size = format_file_size(total_sync_size);
    s.append(size.as_str());
    s.append(")\n");
    assert(s@ =~= start + report_header(*report, dry_run, total_source_files as nat, total_sync_size as nat));
}

fn push_copy_section(s: &mut String, report: &SyncReport, dry_run: bool, detail: bool)
    ensures
        final(s)@ == old(s)@ + report_copy_section(*report, dry_run, detail),
{
    let ghost start = s@;
    if detail && report.copied.len() > 0 {
        if dry_run {
            s.append("待");
        }
        s.append("同步的文件：\n");
        push_path_lines(s, &report.copied);
    }
    let ghost a = s@;
    if !dry_run && report.errors.len() > 0 {
        push_count_line(s, "同步错误数: ", report.errors.len());
    }
    let ghost b = s@;
    if detail && report.errors.len() > 0 {
        s.append("同步错误详情：\n");
        push_error_lines(s, &report.errors);
    }
    assert(s@ =~= start + report_copy_section(*report, dry_run, detail));
}

fn push_dry_deletions(s: &mut String, report: &SyncReport, detail: bool)
    ensures
        final(s)@ == old(s)@ + report_dry_deletions(*report, detail),
{
    let ghost start = s@;
    if report.would_delete.len() > 0 {
        push_count_line(s, "待删除文件数: ", report.would_delete.len());
        if detail {
            s.append("待删除的文件：\n");
            push_path_lines(s, &report.would_delete);
        }
    }
    assert(s@ =~= start + report_dry_deletions(*report, detail));
}

fn push_delete_errors(s: &mut String, report: &SyncReport, detail: bool)
    ensures
        final(s)@ == old(s)@ + report_delete_errors(*report, detail),
{
    let ghost start = s@;
    if report.delete_errors.len() > 0 {
        push_count_line(s, "删除错误数: ", report.delete_errors.len());
        if detail {
            s.append("删除错误详情：\n");
            push_error_lines(s, &report.delete_errors);
        }
    }
    assert(s@ =~= start + report_delete_errors(*report, detail));
}

fn push_real_deletions(s: &mut String, report: &SyncReport, detail: bool)
    ensures
        final(s)@ == old(s)@ + report_real_deletions(*report, detail),
{
    let ghost start = s@;
    if report.deleted.len() > 0 || report.delete_errors.len() > 0 {
        push_count_line(s, "已删除文件数: ", report.deleted.len());
        if detail && report.deleted.len() > 0 {
            s.append("已删除的文件：\n");
            push_path_lines(s, &report.deleted);
        }
        push_delete_errors(s, report, detail);
    }
    assert(s@ =~= start + report_real_deletions(*report, detail));
}

fn push_delete_section(s: &mut String, report: &SyncReport, dry_run: bool, delete_extra: bool, detail: bool)
    ensures
        final(s)@ == old(s)@ + report_delete_section(*report, dry_run, delete_extra, detail),
{
    let ghost start = s@;
    if !delete_extra {
    } else if dry_run {
        push_dry_deletions(s, report, detail);
    } else {
        push_real_deletions(s, report, detail);
    }
    assert(s@ =~= start + report_delete_section(*report, dry_run, delete_extra, detail));
}

/// The text of a run's report; `None` when the run found nothing to sync
/// (`is_latest`), which is announced on its own.
pub fn report_text(
    is_latest: bool,
    report: &SyncReport,
    dry_run: bool,
    delete_extra: bool,
    total_source_files: usize,
    total_sync_size: u64,
    detail: bool,
) -> (r: Option<String>)
    ensures
        is_latest <==> r is None,
        r matches Some(t) ==> t@ == spec_report_text(
            *report,
            dry_run,
            delete_extra,
            total_source_files as nat,
            total_sync_size as nat,
            detail,
        ),
{
    if is_latest {
        return None;
    }
    let mut s = String::new();
    push_header(&mut s, report, dry_run, total_source_files, total_sync_size);
    push_copy_section(&mut s, report, dry_run, detail);
    push_delete_section(&mut s, report, dry_run, delete_extra, detail);
    assert(s@ =~= spec_report_text(
        *report,
        dry_run,
        delete_extra,
        total_source_files as nat,
        total_sync_size as nat,
        detail,
    ));
    Some(s)
}

/// The line that lists one path.
pub open spec fn path_line(p: Seq<char>) -> Seq<char> {
    "  - "@ + p + "\n"@
}

proof fn lemma_infix_within(a: Seq<char>, b: Seq<char>, c: Seq<char>, p: Seq<char>)
    requires
        has_infix(b, p),
    ensures
        has_infix(a + b + c, p),
{
    let i = choose|i: int| occurs_at(b, p, i);
    let s = a + b + c;
    assert(s.subrange(a.len() + i, a.len() + i + p.len()) =~= b.subrange(i, i + p.len()));
    assert(occurs_at(s, p, a.len() + i));
}

proof fn lemma_path_lines_list_each(ps: Seq<Seq<char>>)
    ensures
        forall|k: int| 0 <= k < ps.len() ==> has_infix(path_lines(ps), path_line(#[trigger] ps[k])),
    decreases ps.len(),
{
    if ps.len() > 0 {
        let init = ps.drop_last();
        lemma_path_lines_list_each(init);
        let head = path_lines(init);
        let line = "  - "@ + ps.last() + "\n"@;
        assert(path_lines(ps) == head + line);
        assert forall|k: int| 0 <= k < ps.len() implies has_infix(path_lines(ps), path_line(#[trigger] ps[k])) by {
            if k < ps.len() - 1 {
                assert(init[k] == ps[k]);
                lemma_infix_within(Seq::empty(), head, line, path_line(ps[k]));
                assert(Seq::<char>::empty() + head + line =~= path_lines(ps));
            } else {
                assert(path_line(ps[k]) =~= line);
                let whole = path_lines(ps);
                assert(whole.subrange(head.len() as int, head.len() as int + line.len()) =~= line);
                assert(occurs_at(whole, path_line(ps[k]), head.len() as int));
            }
        }
    }
}

/// A dry run with deletion on and details lists, at the end of its report,
/// exactly the files that would be deleted, one `  - path` line each, in
/// order.
pub proof fn lemma_dry_run_report_lists_would_delete(
    report: SyncReport,
    delete_extra: bool,
    total_source_files: nat,
    total_sync_size: nat,
)
    requires
        delete_extra,
        report.would_delete@.len() > 0,
    ensures
        has_suffix(
            spec_report_text(report, true, delete_extra, total_source_files, total_sync_size, true),
            "待删除的文件：\n"@ + path_lines(texts(report.would_delete@)),
        ),
{
    let tail = "待删除的文件：\n"@ + path_lines(texts(report.would_delete@));
    let text = spec_report_text(report, true, delete_extra, total_source_files, total_sync_size, true);
    let front = report_header(report, true, total_source_files, total_sync_size) + report_copy_section(
        report,
        true,
        true,
    ) + ("待删除文件数: "@ + spec_format_count(report.would_delete@.len()) + "\n"@);
    assert(text =~= front + tail);
    assert(text.subrange(text.len() - tail.len(), text.len() as int) =~= tail);
}

/// With details on, every file the report counts is listed by name: each
/// copied file; with deletion on, in a dry run each file that would be
/// deleted, and in a real run each deleted file.
pub proof fn lemma_detailed_report_names_every_file(
    report: SyncReport,
    dry_run: bool,
    delete_extra: bool,
    total_source_files: nat,
    total_sync_size: nat,
)
    ensures
        ({
            let text = spec_report_text(report, dry_run, delete_extra, total_source_files, total_sync_size, true);
            &&& forall|k: int|
                0 <= k < report.copied@.len() ==> has_infix(text, path_line((#[trigger] report.copied@[k])@))
            &&& delete_extra && dry_run ==> forall|k: int|
                0 <= k < report.would_delete@.len() ==> has_infix(text, path_line((#[trigger] report.would_delete@[k])@))
            &&& delete_extra && !dry_run ==> forall|k: int|
                0 <= k < report.deleted@.len() ==> has_infix(text, path_line((#[trigger] report.deleted@[k])@))
        }),
{
    let header = report_header(report, dry_run, total_source_files, total_sync_size);
    let copy = report_copy_section(report, dry_run, true);
    let del = report_delete_section(report, dry_run, delete_extra, true);
    let text = spec_report_text(report, dry_run, delete_extra, total_source_files, total_sync_size, true);
    assert(text == header + copy + del);
    let copied = texts(report.copied@);
    lemma_path_lines_list_each(copied);
    assert forall|k: int| 0 <= k < report.copied@.len() implies has_infix(text, path_line((#[trigger] report.copied@[k])@)) by {
        assert(copied[k] == report.copied@[k]@);
        let rest = copy.subrange(
            (pending(dry_run) + "同步的文件：\n"@ + path_lines(copied)).len() as int,
            copy.len() as int,
        );
        assert(copy =~= (pending(dry_run) + "同步的文件：\n"@) + path_lines(copied) + rest);
        lemma_infix_within(pending(dry_run) + "同步的文件：\n"@, path_lines(copied), rest, path_line(copied[k]));
        lemma_infix_within(header, copy, del, path_line(copied[k]));
    }
    if delete_extra && dry_run {
        let would = texts(report.would_delete@);
        lemma_path_lines_list_each(would);
        assert forall|k: int| 0 <= k < report.would_delete@.len() implies has_infix(
            text,
            path_line((#[trigger] report.would_delete@[k])@),
        ) by {
            assert(would[k] == report.would_delete@[k]@);
            let pre = "待删除文件数: "@ + spec_format_count(would.len()) + "\n"@ + "待删除的文件：\n"@;
            assert(del =~= pre + path_lines(would) + Seq::<char>::empty());
            lemma_infix_within(pre, path_lines(would), Seq::empty(), path_line(would[k]));
            lemma_infix_within(header + copy, del, Seq::empty(), path_line(would[k]));
            assert(header + copy + del + Seq::<char>::empty() =~= text);
        }
    }
    if delete_extra && !dry_run {
        let deleted = texts(report.deleted@);
        lemma_path_lines_list_each(deleted);
        assert forall|k: int| 0 <= k < report.deleted@.len() implies has_infix(
            text,
            path_line((#[trigger] report.deleted@[k])@),
        ) by {
            assert(deleted[k] == report.deleted@[k]@);
            let pre = "已删除文件数: "@ + spec_format_count(deleted.len()) + "\n"@ + "已删除的文件：\n"@;
            let post = report_delete_errors(report, true);
            assert(del =~= pre + path_lines(deleted) + post);
            lemma_infix_within(pre, path_lines(deleted), post, path_line(deleted[k]));
            lemma_infix_within(header + copy, del, Seq::empty(), path_line(deleted[k]));
            assert(header + copy + del + Seq::<char>::empty() =~= text);
        }
    }
}

} // verus!
