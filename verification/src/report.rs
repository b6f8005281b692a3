//! Reports: one entry per inspected target, with its status and a fixed
//! explanatory detail, and their plain-text rendering.
use vstd::prelude::*;
use crate::text::{chars_of, push_str, string_from_chars};

verus! {

/// What was found, or done, for one report target.
#[derive(Debug, Clone, Copy, PartialEq, Eq, Structural)]
pub enum EntryStatus {
    Absent,
    Present,
    WouldRemove,
    Removed,
    Configured,
    PreservedByDesign,
    Unavailable,
    Failed,
}

#[derive(Debug, Clone, PartialEq, Eq)]
pub struct ReportEntry {
    pub target: String,
    pub status: EntryStatus,
    pub detail: String,
}

#[derive(Debug, Clone, PartialEq, Eq)]
pub struct Report {
    pub operation: String,
    pub entries: Vec<ReportEntry>,
}

/// What an entry says, as plain values: target, status, detail.
pub type EntryView = (Seq<char>, EntryStatus, Seq<char>);

pub open spec fn entry_view(e: ReportEntry) -> EntryView {
    (e.target@, e.status, e.detail@)
}

pub open spec fn entry_views(es: Seq<ReportEntry>) -> Seq<EntryView> {
    es.map_values(|e: ReportEntry| entry_view(e))
}

/// An entry with the given target, status and detail.
pub fn make_entry(target: String, status: EntryStatus, detail: String) -> (e: ReportEntry)
    ensures
        entry_view(e) == (target@, status, detail@),
{
    ReportEntry { target, status, detail }
}

/// Appends an entry to a list of entries.
pub fn push_entry(es: &mut Vec<ReportEntry>, e: ReportEntry)
    ensures
        entry_views(final(es)@) == entry_views(old(es)@).push(entry_view(e)),
{
    es.push(e);
    assert(entry_views(es@) =~= entry_views(old(es)@).push(entry_view(e)));
}

/// The lower-case name of a status, as the text report shows it.
pub open spec fn status_label(s: EntryStatus) -> Seq<char> {
    match s {
        EntryStatus::Absent => "absent"@,
        EntryStatus::Present => "present"@,
        EntryStatus::WouldRemove => "wouldremove"@,
        EntryStatus::Removed => "removed"@,
        EntryStatus::Configured => "configured"@,
        EntryStatus::PreservedByDesign => "preservedbydesign"@,
        EntryStatus::Unavailable => "unavailable"@,
        EntryStatus::Failed => "failed"@,
    }
}

impl EntryStatus {
    /// The lower-case name of the status.
    pub fn label(&self) -> (s: &'static str)
        ensures
            s@ == status_label(*self),
    {
        match self {
            EntryStatus::Absent => "absent",
            EntryStatus::Present => "present",
            EntryStatus::WouldRemove => "wouldremove",
            EntryStatus::Removed => "removed",
            EntryStatus::Configured => "configured",
            EntryStatus::PreservedByDesign => "preservedbydesign",
            EntryStatus::Unavailable => "unavailable",
            EntryStatus::Failed => "failed",
        }
    }
}

/// The width of the right-aligned status column.
pub const STATUS_WIDTH: usize = 18;

/// `s` right-aligned in a field of `width` characters.
pub open spec fn pad_left(s: Seq<char>, width: nat) -> Seq<char> {
    if s.len() < width {
        Seq::new((width - s.len()) as nat, |i: int| ' ') + s
    } else {
        s
    }
}

/// One rendered entry: the status right-aligned in 18 columns, then the
/// target and the detail, separated by two spaces.
pub open spec fn entry_text(e: ReportEntry) -> Seq<char> {
    pad_left(status_label(e.status), STATUS_WIDTH as nat) + "  "@ + e.target@ + "  "@ + e.detail@
}

/// The text report: the operation on the first line, then one line per entry.
pub open spec fn report_text(operation: Seq<char>, entries: Seq<ReportEntry>) -> Seq<char>
    decreases entries.len(),
{
    if entries.len() == 0 {
        "operation: "@ + operation
    } else {
        report_text(operation, entries.drop_last()) + seq!['\n'] + entry_text(entries.last())
    }
}

fn push_entry_text(out: &mut Vec<char>, e: &ReportEntry)
    ensures
        final(out)@ == old(out)@ + entry_text(*e),
{
    let label = e.status.label();
    let n = chars_of(label).len();
    let ghost start = out@;
    let mut k = n;
    while k < STATUS_WIDTH
        invariant
            n == status_label(e.status).len(),
            n <= k <= STATUS_WIDTH || (n > STATUS_WIDTH && k == n),
            out@ == start + Seq::new((k - n) as nat, |i: int| ' '),
        decreases STATUS_WIDTH - k,
    {
        out.push(' ');
        k = k + 1;
        assert(out@ =~= start + Seq::new((k - n) as nat, |i: int| ' '));
    }
    push_str(out, label);
    proof {
        if n >= STATUS_WIDTH {
            assert(out@ =~= start + status_label(e.status));
        }
        assert(out@ =~= start + pad_left(status_label(e.status), STATUS_WIDTH as nat));
    }
    push_str(out, "  ");
    push_str(out, e.target.as_str());
    push_str(out, "  ");
    push_str(out, e.detail.as_str());
    assert(out@ =~= start + entry_text(*e));
}

impl Report {
    /// The report as text: `operation: <op>`, then for each entry a line
    /// with its status right-aligned in 18 columns, its target and its detail.
    pub fn render_text(&self) -> (text: String)
        ensures
            text@ == report_text(self.operation@, self.entries@),
    {
        let mut out: Vec<char> = Vec::new();
        push_str(&mut out, "operation: ");
        push_str(&mut out, self.operation.as_str());
        assert(out@ =~= report_text(self.operation@, self.entries@.take(0)));
        let mut i: usize = 0;
        while i < self.entries.len()
            invariant
                i <= self.entries.len(),
                out@ == report_text(self.operation@, self.entries@.take(i as int)),
            decreases self.entries.len() - i,
        {
            out.push('\n');
            push_entry_text(&mut out, &self.entries[i]);
            assert(self.entries@.take(i + 1).drop_last() =~= self.entries@.take(i as int));
            i = i + 1;
        }
        assert(self.entries@.take(i as int) =~= self.entries@);
        string_from_chars(&out)
    }
}

/// The label that a report prints for a status is the status's name in
/// lower case (as `{:?}` and `to_lowercase` give it), so different statuses
/// are never printed alike; in particular a failure reads `failed`.
pub proof fn law_status_labels_are_names(a: EntryStatus, b: EntryStatus)
    ensures
        status_label(EntryStatus::Absent) == "absent"@,
        status_label(EntryStatus::Present) == "present"@,
        status_label(EntryStatus::WouldRemove) == "wouldremove"@,
        status_label(EntryStatus::Removed) == "removed"@,
        status_label(EntryStatus::Configured) == "configured"@,
        status_label(EntryStatus::PreservedByDesign) == "preservedbydesign"@,
        status_label(EntryStatus::Unavailable) == "unavailable"@,
        status_label(EntryStatus::Failed) == "failed"@,
        status_label(a) == status_label(b) ==> a == b,
{
    reveal_strlit("absent");
    reveal_strlit("present");
    reveal_strlit("wouldremove");
    reveal_strlit("removed");
    reveal_strlit("configured");
    reveal_strlit("preservedbydesign");
    reveal_strlit("unavailable");
    reveal_strlit("failed");
    if status_label(a) == status_label(b) && a != b {
        let la = status_label(a);
        let lb = status_label(b);
        assert(la.len() == lb.len());
        assert(la[0] == lb[0]);
        assert(la[1] == lb[1]);
        assert(la[2] == lb[2]);
    }
}

/// The text of a report: `operation: <operation>` on the first line, then
/// one line per entry, in order: the status label right-aligned in 18
/// columns (every label fits), two spaces, the target, two spaces and the
/// detail.
pub proof fn law_report_text_lines(operation: Seq<char>, entries: Seq<ReportEntry>, e: ReportEntry)
    ensures
        report_text(operation, Seq::<ReportEntry>::empty()) == "operation: "@ + operation,
        status_label(e.status).len() <= 18,
        report_text(operation, entries.push(e)) == report_text(operation, entries) + seq!['\n']
            + Seq::new((18 - status_label(e.status).len()) as nat, |i: int| ' ') + status_label(
            e.status,
        ) + "  "@ + e.target@ + "  "@ + e.detail@,
{
    law_status_labels_are_names(e.status, e.status);
    reveal_strlit("absent");
    reveal_strlit("present");
    reveal_strlit("wouldremove");
    reveal_strlit("removed");
    reveal_strlit("configured");
    reveal_strlit("preservedbydesign");
    reveal_strlit("unavailable");
    reveal_strlit("failed");
    assert(entries.push(e).drop_last() =~= entries);
    let l = status_label(e.status);
    assert(l.len() < 18);
    assert(report_text(operation, entries.push(e)) =~= report_text(operation, entries) + seq!['\n']
        + Seq::new((18 - l.len()) as nat, |i: int| ' ') + l + "  "@ + e.target@ + "  "@ + e.detail@);
}

} // verus!
