//! The rendering of a single bug with its comments and history.
use vstd::prelude::*;
use crate::model::{Bug, Comment, HistoryChange, HistoryEntry, OutputFormat};
use crate::render::{
    bug_link, bug_links, concat, flags_text, format_flags, lemma_concat_all, lemma_concat_step,
    line, status_colon, status_paren, Rendering,
};
use crate::text::{
    before_at, date_short, decimal, decimals, escape_pipes, format_assignee_short,
    format_date_short, join, push_decimal, push_escaped, push_joined, push_joined_ids, views,
};

verus! {

/// `text` when `cond` holds, else nothing.
pub open spec fn when(cond: bool, text: Seq<char>) -> Seq<char> {
    if cond {
        text
    } else {
        seq![]
    }
}

// ---------------------------------------------------------------------------
// Compact form
// ---------------------------------------------------------------------------

/// `label` and `value` on a line of their own, when `value` is not empty.
#[verifier::opaque]
pub open spec fn labelled(label: Seq<char>, value: Seq<char>) -> Seq<char> {
    when(value.len() > 0, line(label + value))
}

/// `label` and the items separated by `, ` on a line, when there are items.
#[verifier::opaque]
pub open spec fn labelled_list(label: Seq<char>, items: Seq<Seq<char>>) -> Seq<char> {
    when(items.len() > 0, line(label + join(items, ", "@)))
}

/// The title line of the compact form.
#[verifier::opaque]
pub open spec fn compact_title(b: Bug) -> Seq<char> {
    line("Bug "@ + decimal(b.id as nat) + " - "@ + b.summary@)
}

/// The status line of the compact form.
#[verifier::opaque]
pub open spec fn compact_status(b: Bug) -> Seq<char> {
    line(
        "Status: "@ + status_colon(b) + " | Severity: "@ + b.severity@ + " | Priority: "@
            + b.priority@,
    )
}

/// The product line of the compact form.
#[verifier::opaque]
pub open spec fn compact_product(b: Bug) -> Seq<char> {
    line("Product: "@ + b.product@ + " :: "@ + b.component@)
}

/// The type and assignee line of the compact form.
#[verifier::opaque]
pub open spec fn compact_type(b: Bug) -> Seq<char> {
    line("Type: "@ + b.bug_type@ + " | Assignee: "@ + before_at(b.assigned_to@))
}

/// The dates line of the compact form.
#[verifier::opaque]
pub open spec fn compact_dates(b: Bug) -> Seq<char> {
    line(
        "Created: "@ + date_short(b.creation_time@) + " | Changed: "@ + date_short(
            b.last_change_time@,
        ),
    )
}

/// The five lines that every bug has in the compact form.
pub open spec fn compact_head(b: Bug) -> Seq<char> {
    compact_title(b) + compact_status(b) + compact_product(b) + compact_type(b) + compact_dates(
        b,
    )
}

/// The flags line of the compact form, when there are flags.
#[verifier::opaque]
pub open spec fn compact_flags(b: Bug) -> Seq<char> {
    when(b.flags@.len() > 0, line("Flags: "@ + flags_text(b.flags@)))
}

/// The optional lines of the compact form, each present when its field is
/// not empty.
pub open spec fn compact_fields(b: Bug) -> Seq<char> {
    labelled_list("Keywords: "@, views(b.keywords@)) + labelled("Whiteboard: "@, b.whiteboard@)
        + labelled("Crash signature: "@, b.cf_crash_signature@) + labelled(
        "Webcompat priority: "@,
        b.cf_webcompat_priority@,
    ) + labelled("URL: "@, b.url@) + compact_flags(b)
}

/// The line naming the bug this one duplicates, when there is one.
#[verifier::opaque]
pub open spec fn compact_dupe_of(b: Bug) -> Seq<char> {
    match b.dupe_of {
        Some(d) => line("Duplicate of: "@ + decimal(d as nat)),
        None => seq![],
    }
}

/// The optional lines about related bugs in the compact form.
pub open spec fn compact_links(b: Bug) -> Seq<char> {
    labelled_list("Depends on: "@, decimals(b.depends_on@)) + labelled_list(
        "Blocks: "@,
        decimals(b.blocks@),
    ) + labelled_list("See also: "@, views(b.see_also@)) + compact_dupe_of(b) + labelled_list(
        "Duplicates: "@,
        decimals(b.duplicates@),
    )
}

/// A comment in the compact form.
pub open spec fn compact_comment(c: Comment) -> Seq<char> {
    line(
        "\n[Comment #"@ + decimal(c.count as nat) + "] "@ + before_at(c.creator@) + " ("@
            + date_short(c.creation_time@) + ")"@,
    ) + line(c.text@)
}

/// The comments section of the compact form, present when the bug carries
/// its comments.
pub open spec fn compact_comments(b: Bug) -> Seq<char> {
    match b.comments {
        Some(cs) => line("\n--- COMMENTS ("@ + decimal(cs@.len()) + ") ---"@) + concat(
            cs@.map_values(|c: Comment| compact_comment(c)),
        ),
        None => seq![],
    }
}

/// A field change in the compact form: `+added`, `-removed`, or
/// `removed -> added`.
pub open spec fn compact_change(ch: HistoryChange) -> Seq<char> {
    if ch.removed@.len() == 0 {
        line("  "@ + ch.field_name@ + ": +"@ + ch.added@)
    } else if ch.added@.len() == 0 {
        line("  "@ + ch.field_name@ + ": -"@ + ch.removed@)
    } else {
        line("  "@ + ch.field_name@ + ": "@ + ch.removed@ + " -> "@ + ch.added@)
    }
}

/// A history entry in the compact form: when and who, then its changes.
pub open spec fn compact_entry(e: HistoryEntry) -> Seq<char> {
    line("\n"@ + date_short(e.when@) + " - "@ + before_at(e.who@)) + concat(
        e.changes@.map_values(|ch: HistoryChange| compact_change(ch)),
    )
}

/// The history section of the compact form, present when there is history.
pub open spec fn compact_history(history: Seq<HistoryEntry>) -> Seq<char> {
    when(
        history.len() > 0,
        line("\n--- HISTORY ("@ + decimal(history.len()) + " entries) ---"@) + concat(
            history.map_values(|e: HistoryEntry| compact_entry(e)),
        ),
    )
}

/// A bug in the compact form.
pub open spec fn detail_compact(b: Bug, history: Seq<HistoryEntry>) -> Seq<char> {
    compact_head(b) + compact_fields(b) + compact_links(b) + compact_comments(b)
        + compact_history(history)
}

fn push_compact_title(out: &mut String, b: &Bug)
    ensures
        final(out)@ == old(out)@ + compact_title(*b),
{
    let ghost start = out@;
    out.append("Bug ");
    push_decimal(out, b.id);
    out.append(" - ");
    out.append(b.summary.as_str());
    out.append("\n");
    proof {
        reveal(compact_title);
    }
    assert(out@ =~= start + compact_title(*b));
}

fn push_compact_status(out: &mut String, b: &Bug)
    ensures
        final(out)@ == old(out)@ + compact_status(*b),
{
    let ghost start = out@;
    out.append("Status: ");
    crate::render::push_status_colon(out, b);
    out.append(" | Severity: ");
    out.append(b.severity.as_str());
    out.append(" | Priority: ");
    out.append(b.priority.as_str());
    out.append("\n");
    proof {
        reveal(compact_status);
    }
    assert(out@ =~= start + compact_status(*b));
}

fn push_compact_product(out: &mut String, b: &Bug)
    ensures
        final(out)@ == old(out)@ + compact_product(*b),
{
    let ghost start = out@;
    out.append("Product: ");
    out.append(b.product.as_str());
    out.append(" :: ");
    out.append(b.component.as_str());
    out.append("\n");
    proof {
        reveal(compact_product);
    }
    assert(out@ =~= start + compact_product(*b));
}

fn push_compact_type(out: &mut String, b: &Bug)
    ensures
        final(out)@ == old(out)@ + compact_type(*b),
{
    let ghost start = out@;
    out.append("Type: ");
    out.append(b.bug_type.as_str());
    out.append(" | Assignee: ");
    out.append(format_assignee_short(b.assigned_to.as_str()));
    out.append("\n");
    proof {
        reveal(compact_type);
    }
    assert(out@ =~= start + compact_type(*b));
}

fn push_compact_dates(out: &mut String, b: &Bug)
    ensures
        final(out)@ == old(out)@ + compact_dates(*b),
{
    let ghost start = out@;
    out.append("Created: ");
    out.append(format_date_short(b.creation_time.as_str()));
    out.append(" | Changed: ");
    out.append(format_date_short(b.last_change_time.as_str()));
    out.append("\n");
    proof {
        reveal(compact_dates);
    }
    assert(out@ =~= start + compact_dates(*b));
}

fn push_compact_head(out: &mut String, b: &Bug)
    ensures
        final(out)@ == old(out)@ + compact_head(*b),
{
    let ghost start = out@;
    push_compact_title(out, b);
    push_compact_status(out, b);
    push_compact_product(out, b);
    push_compact_type(out, b);
    push_compact_dates(out, b);
    assert(out@ =~= start + compact_head(*b));
}

/// Appends `label`, `value` and a newline when `value` is not empty.
fn push_labelled(out: &mut String, label: &str, value: &String)
    ensures
        final(out)@ == old(out)@ + labelled(label@, value@),
{
    let ghost start = out@;
    proof {
        reveal(labelled);
    }
    if !value.as_str().is_empty() {
        out.append(label);
        out.append(value.as_str());
        out.append("\n");
        assert(out@ =~= start + line(label@ + value@));
    } else {
        assert(out@ =~= start + Seq::<char>::empty());
    }
}

/// Appends `label`, the strings separated by `, `, and a newline, when there
/// are strings.
fn push_labelled_strings(out: &mut String, label: &str, items: &Vec<String>)
    ensures
        final(out)@ == old(out)@ + labelled_list(label@, views(items@)),
{
    let ghost start = out@;
    proof {
        reveal(labelled_list);
    }
    if items.len() > 0 {
        out.append(label);
        push_joined(out, items, ", ");
        out.append("\n");
        assert(out@ =~= start + line(label@ + join(views(items@), ", "@)));
    } else {
        assert(out@ =~= start + Seq::<char>::empty());
    }
}

/// Appends `label`, the decimal ids separated by `, `, and a newline, when
/// there are ids.
fn push_labelled_ids(out: &mut String, label: &str, ids: &Vec<u64>)
    ensures
        final(out)@ == old(out)@ + labelled_list(label@, decimals(ids@)),
{
    let ghost start = out@;
    proof {
        reveal(labelled_list);
    }
    if ids.len() > 0 {
        out.append(label);
        push_joined_ids(out, ids, ", ");
        out.append("\n");
        assert(out@ =~= start + line(label@ + join(decimals(ids@), ", "@)));
    } else {
        assert(out@ =~= start + Seq::<char>::empty());
    }
}

fn push_compact_flags(out: &mut String, b: &Bug)
    ensures
        final(out)@ == old(out)@ + compact_flags(*b),
{
    let ghost start = out@;
    proof {
        reveal(compact_flags);
    }
    if b.flags.len() > 0 {
        out.append("Flags: ");
        out.append(format_flags(b.flags.as_slice()).as_str());
        out.append("\n");
    }
    assert(out@ =~= start + compact_flags(*b));
}

fn push_compact_fields(out: &mut String, b: &Bug)
    ensures
        final(out)@ == old(out)@ + compact_fields(*b),
{
    let ghost start = out@;
    push_labelled_strings(out, "Keywords: ", &b.keywords);
    push_labelled(out, "Whiteboard: ", &b.whiteboard);
    push_labelled(out, "Crash signature: ", &b.cf_crash_signature);
    push_labelled(out, "Webcompat priority: ", &b.cf_webcompat_priority);
    push_labelled(out, "URL: ", &b.url);
    push_compact_flags(out, b);
    assert(out@ =~= start + compact_fields(*b));
}

fn push_compact_dupe_of(out: &mut String, b: &Bug)
    ensures
        final(out)@ == old(out)@ + compact_dupe_of(*b),
{
    let ghost start = out@;
    proof {
        reveal(compact_dupe_of);
    }
    match b.dupe_of {
        Some(d) => {
            out.append("Duplicate of: ");
            push_decimal(out, d);
            out.append("\n");
        },
        None => {},
    }
    assert(out@ =~= start + compact_dupe_of(*b));
}

fn push_compact_links(out: &mut String, b: &Bug)
    ensures
        final(out)@ == old(out)@ + compact_links(*b),
{
    let ghost start = out@;
    push_labelled_ids(out, "Depends on: ", &b.depends_on);
    push_labelled_ids(out, "Blocks: ", &b.blocks);
    push_labelled_strings(out, "See also: ", &b.see_also);
    push_compact_dupe_of(out, b);
    push_labelled_ids(out, "Duplicates: ", &b.duplicates);
    assert(out@ =~= start + compact_links(*b));
}

fn push_compact_comment(out: &mut String, c: &Comment)
    ensures
        final(out)@ == old(out)@ + compact_comment(*c),
{
    let ghost start = out@;
    out.append("\n[Comment #");
    push_decimal(out, c.count);
    out.append("] ");
    out.append(format_assignee_short(c.creator.as_str()));
    out.append(" (");
    out.append(format_date_short(c.creation_time.as_str()));
    out.append(")");
    out.append("\n");
    out.append(c.text.as_str());
    out.append("\n");
    assert(out@ =~= start + compact_comment(*c));
}

fn push_compact_comments(out: &mut String, b: &Bug)
    ensures
        final(out)@ == old(out)@ + compact_comments(*b),
{
    let ghost start = out@;
    match &b.comments {
        Some(cs) => {
            out.append("\n--- COMMENTS (");
            push_decimal(out, cs.len() as u64);
            out.append(") ---");
            out.append("\n");
            let ghost head = out@;
            let ghost parts = cs@.map_values(|c: Comment| compact_comment(c));
            let n = cs.len();
            for i in 0..n
                invariant
                    n == cs@.len(),
                    parts == cs@.map_values(|c: Comment| compact_comment(c)),
                    out@ == head + concat(parts.take(i as int)),
            {
                proof {
                    lemma_concat_step(parts, i as int);
                }
                push_compact_comment(out, &cs[i]);
                assert(out@ =~= head + concat(parts.take(i + 1)));
            }
            proof {
                lemma_concat_all(parts);
            }
            assert(out@ =~= start + compact_comments(*b));
        },
        None => {
            assert(out@ =~= start + compact_comments(*b));
        },
    }
}

fn push_compact_change(out: &mut String, ch: &HistoryChange)
    ensures
        final(out)@ == old(out)@ + compact_change(*ch),
{
    let ghost start = out@;
    out.append("  ");
    out.append(ch.field_name.as_str());
    if ch.removed.as_str().is_empty() {
        out.append(": +");
        out.append(ch.added.as_str());
    } else if ch.added.as_str().is_empty() {
        out.append(": -");
        out.append(ch.removed.as_str());
    } else {
        out.append(": ");
        out.append(ch.removed.as_str());
        out.append(" -> ");
        out.append(ch.added.as_str());
    }
    out.append("\n");
    assert(out@ =~= start + compact_change(*ch));
}

fn push_compact_entry(out: &mut String, e: &HistoryEntry)
    ensures
        final(out)@ == old(out)@ + compact_entry(*e),
{
    let ghost start = out@;
    out.append("\n");
    out.append(format_date_short(e.when.as_str()));
    out.append(" - ");
    out.append(format_assignee_short(e.who.as_str()));
    out.append("\n");
    let ghost head = out@;
    assert(head =~= start + line("\n"@ + date_short(e.when@) + " - "@ + before_at(e.who@)));
    let ghost parts = e.changes@.map_values(|ch: HistoryChange| compact_change(ch));
    let n = e.changes.len();
    for i in 0..n
        invariant
            n == e.changes@.len(),
            parts == e.changes@.map_values(|ch: HistoryChange| compact_change(ch)),
            out@ == head + concat(parts.take(i as int)),
    {
        proof {
            lemma_concat_step(parts, i as int);
        }
        push_compact_change(out, &e.changes[i]);
        assert(out@ =~= head + concat(parts.take(i + 1)));
    }
    proof {
        lemma_concat_all(parts);
    }
    assert(out@ =~= start + compact_entry(*e));
}

fn push_compact_history(out: &mut String, history: &[HistoryEntry])
    ensures
        final(out)@ == old(out)@ + compact_history(history@),
{
    let ghost start = out@;
    if history.len() > 0 {
        out.append("\n--- HISTORY (");
        push_decimal(out, history.len() as u64);
        out.append(" entries) ---");
        out.append("\n");
        let ghost head = out@;
        let ghost parts = history@.map_values(|e: HistoryEntry| compact_entry(e));
        let n = history.len();
        for i in 0..n
            invariant
                n == history@.len(),
                parts == history@.map_values(|e: HistoryEntry| compact_entry(e)),
                out@ == head + concat(parts.take(i as int)),
        {
            proof {
                lemma_concat_step(parts, i as int);
            }
            push_compact_entry(out, &history[i]);
            assert(out@ =~= head + concat(parts.take(i + 1)));
        }
        proof {
            lemma_concat_all(parts);
        }
    }
    assert(out@ =~= start + compact_history(history@));
}

/// A bug with its fields, comments and history, in the compact form.
pub fn format_bug_detail_compact(b: &Bug, history: &[HistoryEntry]) -> (s: String)
    ensures
        s@ == detail_compact(*b, history@),
{
    let mut out = String::new();
    push_compact_head(&mut out, b);
    push_compact_fields(&mut out, b);
    push_compact_links(&mut out, b);
    push_compact_comments(&mut out, b);
    push_compact_history(&mut out, history);
    assert(out@ =~= detail_compact(*b, history@));
    out
}

// ---------------------------------------------------------------------------
// Markdown form
// ---------------------------------------------------------------------------

/// A row of the field table.
#[verifier::opaque]
pub open spec fn row(label: Seq<char>, value: Seq<char>) -> Seq<char> {
    line("| "@ + label + " | "@ + value + " |"@)
}

/// A row of the field table, when `value` is not empty.
#[verifier::opaque]
pub open spec fn field_row(label: Seq<char>, value: Seq<char>) -> Seq<char> {
    when(value.len() > 0, row(label, value))
}

/// A row listing the items separated by `, `, when there are items.
#[verifier::opaque]
pub open spec fn list_row(label: Seq<char>, items: Seq<Seq<char>>) -> Seq<char> {
    when(items.len() > 0, row(label, join(items, ", "@)))
}

/// The title of the markdown form, followed by a blank line.
#[verifier::opaque]
pub open spec fn markdown_title(b: Bug) -> Seq<char> {
    line("# Bug "@ + decimal(b.id as nat) + " - "@ + b.summary@ + "\n"@)
}

/// The title and the rows that every bug has in the markdown form.
pub open spec fn markdown_head(b: Bug) -> Seq<char> {
    markdown_title(b) + "| Field | Value |\n"@ + "|-------|-------|\n"@ + row(
        "Status"@,
        status_paren(b),
    ) + row("Severity"@, b.severity@) + row("Priority"@, b.priority@) + row(
        "Product"@,
        b.product@ + " :: "@ + b.component@,
    ) + row("Type"@, b.bug_type@) + row("Assignee"@, before_at(b.assigned_to@)) + row(
        "Created"@,
        date_short(b.creation_time@),
    ) + row("Changed"@, date_short(b.last_change_time@))
}

/// The whiteboard row, its pipes escaped, when there is a whiteboard.
#[verifier::opaque]
pub open spec fn markdown_whiteboard(b: Bug) -> Seq<char> {
    when(b.whiteboard@.len() > 0, row("Whiteboard"@, escape_pipes(b.whiteboard@)))
}

/// The crash signature row, as code, when there is a crash signature.
#[verifier::opaque]
pub open spec fn markdown_crash(b: Bug) -> Seq<char> {
    when(
        b.cf_crash_signature@.len() > 0,
        row("Crash signature"@, "`"@ + b.cf_crash_signature@ + "`"@),
    )
}

/// The flags row, when there are flags.
#[verifier::opaque]
pub open spec fn markdown_flags(b: Bug) -> Seq<char> {
    when(b.flags@.len() > 0, row("Flags"@, flags_text(b.flags@)))
}

/// The optional rows of the markdown form, each present when its field is
/// not empty.
pub open spec fn markdown_fields(b: Bug) -> Seq<char> {
    list_row("Keywords"@, views(b.keywords@)) + markdown_whiteboard(b) + markdown_crash(b)
        + field_row("Webcompat priority"@, b.cf_webcompat_priority@) + field_row("URL"@, b.url@)
        + markdown_flags(b)
}

/// The row naming the bug this one duplicates, when there is one.
#[verifier::opaque]
pub open spec fn markdown_dupe_of(b: Bug) -> Seq<char> {
    match b.dupe_of {
        Some(d) => row("Duplicate of"@, bug_link(d)),
        None => seq![],
    }
}

/// The optional rows about related bugs in the markdown form, as links.
pub open spec fn markdown_links(b: Bug) -> Seq<char> {
    list_row("Depends on"@, bug_links(b.depends_on@)) + list_row(
        "Blocks"@,
        bug_links(b.blocks@),
    ) + list_row("See also"@, views(b.see_also@)) + markdown_dupe_of(b) + list_row(
        "Duplicates"@,
        bug_links(b.duplicates@),
    )
}

/// A comment in the markdown form.
pub open spec fn markdown_comment(c: Comment) -> Seq<char> {
    line(
        "### Comment #"@ + decimal(c.count as nat) + " - "@ + before_at(c.creator@) + " ("@
            + date_short(c.creation_time@) + ")\n"@,
    ) + line(c.text@ + "\n"@)
}

/// The comments section of the markdown form, present when the bug carries
/// its comments.
pub open spec fn markdown_comments(b: Bug) -> Seq<char> {
    match b.comments {
        Some(cs) => line("\n## Comments ("@ + decimal(cs@.len()) + ")\n"@) + concat(
            cs@.map_values(|c: Comment| markdown_comment(c)),
        ),
        None => seq![],
    }
}

/// A row of the history table: one field change of an entry.
pub open spec fn markdown_change(e: HistoryEntry, ch: HistoryChange) -> Seq<char> {
    line(
        "| "@ + date_short(e.when@) + " | "@ + before_at(e.who@) + " | "@ + ch.field_name@
            + " | "@ + escape_pipes(ch.removed@) + " | "@ + escape_pipes(ch.added@) + " |"@,
    )
}

/// The rows of a history entry: one per field change.
pub open spec fn markdown_entry(e: HistoryEntry) -> Seq<char> {
    concat(e.changes@.map_values(|ch: HistoryChange| markdown_change(e, ch)))
}

/// The history section of the markdown form, present when there is history.
pub open spec fn markdown_history(history: Seq<HistoryEntry>) -> Seq<char> {
    when(
        history.len() > 0,
        line("\n## History ("@ + decimal(history.len()) + " entries)\n"@)
            + "| Date | Who | Field | Removed | Added |\n"@
            + "|------|-----|-------|---------|-------|\n"@ + concat(
            history.map_values(|e: HistoryEntry| markdown_entry(e)),
        ),
    )
}

/// A bug in the markdown form.
pub open spec fn detail_markdown(b: Bug, history: Seq<HistoryEntry>) -> Seq<char> {
    markdown_head(b) + markdown_fields(b) + markdown_links(b) + markdown_comments(b)
        + markdown_history(history)
}

/// Appends the row `| label | value |`.
fn push_row(out: &mut String, label: &str, value: &str)
    ensures
        final(out)@ == old(out)@ + row(label@, value@),
{
    let ghost start = out@;
    out.append("| ");
    out.append(label);
    out.append(" | ");
    out.append(value);
    out.append(" |");
    out.append("\n");
    proof {
        reveal(row);
    }
    assert(out@ =~= start + row(label@, value@));
}

/// Appends the row `| label | value |` for a value already in `value`.
fn push_row_string(out: &mut String, label: &str, value: String)
    ensures
        final(out)@ == old(out)@ + row(label@, value@),
{
    push_row(out, label, value.as_str());
}

fn push_markdown_title(out: &mut String, b: &Bug)
    ensures
        final(out)@ == old(out)@ + markdown_title(*b),
{
    let ghost start = out@;
    out.append("# Bug ");
    push_decimal(out, b.id);
    out.append(" - ");
    out.append(b.summary.as_str());
    out.append("\n");
    out.append("\n");
    proof {
        reveal(markdown_title);
    }
    assert(out@ =~= start + markdown_title(*b));
}

fn status_paren_string(b: &Bug) -> (s: String)
    ensures
        s@ == status_paren(*b),
{
    let mut s = String::new();
    crate::render::push_status_paren(&mut s, b);
    assert(s@ =~= status_paren(*b));
    s
}

fn product_string(b: &Bug) -> (s: String)
    ensures
        s@ == b.product@ + " :: "@ + b.component@,
{
    let mut s = String::new();
    s.append(b.product.as_str());
    s.append(" :: ");
    s.append(b.component.as_str());
    assert(s@ =~= b.product@ + " :: "@ + b.component@);
    s
}

fn push_markdown_head(out: &mut String, b: &Bug)
    ensures
        final(out)@ == old(out)@ + markdown_head(*b),
{
    let ghost start = out@;
    push_markdown_title(out, b);
    out.append("| Field | Value |\n");
    out.append("|-------|-------|\n");
    push_row_string(out, "Status", status_paren_string(b));
    push_row(out, "Severity", b.severity.as_str());
    push_row(out, "Priority", b.priority.as_str());
    push_row_string(out, "Product", product_string(b));
    push_row(out, "Type", b.bug_type.as_str());
    push_row(out, "Assignee", format_assignee_short(b.assigned_to.as_str()));
    push_row(out, "Created", format_date_short(b.creation_time.as_str()));
    push_row(out, "Changed", format_date_short(b.last_change_time.as_str()));
    assert(out@ =~= start + markdown_head(*b));
}

/// Appends the row `| label | value |` when `value` is not empty.
fn push_field_row(out: &mut String, label: &str, value: &String)
    ensures
        final(out)@ == old(out)@ + field_row(label@, value@),
{
    let ghost start = out@;
    proof {
        reveal(field_row);
    }
    if !value.as_str().is_empty() {
        push_row(out, label, value.as_str());
    } else {
        assert(out@ =~= start + Seq::<char>::empty());
    }
}

/// Appends a row of the strings separated by `, ` when there are any.
fn push_strings_row(out: &mut String, label: &str, items: &Vec<String>)
    ensures
        final(out)@ == old(out)@ + list_row(label@, views(items@)),
{
    let ghost start = out@;
    proof {
        reveal(list_row);
    }
    if items.len() > 0 {
        let mut value = String::new();
        push_joined(&mut value, items, ", ");
        assert(value@ =~= join(views(items@), ", "@));
        push_row(out, label, value.as_str());
    } else {
        assert(out@ =~= start + Seq::<char>::empty());
    }
}

/// Appends a row of links to the bugs when there are any.
fn push_links_row(out: &mut String, label: &str, ids: &Vec<u64>)
    ensures
        final(out)@ == old(out)@ + list_row(label@, bug_links(ids@)),
{
    let ghost start = out@;
    proof {
        reveal(list_row);
    }
    if ids.len() > 0 {
        let mut value = String::new();
        crate::render::push_bug_links(&mut value, ids);
        assert(value@ =~= join(bug_links(ids@), ", "@));
        push_row(out, label, value.as_str());
    } else {
        assert(out@ =~= start + Seq::<char>::empty());
    }
}

fn push_markdown_whiteboard(out: &mut String, b: &Bug)
    ensures
        final(out)@ == old(out)@ + markdown_whiteboard(*b),
{
    let ghost start = out@;
    proof {
        reveal(markdown_whiteboard);
    }
    if !b.whiteboard.as_str().is_empty() {
        let mut value = String::new();
        push_escaped(&mut value, b.whiteboard.as_str());
        assert(value@ =~= escape_pipes(b.whiteboard@));
        push_row(out, "Whiteboard", value.as_str());
    } else {
        assert(out@ =~= start + Seq::<char>::empty());
    }
}

fn push_markdown_crash(out: &mut String, b: &Bug)
    ensures
        final(out)@ == old(out)@ + markdown_crash(*b),
{
    let ghost start = out@;
    proof {
        reveal(markdown_crash);
    }
    if !b.cf_crash_signature.as_str().is_empty() {
        let mut value = String::new();
        value.append("`");
        value.append(b.cf_crash_signature.as_str());
        value.append("`");
        assert(value@ =~= "`"@ + b.cf_crash_signature@ + "`"@);
        push_row(out, "Crash signature", value.as_str());
    } else {
        assert(out@ =~= start + Seq::<char>::empty());
    }
}

fn push_markdown_flags(out: &mut String, b: &Bug)
    ensures
        final(out)@ == old(out)@ + markdown_flags(*b),
{
    let ghost start = out@;
    proof {
        reveal(markdown_flags);
    }
    if b.flags.len() > 0 {
        push_row_string(out, "Flags", format_flags(b.flags.as_slice()));
    } else {
        assert(out@ =~= start + Seq::<char>::empty());
    }
}

fn push_markdown_fields(out: &mut String, b: &Bug)
    ensures
        final(out)@ == old(out)@ + markdown_fields(*b),
{
    let ghost start = out@;
    push_strings_row(out, "Keywords", &b.keywords);
    push_markdown_whiteboard(out, b);
    push_markdown_crash(out, b);
    push_field_row(out, "Webcompat priority", &b.cf_webcompat_priority);
    push_field_row(out, "URL", &b.url);
    push_markdown_flags(out, b);
    assert(out@ =~= start + markdown_fields(*b));
}

fn push_markdown_dupe_of(out: &mut String, b: &Bug)
    ensures
        final(out)@ == old(out)@ + markdown_dupe_of(*b),
{
    let ghost start = out@;
    proof {
        reveal(markdown_dupe_of);
    }
    match b.dupe_of {
        Some(d) => {
            let mut value = String::new();
            crate::render::push_bug_link(&mut value, d);
            assert(value@ =~= bug_link(d));
            push_row(out, "Duplicate of", value.as_str());
        },
        None => {
            assert(out@ =~= start + Seq::<char>::empty());
        },
    }
}

fn push_markdown_links(out: &mut String, b: &Bug)
    ensures
        final(out)@ == old(out)@ + markdown_links(*b),
{
    let ghost start = out@;
    push_links_row(out, "Depends on", &b.depends_on);
    push_links_row(out, "Blocks", &b.blocks);
    push_strings_row(out, "See also", &b.see_also);
    push_markdown_dupe_of(out, b);
    push_links_row(out, "Duplicates", &b.duplicates);
    assert(out@ =~= start + markdown_links(*b));
}

fn push_markdown_comment(out: &mut String, c: &Comment)
    ensures
        final(out)@ == old(out)@ + markdown_comment(*c),
{
    let ghost start = out@;
    out.append("### Comment #");
    push_decimal(out, c.count);
    out.append(" - ");
    out.append(format_assignee_short(c.creator.as_str()));
    out.append(" (");
    out.append(format_date_short(c.creation_time.as_str()));
    out.append(")\n");
    out.append("\n");
    out.append(c.text.as_str());
    out.append("\n");
    out.append("\n");
    assert(out@ =~= start + markdown_comment(*c));
}

fn push_markdown_comments(out: &mut String, b: &Bug)
    ensures
        final(out)@ == old(out)@ + markdown_comments(*b),
{
    let ghost start = out@;
    match &b.comments {
        Some(cs) => {
            out.append("\n## Comments (");
            push_decimal(out, cs.len() as u64);
            out.append(")\n");
            out.append("\n");
            let ghost head = out@;
            let ghost parts = cs@.map_values(|c: Comment| markdown_comment(c));
            let n = cs.len();
            for i in 0..n
                invariant
                    n == cs@.len(),
                    parts == cs@.map_values(|c: Comment| markdown_comment(c)),
                    out@ == head + concat(parts.take(i as int)),
            {
                proof {
                    lemma_concat_step(parts, i as int);
                }
                push_markdown_comment(out, &cs[i]);
                assert(out@ =~= head + concat(parts.take(i + 1)));
            }
            proof {
                lemma_concat_all(parts);
            }
            assert(out@ =~= start + markdown_comments(*b));
        },
        None => {
            assert(out@ =~= start + markdown_comments(*b));
        },
    }
}

fn push_markdown_change(out: &mut String, e: &HistoryEntry, ch: &HistoryChange)
    ensures
        final(out)@ == old(out)@ + markdown_change(*e, *ch),
{
    let ghost start = out@;
    out.append("| ");
    out.append(format_date_short(e.when.as_str()));
    out.append(" | ");
    out.append(format_assignee_short(e.who.as_str()));
    out.append(" | ");
    out.append(ch.field_name.as_str());
    out.append(" | ");
    push_escaped(out, ch.removed.as_str());
    out.append(" | ");
    push_escaped(out, ch.added.as_str());
    out.append(" |");
    out.append("\n");
    assert(out@ =~= start + markdown_change(*e, *ch));
}

fn push_markdown_entry(out: &mut String, e: &HistoryEntry)
    ensures
        final(out)@ == old(out)@ + markdown_entry(*e),
{
    let ghost start = out@;
    let ghost parts = e.changes@.map_values(|ch: HistoryChange| markdown_change(*e, ch));
    let n = e.changes.len();
    for i in 0..n
        invariant
            n == e.changes@.len(),
            parts == e.changes@.map_values(|ch: HistoryChange| markdown_change(*e, ch)),
            out@ == start + concat(parts.take(i as int)),
    {
        proof {
            lemma_concat_step(parts, i as int);
        }
        push_markdown_change(out, e, &e.changes[i]);
        assert(out@ =~= start + concat(parts.take(i + 1)));
    }
    proof {
        lemma_concat_all(parts);
    }
}

fn push_markdown_history(out: &mut String, history: &[HistoryEntry])
    ensures
        final(out)@ == old(out)@ + markdown_history(history@),
{
    let ghost start = out@;
    if history.len() > 0 {
        out.append("\n## History (");
        push_decimal(out, history.len() as u64);
        out.append(" entries)\n");
        out.append("\n");
        out.append("| Date | Who | Field | Removed | Added |\n");
        out.append("|------|-----|-------|---------|-------|\n");
        let ghost head = out@;
        let ghost parts = history@.map_values(|e: HistoryEntry| markdown_entry(e));
        let n = history.len();
        for i in 0..n
            invariant
                n == history@.len(),
                parts == history@.map_values(|e: HistoryEntry| markdown_entry(e)),
                out@ == head + concat(parts.take(i as int)),
        {
            proof {
                lemma_concat_step(parts, i as int);
            }
            push_markdown_entry(out, &history[i]);
            assert(out@ =~= head + concat(parts.take(i + 1)));
        }
        proof {
            lemma_concat_all(parts);
        }
    }
    assert(out@ =~= start + markdown_history(history@));
}

/// A bug with its fields, comments and history, in the markdown form.
pub fn format_bug_detail_markdown(b: &Bug, history: &[HistoryEntry]) -> (s: String)
    ensures
        s@ == detail_markdown(*b, history@),
{
    let mut out = String::new();
    push_markdown_head(&mut out, b);
    push_markdown_fields(&mut out, b);
    push_markdown_links(&mut out, b);
    push_markdown_comments(&mut out, b);
    push_markdown_history(&mut out, history);
    assert(out@ =~= detail_markdown(*b, history@));
    out
}

} // verus!

verus! {

/// A bug in the chosen format. As JSON, the history is added to the bug's
/// object only when there is history.
pub fn format_bug_detail(b: &Bug, history: &[HistoryEntry], format: &OutputFormat) -> (r:
    Rendering)
    ensures
        match *format {
            OutputFormat::Compact => r matches Rendering::Text(t) && t@ == detail_compact(
                *b,
                history@,
            ),
            OutputFormat::Markdown => r matches Rendering::Text(t) && t@ == detail_markdown(
                *b,
                history@,
            ),
            OutputFormat::Json => if history@.len() == 0 {
                r is Json
            } else {
                r is JsonWithHistory
            },
        },
{
    match format {
        OutputFormat::Compact => Rendering::Text(format_bug_detail_compact(b, history)),
        OutputFormat::Json => {
            if history.len() == 0 {
                Rendering::Json
            } else {
                Rendering::JsonWithHistory
            }
        },
        OutputFormat::Markdown => Rendering::Text(format_bug_detail_markdown(b, history)),
    }
}

} // verus!
