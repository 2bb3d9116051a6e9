//! The text renderings of bug lists and single bugs: a compact, pipe
//! separated form meant for tools, and a markdown form meant for people.
use vstd::prelude::*;
use crate::model::{Bug, Flag, OutputFormat};
use crate::text::{
    date_short, decimal, escape_pipes, format_date_short, join, lemma_join_step, push_decimal,
    push_escaped,
};

verus! {

// ---------------------------------------------------------------------------
// Shared pieces
// ---------------------------------------------------------------------------

/// The parts, one after the other.
pub open spec fn concat(parts: Seq<Seq<char>>) -> Seq<char>
    decreases parts.len(),
{
    if parts.len() == 0 {
        seq![]
    } else {
        concat(parts.drop_last()) + parts.last()
    }
}

/// One step of `concat` over a growing prefix.
pub proof fn lemma_concat_step(parts: Seq<Seq<char>>, i: int)
    requires
        0 <= i < parts.len(),
    ensures
        concat(parts.take(i + 1)) == concat(parts.take(i)) + parts[i],
{
    assert(parts.take(i + 1).drop_last() =~= parts.take(i));
}

/// `concat` over the whole of a sequence, from its prefixes.
pub proof fn lemma_concat_all(parts: Seq<Seq<char>>)
    ensures
        concat(parts.take(parts.len() as int)) == concat(parts),
{
    assert(parts.take(parts.len() as int) =~= parts);
}

/// A line: the text and a newline.
pub open spec fn line(s: Seq<char>) -> Seq<char> {
    s + "\n"@
}

/// The status, with the resolution after a colon when there is one.
pub open spec fn status_colon(b: Bug) -> Seq<char> {
    if b.resolution@.len() == 0 {
        b.status@
    } else {
        b.status@ + ":"@ + b.resolution@
    }
}

/// The status, with the resolution in parentheses when there is one.
pub open spec fn status_paren(b: Bug) -> Seq<char> {
    if b.resolution@.len() == 0 {
        b.status@
    } else {
        b.status@ + " ("@ + b.resolution@ + ")"@
    }
}

/// A markdown link to bug `d` on bugzilla.mozilla.org.
pub open spec fn bug_link(d: u64) -> Seq<char> {
    "["@ + decimal(d as nat) + "](https://bugzilla.mozilla.org/show_bug.cgi?id="@ + decimal(
        d as nat,
    ) + ")"@
}

/// Links to the bugs.
pub open spec fn bug_links(ids: Seq<u64>) -> Seq<Seq<char>> {
    ids.map_values(|d: u64| bug_link(d))
}

/// A flag as Bugzilla writes it: `name`, `status`, and `(requestee)` when
/// there is one.
pub open spec fn flag_text(f: Flag) -> Seq<char> {
    f.name@ + f.status@ + match f.requestee {
        Some(r) => "("@ + r@ + ")"@,
        None => seq![],
    }
}

/// The flags, separated by `, `.
pub open spec fn flags_text(flags: Seq<Flag>) -> Seq<char> {
    join(flags.map_values(|f: Flag| flag_text(f)), ", "@)
}

pub(crate) fn push_status_colon(out: &mut String, b: &Bug)
    ensures
        final(out)@ == old(out)@ + status_colon(*b),
{
    out.append(b.status.as_str());
    if !b.resolution.as_str().is_empty() {
        out.append(":");
        out.append(b.resolution.as_str());
    }
}

pub(crate) fn push_status_paren(out: &mut String, b: &Bug)
    ensures
        final(out)@ == old(out)@ + status_paren(*b),
{
    out.append(b.status.as_str());
    if !b.resolution.as_str().is_empty() {
        out.append(" (");
        out.append(b.resolution.as_str());
        out.append(")");
    }
}

pub(crate) fn push_bug_link(out: &mut String, d: u64)
    ensures
        final(out)@ == old(out)@ + bug_link(d),
{
    out.append("[");
    push_decimal(out, d);
    out.append("](https://bugzilla.mozilla.org/show_bug.cgi?id=");
    push_decimal(out, d);
    out.append(")");
}

pub(crate) fn push_bug_links(out: &mut String, ids: &Vec<u64>)
    ensures
        final(out)@ == old(out)@ + join(bug_links(ids@), ", "@),
{
    let ghost start = out@;
    let ghost all = bug_links(ids@);
    let n = ids.len();
    for i in 0..n
        invariant
            n == ids.len(),
            all == bug_links(ids@),
            out@ == start + join(all.take(i as int), ", "@),
    {
        proof {
            lemma_join_step(all, ", "@, i as int);
        }
        if i > 0 {
            out.append(", ");
        }
        push_bug_link(out, ids[i]);
    }
    assert(all.take(n as int) =~= all);
}

fn push_flag(out: &mut String, f: &Flag)
    ensures
        final(out)@ == old(out)@ + flag_text(*f),
{
    out.append(f.name.as_str());
    out.append(f.status.as_str());
    match &f.requestee {
        Some(r) => {
            out.append("(");
            out.append(r.as_str());
            out.append(")");
        },
        None => {},
    }
}

fn push_flags(out: &mut String, flags: &[Flag])
    ensures
        final(out)@ == old(out)@ + flags_text(flags@),
{
    let ghost start = out@;
    let ghost all = flags@.map_values(|f: Flag| flag_text(f));
    let n = flags.len();
    for i in 0..n
        invariant
            n == flags@.len(),
            all == flags@.map_values(|f: Flag| flag_text(f)),
            out@ == start + join(all.take(i as int), ", "@),
    {
        proof {
            lemma_join_step(all, ", "@, i as int);
        }
        if i > 0 {
            out.append(", ");
        }
        push_flag(out, &flags[i]);
    }
    assert(all.take(n as int) =~= all);
}

/// The flags as one line of text: `name` `status` `(requestee)`, separated
/// by `, `.
pub fn format_flags(flags: &[Flag]) -> (s: String)
    ensures
        s@ == flags_text(flags@),
{
    let mut s = String::new();
    push_flags(&mut s, flags);
    assert(s@ =~= flags_text(flags@));
    s
}

// ---------------------------------------------------------------------------
// Bug lists
// ---------------------------------------------------------------------------

/// One bug in the compact list: `id|severity|status|product::component|summary|changed`.
pub open spec fn compact_row(b: Bug) -> Seq<char> {
    line(
        decimal(b.id as nat) + "|"@ + b.severity@ + "|"@ + status_colon(b) + "|"@ + b.product@
            + "::"@ + b.component@ + "|"@ + b.summary@ + "|"@ + date_short(b.last_change_time@),
    )
}

/// The compact list: a count line, a header line, and one row per bug.
pub open spec fn bugs_compact(bugs: Seq<Bug>) -> Seq<char> {
    "FOUND "@ + decimal(bugs.len()) + " bugs\n"@ + "ID|SEVERITY|STATUS|COMPONENT|SUMMARY|CHANGED\n"@
        + concat(bugs.map_values(|b: Bug| compact_row(b)))
}

/// One bug in the markdown table, its summary's pipes escaped.
pub open spec fn markdown_row(b: Bug) -> Seq<char> {
    line(
        "| "@ + bug_link(b.id) + " | "@ + b.severity@ + " | "@ + status_paren(b) + " | "@
            + b.product@ + "::"@ + b.component@ + " | "@ + escape_pipes(b.summary@) + " | "@
            + date_short(b.last_change_time@) + " |"@,
    )
}

/// The markdown list: a count line, a blank line, the table header and one
/// row per bug.
pub open spec fn bugs_markdown(bugs: Seq<Bug>) -> Seq<char> {
    "Found **"@ + decimal(bugs.len()) + "** bugs\n\n"@
        + "| Bug | Severity | Status | Component | Summary | Changed |\n"@
        + "|-----|----------|--------|-----------|---------|---------|\n"@ + concat(
        bugs.map_values(|b: Bug| markdown_row(b)),
    )
}

fn push_compact_row(out: &mut String, b: &Bug)
    ensures
        final(out)@ == old(out)@ + compact_row(*b),
{
    let ghost start = out@;
    push_decimal(out, b.id);
    out.append("|");
    out.append(b.severity.as_str());
    out.append("|");
    push_status_colon(out, b);
    out.append("|");
    out.append(b.product.as_str());
    out.append("::");
    out.append(b.component.as_str());
    out.append("|");
    out.append(b.summary.as_str());
    out.append("|");
    out.append(format_date_short(b.last_change_time.as_str()));
    out.append("\n");
    assert(out@ =~= start + compact_row(*b));
}

/// The bugs as a compact, pipe separated list.
pub fn format_bugs_compact(bugs: &[Bug]) -> (s: String)
    ensures
        s@ == bugs_compact(bugs@),
{
    let mut out = String::new();
    out.append("FOUND ");
    push_decimal(&mut out, bugs.len() as u64);
    out.append(" bugs\n");
    out.append("ID|SEVERITY|STATUS|COMPONENT|SUMMARY|CHANGED\n");
    let ghost start = out@;
    let ghost rows = bugs@.map_values(|b: Bug| compact_row(b));
    let n = bugs.len();
    for i in 0..n
        invariant
            n == bugs@.len(),
            rows == bugs@.map_values(|b: Bug| compact_row(b)),
            out@ == start + concat(rows.take(i as int)),
    {
        proof {
            lemma_concat_step(rows, i as int);
        }
        push_compact_row(&mut out, &bugs[i]);
        assert(out@ =~= start + concat(rows.take(i + 1)));
    }
    proof {
        lemma_concat_all(rows);
    }
    assert(out@ =~= bugs_compact(bugs@));
    out
}

fn push_markdown_row(out: &mut String, b: &Bug)
    ensures
        final(out)@ == old(out)@ + markdown_row(*b),
{
    let ghost start = out@;
    out.append("| ");
    push_bug_link(out, b.id);
    out.append(" | ");
    out.append(b.severity.as_str());
    out.append(" | ");
    push_status_paren(out, b);
    out.append(" | ");
    out.append(b.product.as_str());
    out.append("::");
    out.append(b.component.as_str());
    out.append(" | ");
    push_escaped(out, b.summary.as_str());
    out.append(" | ");
    out.append(format_date_short(b.last_change_time.as_str()));
    out.append(" |");
    out.append("\n");
    assert(out@ =~= start + markdown_row(*b));
}

/// The bugs as a markdown table.
pub fn format_bugs_markdown(bugs: &[Bug]) -> (s: String)
    ensures
        s@ == bugs_markdown(bugs@),
{
    let mut out = String::new();
    out.append("Found **");
    push_decimal(&mut out, bugs.len() as u64);
    out.append("** bugs\n\n");
    out.append("| Bug | Severity | Status | Component | Summary | Changed |\n");
    out.append("|-----|----------|--------|-----------|---------|---------|\n");
    let ghost start = out@;
    let ghost rows = bugs@.map_values(|b: Bug| markdown_row(b));
    let n = bugs.len();
    for i in 0..n
        invariant
            n == bugs@.len(),
            rows == bugs@.map_values(|b: Bug| markdown_row(b)),
            out@ == start + concat(rows.take(i as int)),
    {
        proof {
            lemma_concat_step(rows, i as int);
        }
        push_markdown_row(&mut out, &bugs[i]);
        assert(out@ =~= start + concat(rows.take(i + 1)));
    }
    proof {
        lemma_concat_all(rows);
    }
    assert(out@ =~= bugs_markdown(bugs@));
    out
}

} // verus!

verus! {

/// What a renderer produced: finished text, or the request to print a value
/// as pretty JSON (which the caller does with its serializer).
pub enum Rendering {
    /// The finished text.
    Text(String),
    /// Print the value (the bug list, or the bug) as pretty JSON.
    Json,
    /// Print the bug as a pretty JSON object with one more member, `history`,
    /// that holds the history entries.
    JsonWithHistory,
}

/// The bug list in the chosen format.
pub fn format_bugs(bugs: &[Bug], format: &OutputFormat) -> (r: Rendering)
    ensures
        match *format {
            OutputFormat::Compact => r matches Rendering::Text(t) && t@ == bugs_compact(bugs@),
            OutputFormat::Markdown => r matches Rendering::Text(t) && t@ == bugs_markdown(bugs@),
            OutputFormat::Json => r is Json,
        },
{
    match format {
        OutputFormat::Compact => Rendering::Text(format_bugs_compact(bugs)),
        OutputFormat::Json => Rendering::Json,
        OutputFormat::Markdown => Rendering::Text(format_bugs_markdown(bugs)),
    }
}

} // verus!
