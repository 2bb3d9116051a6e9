//! Properties of the renderings: what every bug list and every bug shown
//! must contain, for all inputs.
use vstd::prelude::*;
use crate::detail::{
    compact_change, compact_comment, compact_comments, compact_entry, compact_history,
    detail_compact, detail_markdown, markdown_change, markdown_comment, markdown_comments,
    markdown_entry, markdown_history,
};
use crate::model::{Bug, Comment, HistoryChange, HistoryEntry};
use crate::occurs::{
    lemma_concat_in_order, lemma_concat_occurs, lemma_in_order_in_sum, lemma_occurs_between,
    lemma_occurs_in_sum, occurs_in_order, lemma_occurs_left, lemma_occurs_right, lemma_occurs_self,
    lemma_occurs_trans, occurs,
};
use crate::render::{
    bug_link, bugs_compact, bugs_markdown, compact_row, concat, line, markdown_row, status_colon,
    status_paren,
};
use crate::text::{date_short, decimal, escape_pipes, split};

verus! {

// ---------------------------------------------------------------------------
// Status texts
// ---------------------------------------------------------------------------

/// The status shown for a bug always starts with its status. Without a
/// resolution it is just the status; with one, the resolution is shown too,
/// after one separator character (`:`) in the compact form and inside ` (` and
/// `)` in the markdown form.
pub proof fn law_status_texts(b: Bug)
    ensures
        status_colon(b).len() >= b.status@.len(),
        status_colon(b).take(b.status@.len() as int) == b.status@,
        status_paren(b).len() >= b.status@.len(),
        status_paren(b).take(b.status@.len() as int) == b.status@,
        b.resolution@.len() == 0 ==> status_colon(b) == b.status@ && status_paren(b) == b.status@,
        b.resolution@.len() > 0 ==> {
            &&& status_colon(b).len() == b.status@.len() + 1 + b.resolution@.len()
            &&& status_colon(b).skip(b.status@.len() as int + 1) == b.resolution@
            &&& status_colon(b)[b.status@.len() as int] == ':'
            &&& status_paren(b).len() == b.status@.len() + 3 + b.resolution@.len()
            &&& status_paren(b).subrange(
                b.status@.len() as int + 2,
                b.status@.len() as int + 2 + b.resolution@.len(),
            ) == b.resolution@
            &&& status_paren(b).subrange(b.status@.len() as int, b.status@.len() as int + 2) == seq![
                ' ',
                '(',
            ]
            &&& status_paren(b).last() == ')'
        },
{
    reveal_strlit(":");
    reveal_strlit(" (");
    reveal_strlit(")");
    let s = b.status@;
    let r = b.resolution@;
    if r.len() == 0 {
        assert(status_colon(b).take(s.len() as int) =~= s);
        assert(status_paren(b).take(s.len() as int) =~= s);
    } else {
        let c = s + ":"@ + r;
        assert(c.take(s.len() as int) =~= s);
        assert(c.skip(s.len() as int + 1) =~= r);
        let p = s + " ("@ + r + ")"@;
        assert(p.take(s.len() as int) =~= s);
        assert(p.subrange(s.len() as int + 2, s.len() as int + 2 + r.len()) =~= r);
        assert(p.subrange(s.len() as int, s.len() as int + 2) =~= seq![' ', '(']);
    }
}

// ---------------------------------------------------------------------------
// Bug lists
// ---------------------------------------------------------------------------

proof fn lemma_compact_row_shows(b: Bug)
    ensures
        occurs(compact_row(b), b.summary@),
        occurs(compact_row(b), status_colon(b)),
{
    let p1 = decimal(b.id as nat) + "|"@ + b.severity@ + "|"@;
    let p2 = p1 + status_colon(b) + "|"@ + b.product@ + "::"@ + b.component@ + "|"@;
    let tail = "|"@ + date_short(b.last_change_time@) + "\n"@;
    lemma_occurs_self(b.summary@);
    lemma_occurs_left(p2, b.summary@, b.summary@);
    lemma_occurs_right(p2 + b.summary@, tail, b.summary@);
    assert(compact_row(b) =~= p2 + b.summary@ + tail);
    let t2 = "|"@ + b.product@ + "::"@ + b.component@ + "|"@ + b.summary@ + tail;
    lemma_occurs_self(status_colon(b));
    lemma_occurs_left(p1, status_colon(b), status_colon(b));
    lemma_occurs_right(p1 + status_colon(b), t2, status_colon(b));
    assert(compact_row(b) =~= p1 + status_colon(b) + t2);
}

proof fn lemma_markdown_row_shows(b: Bug)
    ensures
        occurs(markdown_row(b), escape_pipes(b.summary@)),
        occurs(markdown_row(b), status_paren(b)),
        occurs(markdown_row(b), bug_link(b.id)),
{
    let sep = " | "@;
    let p1 = "| "@ + bug_link(b.id) + sep + b.severity@ + sep;
    let p2 = p1 + status_paren(b) + sep + b.product@ + "::"@ + b.component@ + sep;
    let tail = sep + date_short(b.last_change_time@) + " |"@ + "\n"@;
    let e = escape_pipes(b.summary@);
    lemma_occurs_self(e);
    lemma_occurs_left(p2, e, e);
    lemma_occurs_right(p2 + e, tail, e);
    assert(markdown_row(b) =~= p2 + e + tail);
    let t2 = sep + b.product@ + "::"@ + b.component@ + sep + e + tail;
    lemma_occurs_self(status_paren(b));
    lemma_occurs_left(p1, status_paren(b), status_paren(b));
    lemma_occurs_right(p1 + status_paren(b), t2, status_paren(b));
    assert(markdown_row(b) =~= p1 + status_paren(b) + t2);
    let t3 = sep + b.severity@ + sep + status_paren(b) + t2;
    lemma_occurs_self(bug_link(b.id));
    lemma_occurs_left("| "@, bug_link(b.id), bug_link(b.id));
    lemma_occurs_right("| "@ + bug_link(b.id), t3, bug_link(b.id));
    assert(markdown_row(b) =~= "| "@ + bug_link(b.id) + t3);
}

/// Every bug of the list has its row in the compact list, and the row shows
/// the bug's summary and status.
pub proof fn law_compact_list_shows_every_bug(bugs: Seq<Bug>, k: int)
    requires
        0 <= k < bugs.len(),
    ensures
        occurs(bugs_compact(bugs), compact_row(bugs[k])),
        occurs(bugs_compact(bugs), bugs[k].summary@),
        occurs(bugs_compact(bugs), status_colon(bugs[k])),
{
    let rows = bugs.map_values(|b: Bug| compact_row(b));
    let head = "FOUND "@ + decimal(bugs.len()) + " bugs\n"@
        + "ID|SEVERITY|STATUS|COMPONENT|SUMMARY|CHANGED\n"@;
    lemma_concat_occurs(rows, k);
    assert(rows[k] == compact_row(bugs[k]));
    lemma_occurs_left(head, concat(rows), compact_row(bugs[k]));
    assert(bugs_compact(bugs) == head + concat(rows));
    lemma_compact_row_shows(bugs[k]);
    lemma_occurs_trans(bugs_compact(bugs), compact_row(bugs[k]), bugs[k].summary@);
    lemma_occurs_trans(bugs_compact(bugs), compact_row(bugs[k]), status_colon(bugs[k]));
}

/// Every bug of the list has its row in the markdown table, and the row
/// shows the link to the bug, its status and its summary (pipes escaped).
pub proof fn law_markdown_list_shows_every_bug(bugs: Seq<Bug>, k: int)
    requires
        0 <= k < bugs.len(),
    ensures
        occurs(bugs_markdown(bugs), markdown_row(bugs[k])),
        occurs(bugs_markdown(bugs), escape_pipes(bugs[k].summary@)),
        occurs(bugs_markdown(bugs), status_paren(bugs[k])),
        occurs(bugs_markdown(bugs), bug_link(bugs[k].id)),
{
    let rows = bugs.map_values(|b: Bug| markdown_row(b));
    let head = "Found **"@ + decimal(bugs.len()) + "** bugs\n\n"@
        + "| Bug | Severity | Status | Component | Summary | Changed |\n"@
        + "|-----|----------|--------|-----------|---------|---------|\n"@;
    lemma_concat_occurs(rows, k);
    assert(rows[k] == markdown_row(bugs[k]));
    lemma_occurs_left(head, concat(rows), markdown_row(bugs[k]));
    assert(bugs_markdown(bugs) == head + concat(rows));
    lemma_markdown_row_shows(bugs[k]);
    lemma_occurs_trans(bugs_markdown(bugs), markdown_row(bugs[k]), escape_pipes(bugs[k].summary@));
    lemma_occurs_trans(bugs_markdown(bugs), markdown_row(bugs[k]), status_paren(bugs[k]));
    lemma_occurs_trans(bugs_markdown(bugs), markdown_row(bugs[k]), bug_link(bugs[k].id));
}

// ---------------------------------------------------------------------------
// Comments and history of a bug
// ---------------------------------------------------------------------------

/// Every comment of a bug that carries its comments is shown, with its text,
/// in the compact form.
pub proof fn law_compact_detail_shows_every_comment(
    b: Bug,
    history: Seq<HistoryEntry>,
    k: int,
)
    requires
        b.comments is Some,
        0 <= k < b.comments->0@.len(),
    ensures
        occurs(detail_compact(b, history), compact_comment(b.comments->0@[k])),
        occurs(detail_compact(b, history), b.comments->0@[k].text@),
{
    let cs = b.comments->0@;
    let c = cs[k];
    let parts = cs.map_values(|c: Comment| compact_comment(c));
    lemma_concat_occurs(parts, k);
    assert(parts[k] == compact_comment(c));
    let header = line("\n--- COMMENTS ("@ + decimal(cs.len()) + ") ---"@);
    lemma_occurs_left(header, concat(parts), compact_comment(c));
    assert(compact_comments(b) == header + concat(parts));
    let before = crate::detail::compact_head(b) + crate::detail::compact_fields(b)
        + crate::detail::compact_links(b);
    lemma_occurs_left(before, compact_comments(b), compact_comment(c));
    lemma_occurs_right(before + compact_comments(b), compact_history(history), compact_comment(c));
    // The text is in the comment's block.
    let first = line(
        "\n[Comment #"@ + decimal(c.count as nat) + "] "@ + crate::text::before_at(c.creator@) + " ("@
            + date_short(c.creation_time@) + ")"@,
    );
    lemma_occurs_self(c.text@);
    lemma_occurs_left(first, c.text@, c.text@);
    lemma_occurs_right(first + c.text@, "\n"@, c.text@);
    assert(compact_comment(c) =~= first + c.text@ + "\n"@);
    lemma_occurs_trans(detail_compact(b, history), compact_comment(c), c.text@);
}

/// Every comment of a bug that carries its comments is shown, with its text,
/// in the markdown form.
pub proof fn law_markdown_detail_shows_every_comment(
    b: Bug,
    history: Seq<HistoryEntry>,
    k: int,
)
    requires
        b.comments is Some,
        0 <= k < b.comments->0@.len(),
    ensures
        occurs(detail_markdown(b, history), markdown_comment(b.comments->0@[k])),
        occurs(detail_markdown(b, history), b.comments->0@[k].text@),
{
    let cs = b.comments->0@;
    let c = cs[k];
    let parts = cs.map_values(|c: Comment| markdown_comment(c));
    lemma_concat_occurs(parts, k);
    assert(parts[k] == markdown_comment(c));
    let header = line("\n## Comments ("@ + decimal(cs.len()) + ")\n"@);
    lemma_occurs_left(header, concat(parts), markdown_comment(c));
    assert(markdown_comments(b) == header + concat(parts));
    let before = crate::detail::markdown_head(b) + crate::detail::markdown_fields(b)
        + crate::detail::markdown_links(b);
    lemma_occurs_left(before, markdown_comments(b), markdown_comment(c));
    lemma_occurs_right(
        before + markdown_comments(b),
        markdown_history(history),
        markdown_comment(c),
    );
    let first = line(
        "### Comment #"@ + decimal(c.count as nat) + " - "@ + crate::text::before_at(c.creator@)
            + " ("@ + date_short(c.creation_time@) + ")\n"@,
    );
    let rest = "\n"@ + "\n"@;
    lemma_occurs_self(c.text@);
    lemma_occurs_left(first, c.text@, c.text@);
    lemma_occurs_right(first + c.text@, rest, c.text@);
    assert(markdown_comment(c) =~= first + c.text@ + rest);
    lemma_occurs_trans(detail_markdown(b, history), markdown_comment(c), c.text@);
}

/// Every field change of every history entry is shown in the compact form,
/// with the field's name.
pub proof fn law_compact_detail_shows_every_change(
    b: Bug,
    history: Seq<HistoryEntry>,
    k: int,
    j: int,
)
    requires
        0 <= k < history.len(),
        0 <= j < history[k].changes@.len(),
    ensures
        occurs(detail_compact(b, history), compact_change(history[k].changes@[j])),
        occurs(detail_compact(b, history), history[k].changes@[j].field_name@),
{
    let e = history[k];
    let ch = e.changes@[j];
    let changes = e.changes@.map_values(|ch: HistoryChange| compact_change(ch));
    lemma_concat_occurs(changes, j);
    assert(changes[j] == compact_change(ch));
    let eh = line("\n"@ + date_short(e.when@) + " - "@ + crate::text::before_at(e.who@));
    lemma_occurs_left(eh, concat(changes), compact_change(ch));
    assert(compact_entry(e) == eh + concat(changes));
    let entries = history.map_values(|e: HistoryEntry| compact_entry(e));
    lemma_concat_occurs(entries, k);
    assert(entries[k] == compact_entry(e));
    lemma_occurs_trans(concat(entries), compact_entry(e), compact_change(ch));
    let header = line("\n--- HISTORY ("@ + decimal(history.len()) + " entries) ---"@);
    lemma_occurs_left(header, concat(entries), compact_change(ch));
    assert(compact_history(history) == header + concat(entries));
    let before = crate::detail::compact_head(b) + crate::detail::compact_fields(b)
        + crate::detail::compact_links(b) + compact_comments(b);
    lemma_occurs_left(before, compact_history(history), compact_change(ch));
    assert(detail_compact(b, history) == before + compact_history(history));
    lemma_compact_change_shows_field(ch);
    lemma_occurs_trans(detail_compact(b, history), compact_change(ch), ch.field_name@);
}

proof fn lemma_compact_change_shows_field(ch: HistoryChange)
    ensures
        occurs(compact_change(ch), ch.field_name@),
{
    let pre = "  "@;
    let post = if ch.removed@.len() == 0 {
        ": +"@ + ch.added@ + "\n"@
    } else if ch.added@.len() == 0 {
        ": -"@ + ch.removed@ + "\n"@
    } else {
        ": "@ + ch.removed@ + " -> "@ + ch.added@ + "\n"@
    };
    lemma_occurs_self(ch.field_name@);
    lemma_occurs_left(pre, ch.field_name@, ch.field_name@);
    lemma_occurs_right(pre + ch.field_name@, post, ch.field_name@);
    assert(compact_change(ch) =~= pre + ch.field_name@ + post);
}

/// Every field change of every history entry has its row in the markdown
/// form.
pub proof fn law_markdown_detail_shows_every_change(
    b: Bug,
    history: Seq<HistoryEntry>,
    k: int,
    j: int,
)
    requires
        0 <= k < history.len(),
        0 <= j < history[k].changes@.len(),
    ensures
        occurs(detail_markdown(b, history), markdown_change(history[k], history[k].changes@[j])),
{
    let e = history[k];
    let ch = e.changes@[j];
    let rows = e.changes@.map_values(|ch: HistoryChange| markdown_change(e, ch));
    lemma_concat_occurs(rows, j);
    assert(rows[j] == markdown_change(e, ch));
    assert(markdown_entry(e) == concat(rows));
    let entries = history.map_values(|e: HistoryEntry| markdown_entry(e));
    lemma_concat_occurs(entries, k);
    assert(entries[k] == markdown_entry(e));
    lemma_occurs_trans(concat(entries), markdown_entry(e), markdown_change(e, ch));
    let header = line("\n## History ("@ + decimal(history.len()) + " entries)\n"@)
        + "| Date | Who | Field | Removed | Added |\n"@
        + "|------|-----|-------|---------|-------|\n"@;
    lemma_occurs_left(header, concat(entries), markdown_change(e, ch));
    assert(markdown_history(history) == header + concat(entries));
    let before = crate::detail::markdown_head(b) + crate::detail::markdown_fields(b)
        + crate::detail::markdown_links(b) + markdown_comments(b);
    lemma_occurs_left(before, markdown_history(history), markdown_change(e, ch));
    assert(detail_markdown(b, history) == before + markdown_history(history));
}

// ---------------------------------------------------------------------------
// The fields of a compact row
// ---------------------------------------------------------------------------

/// `c` does not occur in `s`.
pub open spec fn free_of(s: Seq<char>, c: char) -> bool {
    forall|i: int| 0 <= i < s.len() ==> s[i] != c
}

proof fn lemma_split_free(y: Seq<char>, c: char)
    requires
        free_of(y, c),
    ensures
        split(y, c) == seq![y],
    decreases y.len(),
{
    if y.len() == 0 {
        assert(y =~= Seq::<char>::empty());
        assert(split(y, c) =~= seq![y]);
    } else {
        let p = y.drop_last();
        assert(free_of(p, c)) by {
            assert forall|i: int| 0 <= i < p.len() implies p[i] != c by {
                assert(p[i] == y[i]);
            }
        }
        lemma_split_free(p, c);
        assert(y.last() == y[y.len() - 1]);
        assert(p.push(y.last()) =~= y);
        assert(split(y, c) =~= seq![y]);
    }
}

proof fn lemma_split_push(x: Seq<char>, y: Seq<char>, c: char)
    requires
        free_of(y, c),
    ensures
        split(x + seq![c] + y, c) == split(x, c).push(y),
    decreases y.len(),
{
    let s = x + seq![c] + y;
    if y.len() == 0 {
        assert(s.drop_last() =~= x);
        assert(s.last() == c);
        assert(y =~= Seq::<char>::empty());
    } else {
        let p = y.drop_last();
        assert(free_of(p, c)) by {
            assert forall|i: int| 0 <= i < p.len() implies p[i] != c by {
                assert(p[i] == y[i]);
            }
        }
        lemma_split_push(x, p, c);
        assert(s.drop_last() =~= x + seq![c] + p);
        assert(s.last() == y[y.len() - 1]);
        let r = split(x, c).push(p);
        assert(r.update(r.len() - 1, r.last().push(s.last())) =~= split(x, c).push(y)) by {
            assert(p.push(s.last()) =~= y);
        }
    }
}

proof fn lemma_decimal_free(n: nat)
    ensures
        free_of(decimal(n), '|'),
{
    crate::laws_text::law_decimal_digits(n);
    assert forall|i: int| 0 <= i < decimal(n).len() implies decimal(n)[i] != '|' by {
        assert(crate::laws_text::is_digit(decimal(n)[i]));
    }
}

/// A row of the compact list holds, between its pipes, the columns that the
/// header names and in its order: the number, the severity, the status, the
/// product and component, the summary and the date of the last change, as
/// long as none of these holds a pipe.
pub proof fn law_compact_row_columns(b: Bug)
    requires
        free_of(b.severity@, '|'),
        free_of(status_colon(b), '|'),
        free_of(b.product@, '|'),
        free_of(b.component@, '|'),
        free_of(b.summary@, '|'),
        free_of(date_short(b.last_change_time@), '|'),
    ensures
        compact_row(b).last() == '\n',
        split(compact_row(b).drop_last(), '|') == seq![
            decimal(b.id as nat),
            b.severity@,
            status_colon(b),
            b.product@ + "::"@ + b.component@,
            b.summary@,
            date_short(b.last_change_time@),
        ],
{
    reveal_strlit("|");
    reveal_strlit("::");
    reveal_strlit("\n");
    let c = '|';
    let bar = "|"@;
    assert(bar =~= seq![c]);
    let d = decimal(b.id as nat);
    let pc = b.product@ + "::"@ + b.component@;
    assert(free_of(pc, c)) by {
        assert forall|i: int| 0 <= i < pc.len() implies pc[i] != c by {
            if i < b.product@.len() {
                assert(pc[i] == b.product@[i]);
            } else if i >= b.product@.len() + 2 {
                assert(pc[i] == b.component@[i - b.product@.len() - 2]);
            }
        }
    }
    let date = date_short(b.last_change_time@);
    lemma_decimal_free(b.id as nat);
    lemma_split_free(d, c);
    let p1 = d + seq![c] + b.severity@;
    lemma_split_push(d, b.severity@, c);
    let p2 = p1 + seq![c] + status_colon(b);
    lemma_split_push(p1, status_colon(b), c);
    let p3 = p2 + seq![c] + pc;
    lemma_split_push(p2, pc, c);
    let p4 = p3 + seq![c] + b.summary@;
    lemma_split_push(p3, b.summary@, c);
    let p5 = p4 + seq![c] + date;
    lemma_split_push(p4, date, c);
    assert(compact_row(b) =~= p5 + "\n"@);
    assert(compact_row(b).drop_last() =~= p5);
    assert(split(p5, c) =~= seq![d, b.severity@, status_colon(b), pc, b.summary@, date]);
}

/// A cell of the markdown table: the text with a space on each side.
pub open spec fn cell(s: Seq<char>) -> Seq<char> {
    " "@ + s + " "@
}

proof fn lemma_cell_free(s: Seq<char>)
    requires
        free_of(s, '|'),
    ensures
        free_of(cell(s), '|'),
{
    reveal_strlit(" ");
    let t = cell(s);
    assert forall|i: int| 0 <= i < t.len() implies t[i] != '|' by {
        if 1 <= i < 1 + s.len() {
            assert(t[i] == s[i - 1]);
        }
    }
}

proof fn lemma_bug_link_free(d: u64)
    ensures
        free_of(bug_link(d), '|'),
{
    reveal_strlit("[");
    reveal_strlit("](https://bugzilla.mozilla.org/show_bug.cgi?id=");
    reveal_strlit(")");
    let n = decimal(d as nat);
    let a = "["@ + n;
    let m = "](https://bugzilla.mozilla.org/show_bug.cgi?id="@;
    lemma_decimal_free(d as nat);
    assert(free_of(m, '|'));
    let l = bug_link(d);
    assert forall|i: int| 0 <= i < l.len() implies l[i] != '|' by {
        if i == 0 {
        } else if i < 1 + n.len() {
            assert(l[i] == n[i - 1]);
        } else if i < 1 + n.len() + m.len() {
            assert(l[i] == m[i - 1 - n.len()]);
        } else if i < 1 + n.len() + m.len() + n.len() {
            assert(l[i] == n[i - 1 - n.len() - m.len()]);
        }
    }
}

/// The markdown row written as its cells between pipes.
spec fn markdown_cells(b: Bug) -> Seq<char> {
    let c = seq!['|'];
    seq![] + c + cell(bug_link(b.id)) + c + cell(b.severity@) + c + cell(status_paren(b)) + c
        + cell(b.product@ + "::"@ + b.component@) + c + cell(b.summary@) + c + cell(
        date_short(b.last_change_time@),
    ) + c + seq![]
}

proof fn lemma_markdown_row_cells(b: Bug)
    requires
        free_of(b.summary@, '|'),
    ensures
        markdown_row(b) == markdown_cells(b) + seq!['\n'],
{
    reveal_strlit("| ");
    reveal_strlit(" | ");
    reveal_strlit(" |");
    reveal_strlit(" ");
    reveal_strlit("\n");
    crate::laws::law_pipes_escaped(b.summary@);
    assert(escape_pipes(b.summary@) == b.summary@);
    assert(markdown_row(b) =~= markdown_cells(b) + seq!['\n']);
}

/// A row of the markdown list holds, between its pipes, the columns that the
/// table's header names and in its order, each with a space on either side:
/// the link to the bug, the severity, the status, the product and component,
/// the summary and the date of the last change, as long as none of these
/// holds a pipe.
pub proof fn law_markdown_row_columns(b: Bug)
    requires
        free_of(b.severity@, '|'),
        free_of(status_paren(b), '|'),
        free_of(b.product@, '|'),
        free_of(b.component@, '|'),
        free_of(b.summary@, '|'),
        free_of(date_short(b.last_change_time@), '|'),
    ensures
        markdown_row(b).last() == '\n',
        split(markdown_row(b).drop_last(), '|') == seq![
            Seq::<char>::empty(),
            cell(bug_link(b.id)),
            cell(b.severity@),
            cell(status_paren(b)),
            cell(b.product@ + "::"@ + b.component@),
            cell(b.summary@),
            cell(date_short(b.last_change_time@)),
            Seq::<char>::empty(),
        ],
{
    reveal_strlit("::");
    lemma_markdown_row_cells(b);
    let c = '|';
    let e = Seq::<char>::empty();
    let pc = b.product@ + "::"@ + b.component@;
    assert(free_of(pc, c)) by {
        assert forall|i: int| 0 <= i < pc.len() implies pc[i] != c by {
            if i < b.product@.len() {
                assert(pc[i] == b.product@[i]);
            } else if i >= b.product@.len() + 2 {
                assert(pc[i] == b.component@[i - b.product@.len() - 2]);
            }
        }
    }
    let date = date_short(b.last_change_time@);
    let link = bug_link(b.id);
    lemma_bug_link_free(b.id);
    lemma_cell_free(link);
    lemma_cell_free(b.severity@);
    lemma_cell_free(status_paren(b));
    lemma_cell_free(pc);
    lemma_cell_free(b.summary@);
    lemma_cell_free(date);
    assert(split(e, c) =~= seq![e]);
    let x1 = e + seq![c] + cell(link);
    lemma_split_push(e, cell(link), c);
    let x2 = x1 + seq![c] + cell(b.severity@);
    lemma_split_push(x1, cell(b.severity@), c);
    let x3 = x2 + seq![c] + cell(status_paren(b));
    lemma_split_push(x2, cell(status_paren(b)), c);
    let x4 = x3 + seq![c] + cell(pc);
    lemma_split_push(x3, cell(pc), c);
    let x5 = x4 + seq![c] + cell(b.summary@);
    lemma_split_push(x4, cell(b.summary@), c);
    let x6 = x5 + seq![c] + cell(date);
    lemma_split_push(x5, cell(date), c);
    let x7 = x6 + seq![c] + e;
    lemma_split_push(x6, e, c);
    assert(markdown_cells(b) =~= x7);
    assert((x7 + seq!['\n']).drop_last() =~= x7);
    assert(split(x7, c) =~= seq![
        e,
        cell(link),
        cell(b.severity@),
        cell(status_paren(b)),
        cell(pc),
        cell(b.summary@),
        cell(date),
        e,
    ]);
}

// ---------------------------------------------------------------------------
// Counts
// ---------------------------------------------------------------------------

/// `p` is a prefix of `s`.
pub open spec fn starts_with(s: Seq<char>, p: Seq<char>) -> bool {
    p.len() <= s.len() && s.take(p.len() as int) == p
}

/// Each list of bugs starts by giving the number of bugs in it.
pub proof fn law_lists_count_bugs(bugs: Seq<Bug>)
    ensures
        starts_with(bugs_compact(bugs), "FOUND "@ + decimal(bugs.len()) + " bugs\n"@),
        starts_with(bugs_markdown(bugs), "Found **"@ + decimal(bugs.len()) + "** bugs\n\n"@),
{
    let p = "FOUND "@ + decimal(bugs.len()) + " bugs\n"@;
    let r = "ID|SEVERITY|STATUS|COMPONENT|SUMMARY|CHANGED\n"@ + concat(
        bugs.map_values(|b: Bug| compact_row(b)),
    );
    assert(bugs_compact(bugs) =~= p + r);
    assert((p + r).take(p.len() as int) =~= p);
    let q = "Found **"@ + decimal(bugs.len()) + "** bugs\n\n"@;
    let t = "| Bug | Severity | Status | Component | Summary | Changed |\n"@
        + "|-----|----------|--------|-----------|---------|---------|\n"@ + concat(
        bugs.map_values(|b: Bug| markdown_row(b)),
    );
    assert(bugs_markdown(bugs) =~= q + t);
    assert((q + t).take(q.len() as int) =~= q);
}

/// The comments section of a bug that carries its comments gives their
/// number, and the history section, when there is history, the number of its
/// entries, in both forms.
pub proof fn law_detail_counts(b: Bug, history: Seq<HistoryEntry>)
    ensures
        b.comments matches Some(cs) ==> occurs(
            detail_compact(b, history),
            "\n--- COMMENTS ("@ + decimal(cs@.len()) + ") ---"@,
        ) && occurs(detail_markdown(b, history), "\n## Comments ("@ + decimal(cs@.len()) + ")\n"@),
        history.len() > 0 ==> occurs(
            detail_compact(b, history),
            "\n--- HISTORY ("@ + decimal(history.len()) + " entries) ---"@,
        ) && occurs(
            detail_markdown(b, history),
            "\n## History ("@ + decimal(history.len()) + " entries)\n"@,
        ),
{
    let e = Seq::<char>::empty();
    let nl = "\n"@;
    let cb = crate::detail::compact_head(b) + crate::detail::compact_fields(b)
        + crate::detail::compact_links(b);
    let mb = crate::detail::markdown_head(b) + crate::detail::markdown_fields(b)
        + crate::detail::markdown_links(b);
    if let Some(cs) = b.comments {
        let h = "\n--- COMMENTS ("@ + decimal(cs@.len()) + ") ---"@;
        let rest = concat(cs@.map_values(|c: Comment| compact_comment(c)));
        lemma_occurs_between(e, h, nl + rest);
        assert(compact_comments(b) =~= e + h + (nl + rest));
        lemma_occurs_in_sum(cb, compact_comments(b), compact_history(history), h);
        let m = "\n## Comments ("@ + decimal(cs@.len()) + ")\n"@;
        let mrest = concat(cs@.map_values(|c: Comment| markdown_comment(c)));
        lemma_occurs_between(e, m, nl + mrest);
        assert(markdown_comments(b) =~= e + m + (nl + mrest));
        lemma_occurs_in_sum(mb, markdown_comments(b), markdown_history(history), m);
    }
    if history.len() > 0 {
        let h = "\n--- HISTORY ("@ + decimal(history.len()) + " entries) ---"@;
        let rest = concat(history.map_values(|x: HistoryEntry| compact_entry(x)));
        lemma_occurs_between(e, h, nl + rest);
        assert(compact_history(history) =~= e + h + (nl + rest));
        lemma_occurs_in_sum(cb + compact_comments(b), compact_history(history), e, h);
        assert(detail_compact(b, history) =~= cb + compact_comments(b) + compact_history(history)
            + e);
        let m = "\n## History ("@ + decimal(history.len()) + " entries)\n"@;
        let mrest = "| Date | Who | Field | Removed | Added |\n"@
            + "|------|-----|-------|---------|-------|\n"@ + concat(
            history.map_values(|x: HistoryEntry| markdown_entry(x)),
        );
        lemma_occurs_between(e, m, nl + mrest);
        assert(markdown_history(history) =~= e + m + (nl + mrest));
        lemma_occurs_in_sum(mb + markdown_comments(b), markdown_history(history), e, m);
        assert(detail_markdown(b, history) =~= mb + markdown_comments(b) + markdown_history(
            history,
        ) + e);
    }
}

// ---------------------------------------------------------------------------
// Order
// ---------------------------------------------------------------------------

/// The lists show the bugs in the order in which they were given: the row of
/// an earlier bug comes before the row of a later one.
pub proof fn law_lists_keep_bug_order(bugs: Seq<Bug>, k: int, j: int)
    requires
        0 <= k < j < bugs.len(),
    ensures
        occurs_in_order(bugs_compact(bugs), compact_row(bugs[k]), compact_row(bugs[j])),
        occurs_in_order(bugs_markdown(bugs), markdown_row(bugs[k]), markdown_row(bugs[j])),
{
    let e = Seq::<char>::empty();
    let rows = bugs.map_values(|b: Bug| compact_row(b));
    lemma_concat_in_order(rows, k, j);
    assert(rows[k] == compact_row(bugs[k]));
    assert(rows[j] == compact_row(bugs[j]));
    let head = "FOUND "@ + decimal(bugs.len()) + " bugs\n"@
        + "ID|SEVERITY|STATUS|COMPONENT|SUMMARY|CHANGED\n"@;
    lemma_in_order_in_sum(head, concat(rows), e, rows[k], rows[j]);
    assert(bugs_compact(bugs) =~= head + concat(rows) + e);
    let mrows = bugs.map_values(|b: Bug| markdown_row(b));
    lemma_concat_in_order(mrows, k, j);
    assert(mrows[k] == markdown_row(bugs[k]));
    assert(mrows[j] == markdown_row(bugs[j]));
    let mhead = "Found **"@ + decimal(bugs.len()) + "** bugs\n\n"@
        + "| Bug | Severity | Status | Component | Summary | Changed |\n"@
        + "|-----|----------|--------|-----------|---------|---------|\n"@;
    lemma_in_order_in_sum(mhead, concat(mrows), e, mrows[k], mrows[j]);
    assert(bugs_markdown(bugs) =~= mhead + concat(mrows) + e);
}

/// The comments of a bug are shown in the order in which they were given,
/// in both forms.
pub proof fn law_detail_keeps_comment_order(b: Bug, history: Seq<HistoryEntry>, k: int, j: int)
    requires
        b.comments is Some,
        0 <= k < j < b.comments->0@.len(),
    ensures
        occurs_in_order(
            detail_compact(b, history),
            compact_comment(b.comments->0@[k]),
            compact_comment(b.comments->0@[j]),
        ),
        occurs_in_order(
            detail_markdown(b, history),
            markdown_comment(b.comments->0@[k]),
            markdown_comment(b.comments->0@[j]),
        ),
{
    let e = Seq::<char>::empty();
    let cs = b.comments->0@;
    let parts = cs.map_values(|c: Comment| compact_comment(c));
    lemma_concat_in_order(parts, k, j);
    assert(parts[k] == compact_comment(cs[k]));
    assert(parts[j] == compact_comment(cs[j]));
    let header = line("\n--- COMMENTS ("@ + decimal(cs.len()) + ") ---"@);
    lemma_in_order_in_sum(header, concat(parts), e, parts[k], parts[j]);
    assert(compact_comments(b) =~= header + concat(parts) + e);
    let cb = crate::detail::compact_head(b) + crate::detail::compact_fields(b)
        + crate::detail::compact_links(b);
    lemma_in_order_in_sum(cb, compact_comments(b), compact_history(history), parts[k], parts[j]);
    let mparts = cs.map_values(|c: Comment| markdown_comment(c));
    lemma_concat_in_order(mparts, k, j);
    assert(mparts[k] == markdown_comment(cs[k]));
    assert(mparts[j] == markdown_comment(cs[j]));
    let mheader = line("\n## Comments ("@ + decimal(cs.len()) + ")\n"@);
    lemma_in_order_in_sum(mheader, concat(mparts), e, mparts[k], mparts[j]);
    assert(markdown_comments(b) =~= mheader + concat(mparts) + e);
    let mb = crate::detail::markdown_head(b) + crate::detail::markdown_fields(b)
        + crate::detail::markdown_links(b);
    lemma_in_order_in_sum(mb, markdown_comments(b), markdown_history(history), mparts[k], mparts[j]);
}

/// The history entries are shown in the order in which they were given, in
/// both forms.
pub proof fn law_detail_keeps_history_order(b: Bug, history: Seq<HistoryEntry>, k: int, j: int)
    requires
        0 <= k < j < history.len(),
    ensures
        occurs_in_order(
            detail_compact(b, history),
            compact_entry(history[k]),
            compact_entry(history[j]),
        ),
        occurs_in_order(
            detail_markdown(b, history),
            markdown_entry(history[k]),
            markdown_entry(history[j]),
        ),
{
    let e = Seq::<char>::empty();
    let parts = history.map_values(|x: HistoryEntry| compact_entry(x));
    lemma_concat_in_order(parts, k, j);
    assert(parts[k] == compact_entry(history[k]));
    assert(parts[j] == compact_entry(history[j]));
    let header = line("\n--- HISTORY ("@ + decimal(history.len()) + " entries) ---"@);
    lemma_in_order_in_sum(header, concat(parts), e, parts[k], parts[j]);
    assert(compact_history(history) =~= header + concat(parts) + e);
    let cb = crate::detail::compact_head(b) + crate::detail::compact_fields(b)
        + crate::detail::compact_links(b) + compact_comments(b);
    lemma_in_order_in_sum(cb, compact_history(history), e, parts[k], parts[j]);
    assert(detail_compact(b, history) =~= cb + compact_history(history) + e);
    let mparts = history.map_values(|x: HistoryEntry| markdown_entry(x));
    lemma_concat_in_order(mparts, k, j);
    assert(mparts[k] == markdown_entry(history[k]));
    assert(mparts[j] == markdown_entry(history[j]));
    let mheader = line("\n## History ("@ + decimal(history.len()) + " entries)\n"@)
        + "| Date | Who | Field | Removed | Added |\n"@
        + "|------|-----|-------|---------|-------|\n"@;
    lemma_in_order_in_sum(mheader, concat(mparts), e, mparts[k], mparts[j]);
    assert(markdown_history(history) =~= mheader + concat(mparts) + e);
    let mb = crate::detail::markdown_head(b) + crate::detail::markdown_fields(b)
        + crate::detail::markdown_links(b) + markdown_comments(b);
    lemma_in_order_in_sum(mb, markdown_history(history), e, mparts[k], mparts[j]);
    assert(detail_markdown(b, history) =~= mb + markdown_history(history) + e);
}

// ---------------------------------------------------------------------------
// Field changes
// ---------------------------------------------------------------------------

/// A field change in the compact form shows its values: `+added` when
/// nothing was removed, `-removed` when nothing was added, and
/// `removed -> added` otherwise, after the field's name.
pub proof fn law_compact_change_values(ch: HistoryChange)
    ensures
        ch.removed@.len() == 0 ==> occurs(compact_change(ch), ch.field_name@ + ": +"@ + ch.added@),
        ch.removed@.len() > 0 && ch.added@.len() == 0 ==> occurs(
            compact_change(ch),
            ch.field_name@ + ": -"@ + ch.removed@,
        ),
        ch.removed@.len() > 0 && ch.added@.len() > 0 ==> occurs(
            compact_change(ch),
            ch.field_name@ + ": "@ + ch.removed@ + " -> "@ + ch.added@,
        ),
{
    let pre = "  "@;
    let nl = "\n"@;
    let x = if ch.removed@.len() == 0 {
        ch.field_name@ + ": +"@ + ch.added@
    } else if ch.added@.len() == 0 {
        ch.field_name@ + ": -"@ + ch.removed@
    } else {
        ch.field_name@ + ": "@ + ch.removed@ + " -> "@ + ch.added@
    };
    lemma_occurs_between(pre, x, nl);
    assert(compact_change(ch) =~= pre + x + nl);
}

spec fn change_cells(e: HistoryEntry, ch: HistoryChange) -> Seq<char> {
    let c = seq!['|'];
    seq![] + c + cell(date_short(e.when@)) + c + cell(crate::text::before_at(e.who@)) + c + cell(
        ch.field_name@,
    ) + c + cell(ch.removed@) + c + cell(ch.added@) + c + seq![]
}

proof fn lemma_change_row_cells(e: HistoryEntry, ch: HistoryChange)
    requires
        free_of(ch.removed@, '|'),
        free_of(ch.added@, '|'),
    ensures
        markdown_change(e, ch) == change_cells(e, ch) + seq!['\n'],
{
    reveal_strlit("| ");
    reveal_strlit(" | ");
    reveal_strlit(" |");
    reveal_strlit(" ");
    reveal_strlit("\n");
    crate::laws::law_pipes_escaped(ch.removed@);
    crate::laws::law_pipes_escaped(ch.added@);
    assert(markdown_change(e, ch) =~= change_cells(e, ch) + seq!['\n']);
}

/// A row of the history table holds, between its pipes, the columns that the
/// table's header names and in its order, each with a space on either side:
/// the date, who made the change, the field, what was removed and what was
/// added, as long as none of these holds a pipe.
pub proof fn law_markdown_change_columns(e: HistoryEntry, ch: HistoryChange)
    requires
        free_of(date_short(e.when@), '|'),
        free_of(crate::text::before_at(e.who@), '|'),
        free_of(ch.field_name@, '|'),
        free_of(ch.removed@, '|'),
        free_of(ch.added@, '|'),
    ensures
        markdown_change(e, ch).last() == '\n',
        split(markdown_change(e, ch).drop_last(), '|') == seq![
            Seq::<char>::empty(),
            cell(date_short(e.when@)),
            cell(crate::text::before_at(e.who@)),
            cell(ch.field_name@),
            cell(ch.removed@),
            cell(ch.added@),
            Seq::<char>::empty(),
        ],
{
    lemma_change_row_cells(e, ch);
    let c = '|';
    let z = Seq::<char>::empty();
    let d = date_short(e.when@);
    let w = crate::text::before_at(e.who@);
    lemma_cell_free(d);
    lemma_cell_free(w);
    lemma_cell_free(ch.field_name@);
    lemma_cell_free(ch.removed@);
    lemma_cell_free(ch.added@);
    assert(split(z, c) =~= seq![z]);
    let x1 = z + seq![c] + cell(d);
    lemma_split_push(z, cell(d), c);
    let x2 = x1 + seq![c] + cell(w);
    lemma_split_push(x1, cell(w), c);
    let x3 = x2 + seq![c] + cell(ch.field_name@);
    lemma_split_push(x2, cell(ch.field_name@), c);
    let x4 = x3 + seq![c] + cell(ch.removed@);
    lemma_split_push(x3, cell(ch.removed@), c);
    let x5 = x4 + seq![c] + cell(ch.added@);
    lemma_split_push(x4, cell(ch.added@), c);
    let x6 = x5 + seq![c] + z;
    lemma_split_push(x5, z, c);
    assert(change_cells(e, ch) =~= x6);
    assert((x6 + seq!['\n']).drop_last() =~= x6);
    assert(split(x6, c) =~= seq![
        z,
        cell(d),
        cell(w),
        cell(ch.field_name@),
        cell(ch.removed@),
        cell(ch.added@),
        z,
    ]);
}

// ---------------------------------------------------------------------------
// Headers of comments and history entries
// ---------------------------------------------------------------------------

proof fn lemma_compact_comment_header(c: Comment)
    ensures
        occurs(
            compact_comment(c),
            "[Comment #"@ + decimal(c.count as nat) + "] "@ + crate::text::before_at(c.creator@)
                + " ("@ + date_short(c.creation_time@) + ")"@,
        ),
{
    let x = "[Comment #"@ + decimal(c.count as nat) + "] "@ + crate::text::before_at(c.creator@)
        + " ("@ + date_short(c.creation_time@) + ")"@;
    assert("\n[Comment #"@ =~= "\n"@ + "[Comment #"@) by {
        reveal_strlit("\n[Comment #");
        reveal_strlit("\n");
        reveal_strlit("[Comment #");
    }
    lemma_occurs_between("\n"@, x, "\n"@ + line(c.text@));
    assert(compact_comment(c) =~= "\n"@ + x + ("\n"@ + line(c.text@)));
}

proof fn lemma_markdown_comment_header(c: Comment)
    ensures
        occurs(
            markdown_comment(c),
            "### Comment #"@ + decimal(c.count as nat) + " - "@ + crate::text::before_at(c.creator@)
                + " ("@ + date_short(c.creation_time@) + ")"@,
        ),
{
    let y = "### Comment #"@ + decimal(c.count as nat) + " - "@ + crate::text::before_at(
        c.creator@,
    ) + " ("@ + date_short(c.creation_time@) + ")"@;
    assert(")\n"@ =~= ")"@ + "\n"@) by {
        reveal_strlit(")\n");
        reveal_strlit(")");
        reveal_strlit("\n");
    }
    let e = Seq::<char>::empty();
    lemma_occurs_between(e, y, "\n"@ + "\n"@ + line(c.text@ + "\n"@));
    assert(markdown_comment(c) =~= e + y + ("\n"@ + "\n"@ + line(c.text@ + "\n"@)));
}

/// Each comment is introduced by its number, its author (the name before
/// the `@`) and the date it was written, in both forms.
pub proof fn law_detail_comment_headers(b: Bug, history: Seq<HistoryEntry>, k: int)
    requires
        b.comments is Some,
        0 <= k < b.comments->0@.len(),
    ensures
        occurs(
            detail_compact(b, history),
            "[Comment #"@ + decimal(b.comments->0@[k].count as nat) + "] "@
                + crate::text::before_at(b.comments->0@[k].creator@) + " ("@ + date_short(
                b.comments->0@[k].creation_time@,
            ) + ")"@,
        ),
        occurs(
            detail_markdown(b, history),
            "### Comment #"@ + decimal(b.comments->0@[k].count as nat) + " - "@
                + crate::text::before_at(b.comments->0@[k].creator@) + " ("@ + date_short(
                b.comments->0@[k].creation_time@,
            ) + ")"@,
        ),
{
    let c = b.comments->0@[k];
    law_compact_detail_shows_every_comment(b, history, k);
    law_markdown_detail_shows_every_comment(b, history, k);
    lemma_compact_comment_header(c);
    lemma_markdown_comment_header(c);
    lemma_occurs_trans(
        detail_compact(b, history),
        compact_comment(c),
        "[Comment #"@ + decimal(c.count as nat) + "] "@ + crate::text::before_at(c.creator@)
            + " ("@ + date_short(c.creation_time@) + ")"@,
    );
    lemma_occurs_trans(
        detail_markdown(b, history),
        markdown_comment(c),
        "### Comment #"@ + decimal(c.count as nat) + " - "@ + crate::text::before_at(c.creator@)
            + " ("@ + date_short(c.creation_time@) + ")"@,
    );
}

/// Each history entry is introduced in the compact form by its date and by
/// who made it (the name before the `@`).
pub proof fn law_compact_entry_headers(b: Bug, history: Seq<HistoryEntry>, k: int)
    requires
        0 <= k < history.len(),
    ensures
        occurs(
            detail_compact(b, history),
            date_short(history[k].when@) + " - "@ + crate::text::before_at(history[k].who@),
        ),
{
    let e = history[k];
    let x = date_short(e.when@) + " - "@ + crate::text::before_at(e.who@);
    let changes = concat(e.changes@.map_values(|ch: HistoryChange| compact_change(ch)));
    lemma_occurs_between("\n"@, x, "\n"@ + changes);
    assert(compact_entry(e) =~= "\n"@ + x + ("\n"@ + changes));
    let entries = history.map_values(|e: HistoryEntry| compact_entry(e));
    lemma_concat_occurs(entries, k);
    assert(entries[k] == compact_entry(e));
    let header = line("\n--- HISTORY ("@ + decimal(history.len()) + " entries) ---"@);
    assert(compact_history(history) =~= header + concat(entries) + Seq::<char>::empty());
    lemma_occurs_in_sum(header, concat(entries), Seq::<char>::empty(), compact_entry(e));
    let before = crate::detail::compact_head(b) + crate::detail::compact_fields(b)
        + crate::detail::compact_links(b) + compact_comments(b);
    assert(detail_compact(b, history) =~= before + compact_history(history) + Seq::<char>::empty());
    lemma_occurs_in_sum(before, compact_history(history), Seq::<char>::empty(), compact_entry(e));
    lemma_occurs_trans(detail_compact(b, history), compact_entry(e), x);
}

} // verus!
