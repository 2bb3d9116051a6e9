//! Properties of the rendering of a single bug: the fields that each form
//! shows, for all bugs.
use vstd::prelude::*;
use crate::detail::{
    compact_comments, compact_dates, compact_dupe_of, compact_fields, compact_flags,
    compact_history, compact_links, compact_product, compact_status, compact_title, compact_type,
    detail_compact, detail_markdown, field_row, labelled, labelled_list, list_row,
    markdown_comments, markdown_crash, markdown_dupe_of, markdown_fields, markdown_flags,
    markdown_head, markdown_history, markdown_links, markdown_title, markdown_whiteboard, row,
};
use crate::model::{Bug, HistoryEntry};
use crate::occurs::{lemma_occurs_between, lemma_occurs_in_sum, occurs};
use crate::render::{bug_link, bug_links, flags_text, status_colon, status_paren};
use crate::text::{before_at, date_short, decimal, decimals, escape_pipes, join, views};

verus! {

// ---------------------------------------------------------------------------
// Compact form
// ---------------------------------------------------------------------------

proof fn lemma_line_shows(x: Seq<char>)
    ensures
        occurs(crate::render::line(x), x),
{
    lemma_occurs_between(Seq::<char>::empty(), x, "\n"@);
    assert(crate::render::line(x) =~= Seq::<char>::empty() + x + "\n"@);
}

proof fn lemma_labelled_shows(label: Seq<char>, value: Seq<char>)
    requires
        value.len() > 0,
    ensures
        occurs(labelled(label, value), label + value),
{
    reveal(labelled);
    lemma_line_shows(label + value);
}

proof fn lemma_compact_head_shows(b: Bug)
    ensures
        occurs(crate::detail::compact_head(b), "Bug "@ + decimal(b.id as nat) + " - "@ + b.summary@),
        occurs(crate::detail::compact_head(b), "Status: "@ + status_colon(b)),
        occurs(crate::detail::compact_head(b), "Product: "@ + b.product@ + " :: "@ + b.component@),
{
    let e = Seq::<char>::empty();
    let title = compact_title(b);
    let status = compact_status(b);
    let product = compact_product(b);
    let rest = compact_type(b) + compact_dates(b);
    let t = "Bug "@ + decimal(b.id as nat) + " - "@ + b.summary@;
    let s = "Status: "@ + status_colon(b);
    let s_rest = " | Severity: "@ + b.severity@ + " | Priority: "@ + b.priority@;
    let p = "Product: "@ + b.product@ + " :: "@ + b.component@;
    assert(title == crate::render::line(t)) by {
        reveal(compact_title);
    }
    assert(status =~= e + s + (s_rest + "\n"@)) by {
        reveal(compact_status);
    }
    assert(product == crate::render::line(p)) by {
        reveal(compact_product);
    }
    lemma_line_shows(t);
    lemma_line_shows(p);
    lemma_occurs_between(e, s, s_rest + "\n"@);
    let h = crate::detail::compact_head(b);
    assert(h =~= e + title + (status + product + rest));
    lemma_occurs_in_sum(e, title, status + product + rest, t);
    assert(h =~= title + status + (product + rest));
    lemma_occurs_in_sum(title, status, product + rest, s);
    assert(h =~= (title + status) + product + rest);
    lemma_occurs_in_sum(title + status, product, rest, p);
}

proof fn lemma_compact_head_more(b: Bug)
    ensures
        occurs(
            crate::detail::compact_head(b),
            "Status: "@ + status_colon(b) + " | Severity: "@ + b.severity@ + " | Priority: "@
                + b.priority@,
        ),
        occurs(
            crate::detail::compact_head(b),
            "Type: "@ + b.bug_type@ + " | Assignee: "@ + before_at(b.assigned_to@),
        ),
        occurs(
            crate::detail::compact_head(b),
            "Created: "@ + date_short(b.creation_time@) + " | Changed: "@ + date_short(
                b.last_change_time@,
            ),
        ),
{
    let e = Seq::<char>::empty();
    let title = compact_title(b);
    let status = compact_status(b);
    let product = compact_product(b);
    let ty = compact_type(b);
    let dates = compact_dates(b);
    let s = "Status: "@ + status_colon(b) + " | Severity: "@ + b.severity@ + " | Priority: "@
        + b.priority@;
    let t = "Type: "@ + b.bug_type@ + " | Assignee: "@ + before_at(b.assigned_to@);
    let d = "Created: "@ + date_short(b.creation_time@) + " | Changed: "@ + date_short(
        b.last_change_time@,
    );
    assert(status == crate::render::line(s)) by {
        reveal(compact_status);
    }
    assert(ty == crate::render::line(t)) by {
        reveal(compact_type);
    }
    assert(dates == crate::render::line(d)) by {
        reveal(compact_dates);
    }
    lemma_line_shows(s);
    lemma_line_shows(t);
    lemma_line_shows(d);
    let h = crate::detail::compact_head(b);
    assert(h =~= title + status + (product + ty + dates));
    lemma_occurs_in_sum(title, status, product + ty + dates, s);
    assert(h =~= (title + status + product) + ty + dates);
    lemma_occurs_in_sum(title + status + product, ty, dates, t);
    assert(h =~= (title + status + product + ty) + dates + e);
    lemma_occurs_in_sum(title + status + product + ty, dates, e, d);
}

proof fn lemma_compact_fields_show(b: Bug)
    ensures
        b.whiteboard@.len() > 0 ==> occurs(compact_fields(b), "Whiteboard: "@ + b.whiteboard@),
        b.cf_crash_signature@.len() > 0 ==> occurs(
            compact_fields(b),
            "Crash signature: "@ + b.cf_crash_signature@,
        ),
        b.cf_webcompat_priority@.len() > 0 ==> occurs(
            compact_fields(b),
            "Webcompat priority: "@ + b.cf_webcompat_priority@,
        ),
        b.url@.len() > 0 ==> occurs(compact_fields(b), "URL: "@ + b.url@),
{
    let f = compact_fields(b);
    let kw = labelled_list("Keywords: "@, views(b.keywords@));
    let wb = labelled("Whiteboard: "@, b.whiteboard@);
    let cs = labelled("Crash signature: "@, b.cf_crash_signature@);
    let wp = labelled("Webcompat priority: "@, b.cf_webcompat_priority@);
    let url = labelled("URL: "@, b.url@);
    let fl = compact_flags(b);
    if b.whiteboard@.len() > 0 {
        lemma_labelled_shows("Whiteboard: "@, b.whiteboard@);
        assert(f =~= kw + wb + (cs + wp + url + fl));
        lemma_occurs_in_sum(kw, wb, cs + wp + url + fl, "Whiteboard: "@ + b.whiteboard@);
    }
    if b.cf_crash_signature@.len() > 0 {
        lemma_labelled_shows("Crash signature: "@, b.cf_crash_signature@);
        assert(f =~= (kw + wb) + cs + (wp + url + fl));
        lemma_occurs_in_sum(kw + wb, cs, wp + url + fl, "Crash signature: "@ + b.cf_crash_signature@);
    }
    if b.cf_webcompat_priority@.len() > 0 {
        lemma_labelled_shows("Webcompat priority: "@, b.cf_webcompat_priority@);
        assert(f =~= (kw + wb + cs) + wp + (url + fl));
        lemma_occurs_in_sum(
            kw + wb + cs,
            wp,
            url + fl,
            "Webcompat priority: "@ + b.cf_webcompat_priority@,
        );
    }
    if b.url@.len() > 0 {
        lemma_labelled_shows("URL: "@, b.url@);
        assert(f =~= (kw + wb + cs + wp) + url + fl);
        lemma_occurs_in_sum(kw + wb + cs + wp, url, fl, "URL: "@ + b.url@);
    }
}

/// The compact form of a bug shows its number and summary, its status (with
/// the resolution), severity and priority, its product and component, its
/// type and assignee (the name before the `@`), the dates it was created and
/// last changed, and each of its whiteboard, crash signature, webcompat
/// priority and URL that is not empty.
pub proof fn law_compact_detail_shows_fields(b: Bug, history: Seq<HistoryEntry>)
    ensures
        occurs(detail_compact(b, history), "Bug "@ + decimal(b.id as nat) + " - "@ + b.summary@),
        occurs(detail_compact(b, history), "Status: "@ + status_colon(b)),
        occurs(detail_compact(b, history), "Product: "@ + b.product@ + " :: "@ + b.component@),
        b.whiteboard@.len() > 0 ==> occurs(
            detail_compact(b, history),
            "Whiteboard: "@ + b.whiteboard@,
        ),
        b.cf_crash_signature@.len() > 0 ==> occurs(
            detail_compact(b, history),
            "Crash signature: "@ + b.cf_crash_signature@,
        ),
        b.cf_webcompat_priority@.len() > 0 ==> occurs(
            detail_compact(b, history),
            "Webcompat priority: "@ + b.cf_webcompat_priority@,
        ),
        b.url@.len() > 0 ==> occurs(detail_compact(b, history), "URL: "@ + b.url@),
        occurs(
            detail_compact(b, history),
            "Status: "@ + status_colon(b) + " | Severity: "@ + b.severity@ + " | Priority: "@
                + b.priority@,
        ),
        occurs(
            detail_compact(b, history),
            "Type: "@ + b.bug_type@ + " | Assignee: "@ + before_at(b.assigned_to@),
        ),
        occurs(
            detail_compact(b, history),
            "Created: "@ + date_short(b.creation_time@) + " | Changed: "@ + date_short(
                b.last_change_time@,
            ),
        ),
{
    let e = Seq::<char>::empty();
    let h = crate::detail::compact_head(b);
    let f = compact_fields(b);
    let after = compact_links(b) + compact_comments(b) + compact_history(history);
    let d = detail_compact(b, history);
    assert(d =~= e + h + (f + after));
    assert(d =~= h + f + after);
    lemma_compact_head_shows(b);
    lemma_compact_fields_show(b);
    lemma_compact_head_more(b);
    lemma_occurs_in_sum(
        e,
        h,
        f + after,
        "Status: "@ + status_colon(b) + " | Severity: "@ + b.severity@ + " | Priority: "@
            + b.priority@,
    );
    lemma_occurs_in_sum(
        e,
        h,
        f + after,
        "Type: "@ + b.bug_type@ + " | Assignee: "@ + before_at(b.assigned_to@),
    );
    lemma_occurs_in_sum(
        e,
        h,
        f + after,
        "Created: "@ + date_short(b.creation_time@) + " | Changed: "@ + date_short(
            b.last_change_time@,
        ),
    );
    lemma_occurs_in_sum(e, h, f + after, "Bug "@ + decimal(b.id as nat) + " - "@ + b.summary@);
    lemma_occurs_in_sum(e, h, f + after, "Status: "@ + status_colon(b));
    lemma_occurs_in_sum(e, h, f + after, "Product: "@ + b.product@ + " :: "@ + b.component@);
    if b.whiteboard@.len() > 0 {
        lemma_occurs_in_sum(h, f, after, "Whiteboard: "@ + b.whiteboard@);
    }
    if b.cf_crash_signature@.len() > 0 {
        lemma_occurs_in_sum(h, f, after, "Crash signature: "@ + b.cf_crash_signature@);
    }
    if b.cf_webcompat_priority@.len() > 0 {
        lemma_occurs_in_sum(h, f, after, "Webcompat priority: "@ + b.cf_webcompat_priority@);
    }
    if b.url@.len() > 0 {
        lemma_occurs_in_sum(h, f, after, "URL: "@ + b.url@);
    }
}

// ---------------------------------------------------------------------------
// Markdown form
// ---------------------------------------------------------------------------

proof fn lemma_row_shows(label: Seq<char>, value: Seq<char>)
    ensures
        occurs(row(label, value), "| "@ + label + " | "@ + value + " |"@),
{
    reveal(row);
    lemma_line_shows("| "@ + label + " | "@ + value + " |"@);
}

proof fn lemma_field_row_shows(label: Seq<char>, value: Seq<char>)
    requires
        value.len() > 0,
    ensures
        occurs(field_row(label, value), "| "@ + label + " | "@ + value + " |"@),
{
    reveal(field_row);
    lemma_row_shows(label, value);
}

proof fn lemma_markdown_head_shows(b: Bug)
    ensures
        occurs(markdown_head(b), "# Bug "@ + decimal(b.id as nat) + " - "@ + b.summary@),
        occurs(markdown_head(b), "| Status | "@ + status_paren(b) + " |"@),
        occurs(markdown_head(b), "| Product | "@ + b.product@ + " :: "@ + b.component@ + " |"@),
{
    let e = Seq::<char>::empty();
    let title = markdown_title(b);
    let r0 = "| Field | Value |\n"@ + "|-------|-------|\n"@;
    let status = row("Status"@, status_paren(b));
    let mid = row("Severity"@, b.severity@) + row("Priority"@, b.priority@);
    let pv = b.product@ + " :: "@ + b.component@;
    let product = row("Product"@, pv);
    let rest = row("Type"@, b.bug_type@) + row(
        "Assignee"@,
        crate::text::before_at(b.assigned_to@),
    ) + row("Created"@, crate::text::date_short(b.creation_time@)) + row(
        "Changed"@,
        crate::text::date_short(b.last_change_time@),
    );
    let h = markdown_head(b);
    let t = "# Bug "@ + decimal(b.id as nat) + " - "@ + b.summary@;
    assert(title =~= e + t + ("\n"@ + "\n"@)) by {
        reveal(markdown_title);
    }
    lemma_occurs_between(e, t, "\n"@ + "\n"@);
    assert(h =~= e + title + (r0 + status + mid + product + rest));
    lemma_occurs_in_sum(e, title, r0 + status + mid + product + rest, t);
    assert("| "@ + "Status"@ + " | "@ =~= "| Status | "@) by {
        reveal_strlit("| ");
        reveal_strlit("Status");
        reveal_strlit(" | ");
        reveal_strlit("| Status | ");
    }
    lemma_row_shows("Status"@, status_paren(b));
    assert(h =~= (title + r0) + status + (mid + product + rest));
    lemma_occurs_in_sum(title + r0, status, mid + product + rest, "| Status | "@ + status_paren(b) + " |"@);
    assert("| "@ + "Product"@ + " | "@ =~= "| Product | "@) by {
        reveal_strlit("| ");
        reveal_strlit("Product");
        reveal_strlit(" | ");
        reveal_strlit("| Product | ");
    }
    lemma_row_shows("Product"@, pv);
    assert("| Product | "@ + pv + " |"@ =~= "| Product | "@ + b.product@ + " :: "@ + b.component@ + " |"@);
    assert(h =~= (title + r0 + status + mid) + product + rest);
    lemma_occurs_in_sum(title + r0 + status + mid, product, rest, "| Product | "@ + pv + " |"@);
}

proof fn lemma_markdown_head_severity_priority_type(b: Bug)
    ensures
        occurs(markdown_head(b), "| Severity | "@ + b.severity@ + " |"@),
        occurs(markdown_head(b), "| Priority | "@ + b.priority@ + " |"@),
        occurs(markdown_head(b), "| Type | "@ + b.bug_type@ + " |"@),
{
    let e = Seq::<char>::empty();
    let title = markdown_title(b);
    let r0 = "| Field | Value |\n"@ + "|-------|-------|\n"@;
    let status = row("Status"@, status_paren(b));
    let sev = row("Severity"@, b.severity@);
    let pri = row("Priority"@, b.priority@);
    let product = row("Product"@, b.product@ + " :: "@ + b.component@);
    let ty = row("Type"@, b.bug_type@);
    let asg = row("Assignee"@, before_at(b.assigned_to@));
    let cr = row("Created"@, date_short(b.creation_time@));
    let chg = row("Changed"@, date_short(b.last_change_time@));
    let h = markdown_head(b);
    assert("| "@ + "Severity"@ + " | "@ =~= "| Severity | "@) by {
        reveal_strlit("| ");
        reveal_strlit("Severity");
        reveal_strlit(" | ");
        reveal_strlit("| Severity | ");
    }
    lemma_row_shows("Severity"@, b.severity@);
    assert(h =~= (title + r0 + status) + sev + (pri + product + ty + asg + cr + chg));
    lemma_occurs_in_sum(title + r0 + status, sev, pri + product + ty + asg + cr + chg, "| Severity | "@ + b.severity@ + " |"@);
    assert("| "@ + "Priority"@ + " | "@ =~= "| Priority | "@) by {
        reveal_strlit("| ");
        reveal_strlit("Priority");
        reveal_strlit(" | ");
        reveal_strlit("| Priority | ");
    }
    lemma_row_shows("Priority"@, b.priority@);
    assert(h =~= (title + r0 + status + sev) + pri + (product + ty + asg + cr + chg));
    lemma_occurs_in_sum(title + r0 + status + sev, pri, product + ty + asg + cr + chg, "| Priority | "@ + b.priority@ + " |"@);
    assert("| "@ + "Type"@ + " | "@ =~= "| Type | "@) by {
        reveal_strlit("| ");
        reveal_strlit("Type");
        reveal_strlit(" | ");
        reveal_strlit("| Type | ");
    }
    lemma_row_shows("Type"@, b.bug_type@);
    assert(h =~= (title + r0 + status + sev + pri + product) + ty + (asg + cr + chg));
    lemma_occurs_in_sum(title + r0 + status + sev + pri + product, ty, asg + cr + chg, "| Type | "@ + b.bug_type@ + " |"@);
}

proof fn lemma_markdown_head_assignee_dates(b: Bug)
    ensures
        occurs(markdown_head(b), "| Assignee | "@ + before_at(b.assigned_to@) + " |"@),
        occurs(markdown_head(b), "| Created | "@ + date_short(b.creation_time@) + " |"@),
        occurs(markdown_head(b), "| Changed | "@ + date_short(b.last_change_time@) + " |"@),
{
    let e = Seq::<char>::empty();
    let title = markdown_title(b);
    let r0 = "| Field | Value |\n"@ + "|-------|-------|\n"@;
    let status = row("Status"@, status_paren(b));
    let sev = row("Severity"@, b.severity@);
    let pri = row("Priority"@, b.priority@);
    let product = row("Product"@, b.product@ + " :: "@ + b.component@);
    let ty = row("Type"@, b.bug_type@);
    let asg = row("Assignee"@, before_at(b.assigned_to@));
    let cr = row("Created"@, date_short(b.creation_time@));
    let chg = row("Changed"@, date_short(b.last_change_time@));
    let h = markdown_head(b);
    assert("| "@ + "Assignee"@ + " | "@ =~= "| Assignee | "@) by {
        reveal_strlit("| ");
        reveal_strlit("Assignee");
        reveal_strlit(" | ");
        reveal_strlit("| Assignee | ");
    }
    lemma_row_shows("Assignee"@, before_at(b.assigned_to@));
    assert(h =~= (title + r0 + status + sev + pri + product + ty) + asg + (cr + chg));
    lemma_occurs_in_sum(title + r0 + status + sev + pri + product + ty, asg, cr + chg, "| Assignee | "@ + before_at(b.assigned_to@) + " |"@);
    assert("| "@ + "Created"@ + " | "@ =~= "| Created | "@) by {
        reveal_strlit("| ");
        reveal_strlit("Created");
        reveal_strlit(" | ");
        reveal_strlit("| Created | ");
    }
    lemma_row_shows("Created"@, date_short(b.creation_time@));
    assert(h =~= (title + r0 + status + sev + pri + product + ty + asg) + cr + chg);
    lemma_occurs_in_sum(title + r0 + status + sev + pri + product + ty + asg, cr, chg, "| Created | "@ + date_short(b.creation_time@) + " |"@);
    assert("| "@ + "Changed"@ + " | "@ =~= "| Changed | "@) by {
        reveal_strlit("| ");
        reveal_strlit("Changed");
        reveal_strlit(" | ");
        reveal_strlit("| Changed | ");
    }
    lemma_row_shows("Changed"@, date_short(b.last_change_time@));
    assert(h =~= (title + r0 + status + sev + pri + product + ty + asg + cr) + chg + e);
    lemma_occurs_in_sum(title + r0 + status + sev + pri + product + ty + asg + cr, chg, e, "| Changed | "@ + date_short(b.last_change_time@) + " |"@);
}

proof fn lemma_markdown_fields_show(b: Bug)
    ensures
        b.whiteboard@.len() > 0 ==> occurs(
            markdown_fields(b),
            "| Whiteboard | "@ + escape_pipes(b.whiteboard@) + " |"@,
        ),
        b.cf_crash_signature@.len() > 0 ==> occurs(
            markdown_fields(b),
            "| Crash signature | `"@ + b.cf_crash_signature@ + "` |"@,
        ),
        b.cf_webcompat_priority@.len() > 0 ==> occurs(
            markdown_fields(b),
            "| Webcompat priority | "@ + b.cf_webcompat_priority@ + " |"@,
        ),
        b.url@.len() > 0 ==> occurs(markdown_fields(b), "| URL | "@ + b.url@ + " |"@),
{
    let f = markdown_fields(b);
    let kw = list_row("Keywords"@, views(b.keywords@));
    let wb = markdown_whiteboard(b);
    let cs = markdown_crash(b);
    let wp = field_row("Webcompat priority"@, b.cf_webcompat_priority@);
    let url = field_row("URL"@, b.url@);
    let fl = markdown_flags(b);
    if b.whiteboard@.len() > 0 {
        let v = escape_pipes(b.whiteboard@);
        assert(wb == row("Whiteboard"@, v)) by {
            reveal(markdown_whiteboard);
        }
        lemma_row_shows("Whiteboard"@, v);
        assert("| "@ + "Whiteboard"@ + " | "@ =~= "| Whiteboard | "@) by {
            reveal_strlit("| ");
            reveal_strlit("Whiteboard");
            reveal_strlit(" | ");
            reveal_strlit("| Whiteboard | ");
        }
        assert(f =~= kw + wb + (cs + wp + url + fl));
        lemma_occurs_in_sum(kw, wb, cs + wp + url + fl, "| Whiteboard | "@ + v + " |"@);
    }
    if b.cf_crash_signature@.len() > 0 {
        let c = b.cf_crash_signature@;
        let v = "`"@ + c + "`"@;
        assert(cs == row("Crash signature"@, v)) by {
            reveal(markdown_crash);
        }
        lemma_row_shows("Crash signature"@, v);
        assert("| "@ + "Crash signature"@ + " | "@ + v + " |"@ =~= "| Crash signature | `"@ + c
            + "` |"@) by {
            reveal_strlit("| ");
            reveal_strlit("Crash signature");
            reveal_strlit(" | ");
            reveal_strlit(" |");
            reveal_strlit("`");
            reveal_strlit("| Crash signature | `");
            reveal_strlit("` |");
            reveal_strlit("| Crash signature | ");
            assert("| "@ + "Crash signature"@ + " | "@ =~= "| Crash signature | "@);
            assert("| Crash signature | `"@ =~= "| Crash signature | "@ + "`"@);
            assert("` |"@ =~= "`"@ + " |"@);
        }
        assert(f =~= (kw + wb) + cs + (wp + url + fl));
        lemma_occurs_in_sum(kw + wb, cs, wp + url + fl, "| Crash signature | `"@ + c + "` |"@);
    }
    if b.cf_webcompat_priority@.len() > 0 {
        let v = b.cf_webcompat_priority@;
        lemma_field_row_shows("Webcompat priority"@, v);
        assert("| "@ + "Webcompat priority"@ + " | "@ =~= "| Webcompat priority | "@) by {
            reveal_strlit("| ");
            reveal_strlit("Webcompat priority");
            reveal_strlit(" | ");
            reveal_strlit("| Webcompat priority | ");
        }
        assert(f =~= (kw + wb + cs) + wp + (url + fl));
        lemma_occurs_in_sum(kw + wb + cs, wp, url + fl, "| Webcompat priority | "@ + v + " |"@);
    }
    if b.url@.len() > 0 {
        let v = b.url@;
        lemma_field_row_shows("URL"@, v);
        assert("| "@ + "URL"@ + " | "@ =~= "| URL | "@) by {
            reveal_strlit("| ");
            reveal_strlit("URL");
            reveal_strlit(" | ");
            reveal_strlit("| URL | ");
        }
        assert(f =~= (kw + wb + cs + wp) + url + fl);
        lemma_occurs_in_sum(kw + wb + cs + wp, url, fl, "| URL | "@ + v + " |"@);
    }
}

/// The markdown form of a bug shows its number and summary in the title; a
/// row for its status (with the resolution), severity, priority, product and
/// component, type, assignee (the name before the `@`), and the dates it was
/// created and last changed; and a row for each of its whiteboard (pipes
/// escaped), crash signature (as code), webcompat priority and URL that is
/// not empty.
pub proof fn law_markdown_detail_shows_fields(b: Bug, history: Seq<HistoryEntry>)
    ensures
        occurs(detail_markdown(b, history), "# Bug "@ + decimal(b.id as nat) + " - "@ + b.summary@),
        occurs(detail_markdown(b, history), "| Status | "@ + status_paren(b) + " |"@),
        occurs(
            detail_markdown(b, history),
            "| Product | "@ + b.product@ + " :: "@ + b.component@ + " |"@,
        ),
        b.whiteboard@.len() > 0 ==> occurs(
            detail_markdown(b, history),
            "| Whiteboard | "@ + escape_pipes(b.whiteboard@) + " |"@,
        ),
        b.cf_crash_signature@.len() > 0 ==> occurs(
            detail_markdown(b, history),
            "| Crash signature | `"@ + b.cf_crash_signature@ + "` |"@,
        ),
        b.cf_webcompat_priority@.len() > 0 ==> occurs(
            detail_markdown(b, history),
            "| Webcompat priority | "@ + b.cf_webcompat_priority@ + " |"@,
        ),
        b.url@.len() > 0 ==> occurs(detail_markdown(b, history), "| URL | "@ + b.url@ + " |"@),
        occurs(detail_markdown(b, history), "| Severity | "@ + b.severity@ + " |"@),
        occurs(detail_markdown(b, history), "| Priority | "@ + b.priority@ + " |"@),
        occurs(detail_markdown(b, history), "| Type | "@ + b.bug_type@ + " |"@),
        occurs(detail_markdown(b, history), "| Assignee | "@ + before_at(b.assigned_to@) + " |"@),
        occurs(detail_markdown(b, history), "| Created | "@ + date_short(b.creation_time@) + " |"@),
        occurs(detail_markdown(b, history), "| Changed | "@ + date_short(b.last_change_time@) + " |"@),
{
    let e = Seq::<char>::empty();
    let h = markdown_head(b);
    let f = markdown_fields(b);
    let after = markdown_links(b) + markdown_comments(b) + markdown_history(history);
    let d = detail_markdown(b, history);
    assert(d =~= e + h + (f + after));
    assert(d =~= h + f + after);
    lemma_markdown_head_shows(b);
    lemma_markdown_fields_show(b);
    lemma_markdown_head_severity_priority_type(b);
    lemma_markdown_head_assignee_dates(b);
    lemma_occurs_in_sum(e, h, f + after, "| Severity | "@ + b.severity@ + " |"@);
    lemma_occurs_in_sum(e, h, f + after, "| Priority | "@ + b.priority@ + " |"@);
    lemma_occurs_in_sum(e, h, f + after, "| Type | "@ + b.bug_type@ + " |"@);
    lemma_occurs_in_sum(e, h, f + after, "| Assignee | "@ + before_at(b.assigned_to@) + " |"@);
    lemma_occurs_in_sum(e, h, f + after, "| Created | "@ + date_short(b.creation_time@) + " |"@);
    lemma_occurs_in_sum(e, h, f + after, "| Changed | "@ + date_short(b.last_change_time@) + " |"@);
    lemma_occurs_in_sum(e, h, f + after, "# Bug "@ + decimal(b.id as nat) + " - "@ + b.summary@);
    lemma_occurs_in_sum(e, h, f + after, "| Status | "@ + status_paren(b) + " |"@);
    lemma_occurs_in_sum(
        e,
        h,
        f + after,
        "| Product | "@ + b.product@ + " :: "@ + b.component@ + " |"@,
    );
    if b.whiteboard@.len() > 0 {
        lemma_occurs_in_sum(h, f, after, "| Whiteboard | "@ + escape_pipes(b.whiteboard@) + " |"@);
    }
    if b.cf_crash_signature@.len() > 0 {
        lemma_occurs_in_sum(h, f, after, "| Crash signature | `"@ + b.cf_crash_signature@ + "` |"@);
    }
    if b.cf_webcompat_priority@.len() > 0 {
        lemma_occurs_in_sum(h, f, after, "| Webcompat priority | "@ + b.cf_webcompat_priority@ + " |"@);
    }
    if b.url@.len() > 0 {
        lemma_occurs_in_sum(h, f, after, "| URL | "@ + b.url@ + " |"@);
    }
}

// ---------------------------------------------------------------------------
// Lists and related bugs
// ---------------------------------------------------------------------------

proof fn lemma_labelled_list_shows(label: Seq<char>, items: Seq<Seq<char>>)
    requires
        items.len() > 0,
    ensures
        occurs(labelled_list(label, items), label + join(items, ", "@)),
{
    reveal(labelled_list);
    lemma_line_shows(label + join(items, ", "@));
}

proof fn lemma_list_row_shows(label: Seq<char>, items: Seq<Seq<char>>)
    requires
        items.len() > 0,
    ensures
        occurs(list_row(label, items), "| "@ + label + " | "@ + join(items, ", "@) + " |"@),
{
    reveal(list_row);
    lemma_row_shows(label, join(items, ", "@));
}

proof fn lemma_compact_lists_show(b: Bug)
    ensures
        b.keywords@.len() > 0 ==> occurs(compact_fields(b), "Keywords: "@ + join(views(b.keywords@), ", "@)),
        b.flags@.len() > 0 ==> occurs(compact_fields(b), "Flags: "@ + flags_text(b.flags@)),
        b.depends_on@.len() > 0 ==> occurs(compact_links(b), "Depends on: "@ + join(decimals(b.depends_on@), ", "@)),
        b.blocks@.len() > 0 ==> occurs(compact_links(b), "Blocks: "@ + join(decimals(b.blocks@), ", "@)),
        b.see_also@.len() > 0 ==> occurs(compact_links(b), "See also: "@ + join(views(b.see_also@), ", "@)),
        b.dupe_of is Some ==> occurs(compact_links(b), "Duplicate of: "@ + decimal(b.dupe_of->0 as nat)),
        b.duplicates@.len() > 0 ==> occurs(compact_links(b), "Duplicates: "@ + join(decimals(b.duplicates@), ", "@)),
{
    let e = Seq::<char>::empty();
    let kw = labelled_list("Keywords: "@, views(b.keywords@));
    let wb = labelled("Whiteboard: "@, b.whiteboard@);
    let cs = labelled("Crash signature: "@, b.cf_crash_signature@);
    let wp = labelled("Webcompat priority: "@, b.cf_webcompat_priority@);
    let url = labelled("URL: "@, b.url@);
    let fl = compact_flags(b);
    let dep = labelled_list("Depends on: "@, decimals(b.depends_on@));
    let blk = labelled_list("Blocks: "@, decimals(b.blocks@));
    let see = labelled_list("See also: "@, views(b.see_also@));
    let dof = compact_dupe_of(b);
    let dups = labelled_list("Duplicates: "@, decimals(b.duplicates@));
    if b.keywords@.len() > 0 {
        lemma_labelled_list_shows("Keywords: "@, views(b.keywords@));
        assert(compact_fields(b) =~= e + kw + (wb + cs + wp + url + fl));
        lemma_occurs_in_sum(e, kw, wb + cs + wp + url + fl, "Keywords: "@ + join(views(b.keywords@), ", "@));
    }
    if b.flags@.len() > 0 {
        assert(fl == crate::render::line("Flags: "@ + flags_text(b.flags@))) by {
            reveal(compact_flags);
        }
        lemma_line_shows("Flags: "@ + flags_text(b.flags@));
        assert(compact_fields(b) =~= (kw + wb + cs + wp + url) + fl + e);
        lemma_occurs_in_sum(kw + wb + cs + wp + url, fl, e, "Flags: "@ + flags_text(b.flags@));
    }
    if b.depends_on@.len() > 0 {
        lemma_labelled_list_shows("Depends on: "@, decimals(b.depends_on@));
        assert(compact_links(b) =~= e + dep + (blk + see + dof + dups));
        lemma_occurs_in_sum(e, dep, blk + see + dof + dups, "Depends on: "@ + join(decimals(b.depends_on@), ", "@));
    }
    if b.blocks@.len() > 0 {
        lemma_labelled_list_shows("Blocks: "@, decimals(b.blocks@));
        assert(compact_links(b) =~= dep + blk + (see + dof + dups));
        lemma_occurs_in_sum(dep, blk, see + dof + dups, "Blocks: "@ + join(decimals(b.blocks@), ", "@));
    }
    if b.see_also@.len() > 0 {
        lemma_labelled_list_shows("See also: "@, views(b.see_also@));
        assert(compact_links(b) =~= (dep + blk) + see + (dof + dups));
        lemma_occurs_in_sum(dep + blk, see, dof + dups, "See also: "@ + join(views(b.see_also@), ", "@));
    }
    if b.dupe_of is Some {
        assert(dof == crate::render::line("Duplicate of: "@ + decimal(b.dupe_of->0 as nat))) by {
            reveal(compact_dupe_of);
        }
        lemma_line_shows("Duplicate of: "@ + decimal(b.dupe_of->0 as nat));
        assert(compact_links(b) =~= (dep + blk + see) + dof + dups);
        lemma_occurs_in_sum(dep + blk + see, dof, dups, "Duplicate of: "@ + decimal(b.dupe_of->0 as nat));
    }
    if b.duplicates@.len() > 0 {
        lemma_labelled_list_shows("Duplicates: "@, decimals(b.duplicates@));
        assert(compact_links(b) =~= (dep + blk + see + dof) + dups + e);
        lemma_occurs_in_sum(dep + blk + see + dof, dups, e, "Duplicates: "@ + join(decimals(b.duplicates@), ", "@));
    }
}

proof fn lemma_markdown_lists_show(b: Bug)
    ensures
        b.keywords@.len() > 0 ==> occurs(markdown_fields(b), "| Keywords | "@ + join(views(b.keywords@), ", "@) + " |"@),
        b.flags@.len() > 0 ==> occurs(markdown_fields(b), "| Flags | "@ + flags_text(b.flags@) + " |"@),
        b.depends_on@.len() > 0 ==> occurs(markdown_links(b), "| Depends on | "@ + join(bug_links(b.depends_on@), ", "@) + " |"@),
        b.blocks@.len() > 0 ==> occurs(markdown_links(b), "| Blocks | "@ + join(bug_links(b.blocks@), ", "@) + " |"@),
        b.see_also@.len() > 0 ==> occurs(markdown_links(b), "| See also | "@ + join(views(b.see_also@), ", "@) + " |"@),
        b.dupe_of is Some ==> occurs(markdown_links(b), "| Duplicate of | "@ + bug_link(b.dupe_of->0) + " |"@),
        b.duplicates@.len() > 0 ==> occurs(markdown_links(b), "| Duplicates | "@ + join(bug_links(b.duplicates@), ", "@) + " |"@),
{
    let e = Seq::<char>::empty();
    let kw = list_row("Keywords"@, views(b.keywords@));
    let wb = markdown_whiteboard(b);
    let cs = markdown_crash(b);
    let wp = field_row("Webcompat priority"@, b.cf_webcompat_priority@);
    let url = field_row("URL"@, b.url@);
    let fl = markdown_flags(b);
    let dep = list_row("Depends on"@, bug_links(b.depends_on@));
    let blk = list_row("Blocks"@, bug_links(b.blocks@));
    let see = list_row("See also"@, views(b.see_also@));
    let dof = markdown_dupe_of(b);
    let dups = list_row("Duplicates"@, bug_links(b.duplicates@));
    if b.keywords@.len() > 0 {
        assert("| "@ + "Keywords"@ + " | "@ =~= "| Keywords | "@) by {
            reveal_strlit("| ");
            reveal_strlit("Keywords");
            reveal_strlit(" | ");
            reveal_strlit("| Keywords | ");
        }
        lemma_list_row_shows("Keywords"@, views(b.keywords@));
        assert(markdown_fields(b) =~= e + kw + (wb + cs + wp + url + fl));
        lemma_occurs_in_sum(e, kw, wb + cs + wp + url + fl, "| Keywords | "@ + join(views(b.keywords@), ", "@) + " |"@);
    }
    if b.flags@.len() > 0 {
        assert("| "@ + "Flags"@ + " | "@ =~= "| Flags | "@) by {
            reveal_strlit("| ");
            reveal_strlit("Flags");
            reveal_strlit(" | ");
            reveal_strlit("| Flags | ");
        }
        assert(fl == row("Flags"@, flags_text(b.flags@))) by {
            reveal(markdown_flags);
        }
        lemma_row_shows("Flags"@, flags_text(b.flags@));
        assert(markdown_fields(b) =~= (kw + wb + cs + wp + url) + fl + e);
        lemma_occurs_in_sum(kw + wb + cs + wp + url, fl, e, "| Flags | "@ + flags_text(b.flags@) + " |"@);
    }
    if b.depends_on@.len() > 0 {
        assert("| "@ + "Depends on"@ + " | "@ =~= "| Depends on | "@) by {
            reveal_strlit("| ");
            reveal_strlit("Depends on");
            reveal_strlit(" | ");
            reveal_strlit("| Depends on | ");
        }
        lemma_list_row_shows("Depends on"@, bug_links(b.depends_on@));
        assert(markdown_links(b) =~= e + dep + (blk + see + dof + dups));
        lemma_occurs_in_sum(e, dep, blk + see + dof + dups, "| Depends on | "@ + join(bug_links(b.depends_on@), ", "@) + " |"@);
    }
    if b.blocks@.len() > 0 {
        assert("| "@ + "Blocks"@ + " | "@ =~= "| Blocks | "@) by {
            reveal_strlit("| ");
            reveal_strlit("Blocks");
            reveal_strlit(" | ");
            reveal_strlit("| Blocks | ");
        }
        lemma_list_row_shows("Blocks"@, bug_links(b.blocks@));
        assert(markdown_links(b) =~= dep + blk + (see + dof + dups));
        lemma_occurs_in_sum(dep, blk, see + dof + dups, "| Blocks | "@ + join(bug_links(b.blocks@), ", "@) + " |"@);
    }
    if b.see_also@.len() > 0 {
        assert("| "@ + "See also"@ + " | "@ =~= "| See also | "@) by {
            reveal_strlit("| ");
            reveal_strlit("See also");
            reveal_strlit(" | ");
            reveal_strlit("| See also | ");
        }
        lemma_list_row_shows("See also"@, views(b.see_also@));
        assert(markdown_links(b) =~= (dep + blk) + see + (dof + dups));
        lemma_occurs_in_sum(dep + blk, see, dof + dups, "| See also | "@ + join(views(b.see_also@), ", "@) + " |"@);
    }
    if b.dupe_of is Some {
        assert("| "@ + "Duplicate of"@ + " | "@ =~= "| Duplicate of | "@) by {
            reveal_strlit("| ");
            reveal_strlit("Duplicate of");
            reveal_strlit(" | ");
            reveal_strlit("| Duplicate of | ");
        }
        assert(dof == row("Duplicate of"@, bug_link(b.dupe_of->0))) by {
            reveal(markdown_dupe_of);
        }
        lemma_row_shows("Duplicate of"@, bug_link(b.dupe_of->0));
        assert(markdown_links(b) =~= (dep + blk + see) + dof + dups);
        lemma_occurs_in_sum(dep + blk + see, dof, dups, "| Duplicate of | "@ + bug_link(b.dupe_of->0) + " |"@);
    }
    if b.duplicates@.len() > 0 {
        assert("| "@ + "Duplicates"@ + " | "@ =~= "| Duplicates | "@) by {
            reveal_strlit("| ");
            reveal_strlit("Duplicates");
            reveal_strlit(" | ");
            reveal_strlit("| Duplicates | ");
        }
        lemma_list_row_shows("Duplicates"@, bug_links(b.duplicates@));
        assert(markdown_links(b) =~= (dep + blk + see + dof) + dups + e);
        lemma_occurs_in_sum(dep + blk + see + dof, dups, e, "| Duplicates | "@ + join(bug_links(b.duplicates@), ", "@) + " |"@);
    }
}

/// Both forms of a bug show its keywords and flags, the bugs it depends on
/// and blocks, its see-also links, the bug it duplicates and its duplicates,
/// each when there are any: in the compact form as numbers, in the markdown
/// form as links to the bugs.
pub proof fn law_detail_shows_lists(b: Bug, history: Seq<HistoryEntry>)
    ensures
        b.keywords@.len() > 0 ==> occurs(detail_compact(b, history), "Keywords: "@ + join(views(b.keywords@), ", "@)),
        b.flags@.len() > 0 ==> occurs(detail_compact(b, history), "Flags: "@ + flags_text(b.flags@)),
        b.depends_on@.len() > 0 ==> occurs(detail_compact(b, history), "Depends on: "@ + join(decimals(b.depends_on@), ", "@)),
        b.blocks@.len() > 0 ==> occurs(detail_compact(b, history), "Blocks: "@ + join(decimals(b.blocks@), ", "@)),
        b.see_also@.len() > 0 ==> occurs(detail_compact(b, history), "See also: "@ + join(views(b.see_also@), ", "@)),
        b.dupe_of is Some ==> occurs(detail_compact(b, history), "Duplicate of: "@ + decimal(b.dupe_of->0 as nat)),
        b.duplicates@.len() > 0 ==> occurs(detail_compact(b, history), "Duplicates: "@ + join(decimals(b.duplicates@), ", "@)),
        b.keywords@.len() > 0 ==> occurs(detail_markdown(b, history), "| Keywords | "@ + join(views(b.keywords@), ", "@) + " |"@),
        b.flags@.len() > 0 ==> occurs(detail_markdown(b, history), "| Flags | "@ + flags_text(b.flags@) + " |"@),
        b.depends_on@.len() > 0 ==> occurs(detail_markdown(b, history), "| Depends on | "@ + join(bug_links(b.depends_on@), ", "@) + " |"@),
        b.blocks@.len() > 0 ==> occurs(detail_markdown(b, history), "| Blocks | "@ + join(bug_links(b.blocks@), ", "@) + " |"@),
        b.see_also@.len() > 0 ==> occurs(detail_markdown(b, history), "| See also | "@ + join(views(b.see_also@), ", "@) + " |"@),
        b.dupe_of is Some ==> occurs(detail_markdown(b, history), "| Duplicate of | "@ + bug_link(b.dupe_of->0) + " |"@),
        b.duplicates@.len() > 0 ==> occurs(detail_markdown(b, history), "| Duplicates | "@ + join(bug_links(b.duplicates@), ", "@) + " |"@),
{
    let ch = crate::detail::compact_head(b);
    let cf = compact_fields(b);
    let cl = compact_links(b);
    let crest = compact_comments(b) + compact_history(history);
    assert(detail_compact(b, history) =~= ch + cf + (cl + crest));
    assert(detail_compact(b, history) =~= (ch + cf) + cl + crest);
    let mh = markdown_head(b);
    let mf = markdown_fields(b);
    let ml = markdown_links(b);
    let mrest = markdown_comments(b) + markdown_history(history);
    assert(detail_markdown(b, history) =~= mh + mf + (ml + mrest));
    assert(detail_markdown(b, history) =~= (mh + mf) + ml + mrest);
    lemma_compact_lists_show(b);
    lemma_markdown_lists_show(b);
    if b.keywords@.len() > 0 {
        lemma_occurs_in_sum(ch, cf, cl + crest, "Keywords: "@ + join(views(b.keywords@), ", "@));
        lemma_occurs_in_sum(mh, mf, ml + mrest, "| Keywords | "@ + join(views(b.keywords@), ", "@) + " |"@);
    }
    if b.flags@.len() > 0 {
        lemma_occurs_in_sum(ch, cf, cl + crest, "Flags: "@ + flags_text(b.flags@));
        lemma_occurs_in_sum(mh, mf, ml + mrest, "| Flags | "@ + flags_text(b.flags@) + " |"@);
    }
    if b.depends_on@.len() > 0 {
        lemma_occurs_in_sum(ch + cf, cl, crest, "Depends on: "@ + join(decimals(b.depends_on@), ", "@));
        lemma_occurs_in_sum(mh + mf, ml, mrest, "| Depends on | "@ + join(bug_links(b.depends_on@), ", "@) + " |"@);
    }
    if b.blocks@.len() > 0 {
        lemma_occurs_in_sum(ch + cf, cl, crest, "Blocks: "@ + join(decimals(b.blocks@), ", "@));
        lemma_occurs_in_sum(mh + mf, ml, mrest, "| Blocks | "@ + join(bug_links(b.blocks@), ", "@) + " |"@);
    }
    if b.see_also@.len() > 0 {
        lemma_occurs_in_sum(ch + cf, cl, crest, "See also: "@ + join(views(b.see_also@), ", "@));
        lemma_occurs_in_sum(mh + mf, ml, mrest, "| See also | "@ + join(views(b.see_also@), ", "@) + " |"@);
    }
    if b.dupe_of is Some {
        lemma_occurs_in_sum(ch + cf, cl, crest, "Duplicate of: "@ + decimal(b.dupe_of->0 as nat));
        lemma_occurs_in_sum(mh + mf, ml, mrest, "| Duplicate of | "@ + bug_link(b.dupe_of->0) + " |"@);
    }
    if b.duplicates@.len() > 0 {
        lemma_occurs_in_sum(ch + cf, cl, crest, "Duplicates: "@ + join(decimals(b.duplicates@), ", "@));
        lemma_occurs_in_sum(mh + mf, ml, mrest, "| Duplicates | "@ + join(bug_links(b.duplicates@), ", "@) + " |"@);
    }
}

} // verus!
