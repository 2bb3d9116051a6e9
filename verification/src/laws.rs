//! Properties of the library that hold for all inputs.
use vstd::prelude::*;
use crate::chart::{chart_params, key, op_params, ChartOp};
use crate::model::Bug;
use crate::render::{
    bug_link, bugs_compact, bugs_markdown, compact_row, concat, line, markdown_row, status_colon,
    status_paren,
};
use crate::query::{
    other_than, param, params_when, search_param_list, similar_kept, status_params, SearchArgs,
    SEARCH_FIELDS,
};
use crate::status::{spells, status_list, word_all, word_closed, word_open};
use crate::text::{
    before_at, chars_in_bytes, date_short, decimal, digit_char, escape_pipes, join,
    lemma_index_of, lemma_index_of_unique, lemma_split_nonempty, split, utf8_width,
};

verus! {

// ---------------------------------------------------------------------------
// Status keywords
// ---------------------------------------------------------------------------

/// The character with ASCII upper case folded to lower case, as a number.
pub open spec fn fold_case(c: char) -> int {
    if 65 <= (c as u32) <= 90 {
        (c as u32) + 32
    } else {
        c as u32 as int
    }
}

/// `s` and `t` are the same text up to ASCII case.
pub open spec fn same_up_to_case(s: Seq<char>, t: Seq<char>) -> bool {
    s.len() == t.len() && forall|i: int| 0 <= i < s.len() ==> fold_case(s[i]) == fold_case(t[i])
}

/// `w` is made of lower-case ASCII letters.
pub open spec fn lower_word(w: Seq<char>) -> bool {
    forall|i: int| 0 <= i < w.len() ==> 97 <= (#[trigger] w[i] as u32) <= 122
}

proof fn lemma_spells_folded(s: Seq<char>, w: Seq<char>)
    requires
        lower_word(w),
    ensures
        spells(s, w) == (s.len() == w.len() && forall|i: int|
            0 <= i < s.len() ==> fold_case(s[i]) == w[i] as u32 as int),
{
    if s.len() == w.len() {
        if spells(s, w) {
            assert forall|i: int| 0 <= i < s.len() implies fold_case(s[i]) == w[i] as u32 as int by {
                assert(crate::status::same_letter(s[i], w[i]));
            }
        }
        if forall|i: int| 0 <= i < s.len() ==> fold_case(s[i]) == w[i] as u32 as int {
            assert forall|i: int| 0 <= i < s.len() implies crate::status::same_letter(
                s[i],
                w[i],
            ) by {
                assert(fold_case(s[i]) == w[i] as u32 as int);
            }
        }
    }
}

proof fn lemma_spells_up_to_case(s: Seq<char>, t: Seq<char>, w: Seq<char>)
    requires
        lower_word(w),
        same_up_to_case(s, t),
    ensures
        spells(s, w) == spells(t, w),
{
    lemma_spells_folded(s, w);
    lemma_spells_folded(t, w);
    if spells(s, w) {
        assert forall|i: int| 0 <= i < t.len() implies fold_case(t[i]) == w[i] as u32 as int by {
            assert(fold_case(s[i]) == fold_case(t[i]));
        }
    }
    if spells(t, w) {
        assert forall|i: int| 0 <= i < s.len() implies fold_case(s[i]) == w[i] as u32 as int by {
            assert(fold_case(s[i]) == fold_case(t[i]));
        }
    }
}

/// The status keywords `open`, `closed` and `all` are recognised in any
/// case: two values that differ only in ASCII case, one of them a keyword,
/// select the same statuses.
pub proof fn law_status_keywords_ignore_case(s: Seq<char>, t: Seq<char>)
    requires
        same_up_to_case(s, t),
        spells(s, word_open()) || spells(s, word_closed()) || spells(s, word_all()),
    ensures
        status_list(s) == status_list(t),
{
    assert(lower_word(word_open()));
    assert(lower_word(word_closed()));
    assert(lower_word(word_all()));
    lemma_spells_up_to_case(s, t, word_open());
    lemma_spells_up_to_case(s, t, word_closed());
    lemma_spells_up_to_case(s, t, word_all());
}

/// A status value that is not a keyword is split at its commas and nothing
/// else: joined back with commas, the statuses give the value as written.
pub proof fn law_custom_statuses_as_written(s: Seq<char>)
    requires
        !spells(s, word_open()),
        !spells(s, word_closed()),
        !spells(s, word_all()),
    ensures
        join(status_list(s), seq![',']) == s,
{
    lemma_split_join(s, ',');
}

/// Joining the pieces of `split(s, c)` with `c` gives back `s`.
pub proof fn lemma_split_join(s: Seq<char>, c: char)
    ensures
        join(split(s, c), seq![c]) == s,
    decreases s.len(),
{
    if s.len() == 0 {
        assert(split(s, c) =~= seq![Seq::<char>::empty()]);
        assert(s =~= Seq::<char>::empty());
    } else {
        let r = split(s.drop_last(), c);
        lemma_split_join(s.drop_last(), c);
        lemma_split_nonempty(s.drop_last(), c);
        if s.last() == c {
            let r2 = r.push(seq![]);
            assert(r2.drop_last() =~= r);
            assert(join(r2, seq![c]) == join(r, seq![c]) + seq![c] + Seq::<char>::empty());
            assert(join(r2, seq![c]) =~= s);
        } else {
            let r2 = r.update(r.len() - 1, r.last().push(s.last()));
            if r.len() == 1 {
                assert(join(r2, seq![c]) == r2[0]);
                assert(join(r, seq![c]) == r[0]);
                assert(join(r2, seq![c]) =~= s);
            } else {
                assert(r2.drop_last() =~= r.drop_last());
                assert(join(r2, seq![c]) == join(r.drop_last(), seq![c]) + seq![c] + r.last().push(
                    s.last(),
                ));
                assert(join(r, seq![c]) == join(r.drop_last(), seq![c]) + seq![c] + r.last());
                assert(split(s, c) == r2);
                assert(s =~= s.drop_last().push(s.last()));
                assert(join(r2, seq![c]) =~= join(r, seq![c]).push(s.last()));
                assert(join(r2, seq![c]) =~= s);
            }
        }
    }
}

// ---------------------------------------------------------------------------
// Short dates and assignees
// ---------------------------------------------------------------------------

proof fn lemma_chars_in_bytes_take(s: Seq<char>, budget: int, k: int, m: int)
    requires
        chars_in_bytes(s, budget) == Some(k),
        k <= m <= s.len(),
    ensures
        chars_in_bytes(s.take(m), budget) == Some(k),
    decreases s.len(),
{
    if budget != 0 {
        let w = utf8_width(s[0]);
        let k1 = chars_in_bytes(s.drop_first(), budget - w)->0;
        crate::laws::lemma_chars_in_bytes_bounds(s.drop_first(), budget - w);
        lemma_chars_in_bytes_take(s.drop_first(), budget - w, k1, m - 1);
        assert(s.take(m).drop_first() =~= s.drop_first().take(m - 1));
        assert(s.take(m)[0] == s[0]);
    }
}

proof fn lemma_chars_in_bytes_bounds(s: Seq<char>, budget: int)
    ensures
        chars_in_bytes(s, budget) matches Some(k) ==> 0 <= k <= s.len() && (budget != 0 ==> k
            >= 1),
    decreases s.len(),
{
    if budget != 0 && budget >= 0 && s.len() != 0 {
        lemma_chars_in_bytes_bounds(s.drop_first(), budget - utf8_width(s[0]));
    }
}

/// The short form of a date is a prefix of it, and shortening it again
/// changes nothing.
pub proof fn law_date_short(d: Seq<char>)
    ensures
        date_short(d).len() <= d.len(),
        d.take(date_short(d).len() as int) == date_short(d),
        date_short(date_short(d)) == date_short(d),
{
    lemma_chars_in_bytes_bounds(d, 10);
    match chars_in_bytes(d, 10) {
        Some(k) => {
            lemma_chars_in_bytes_take(d, 10, k, k);
            assert(d.take(k).take(k) =~= d.take(k));
        },
        None => {
            assert(d.take(d.len() as int) =~= d);
        },
    }
}

/// The short form of an address is the part before its first `@`: a prefix
/// without `@`, the whole address when it has none, and shortening it again
/// changes nothing.
pub proof fn law_assignee_short(a: Seq<char>)
    ensures
        a.take(before_at(a).len() as int) == before_at(a),
        forall|i: int| 0 <= i < before_at(a).len() ==> before_at(a)[i] != '@',
        (forall|i: int| 0 <= i < a.len() ==> a[i] != '@') ==> before_at(a) == a,
        before_at(a).len() < a.len() ==> a[before_at(a).len() as int] == '@',
        before_at(before_at(a)) == before_at(a),
{
    lemma_index_of(a, '@');
    let b = before_at(a);
    assert forall|i: int| 0 <= i < b.len() implies b[i] != '@' by {
        assert(b[i] == a[i]);
    }
    lemma_index_of_unique(b, '@', b.len() as int);
    assert(b.take(b.len() as int) =~= b);
    if forall|i: int| 0 <= i < a.len() ==> a[i] != '@' {
        lemma_index_of_unique(a, '@', a.len() as int);
        assert(a.take(a.len() as int) =~= a);
    }
}

// ---------------------------------------------------------------------------
// Markdown escaping
// ---------------------------------------------------------------------------

/// In a markdown cell, every `|` that comes from the text is escaped: each
/// `|` of the escaped text follows a backslash. Text without pipes is left
/// as it is.
pub proof fn law_pipes_escaped(s: Seq<char>)
    ensures
        forall|i: int|
            0 <= i < escape_pipes(s).len() && #[trigger] escape_pipes(s)[i] == '|' ==> i >= 1
                && escape_pipes(s)[i - 1] == '\\',
        (forall|i: int| 0 <= i < s.len() ==> s[i] != '|') ==> escape_pipes(s) == s,
    decreases s.len(),
{
    if s.len() > 0 {
        let p = s.drop_last();
        law_pipes_escaped(p);
        let e = escape_pipes(s);
        let ep = escape_pipes(p);
        assert forall|i: int| 0 <= i < e.len() && #[trigger] e[i] == '|' implies i >= 1 && e[i - 1] == '\\' by {
            if i < ep.len() {
                assert(e[i] == ep[i]);
                assert(e[i - 1] == ep[i - 1]);
            }
        }
        if forall|i: int| 0 <= i < s.len() ==> s[i] != '|' {
            assert(s.last() != '|');
            assert forall|i: int| 0 <= i < p.len() implies p[i] != '|' by {
                assert(p[i] == s[i]);
            }
            assert(e =~= s);
        }
    } else {
        assert(escape_pipes(s) =~= s);
    }
}

// ---------------------------------------------------------------------------
// Decimal numbers and chart keys
// ---------------------------------------------------------------------------

proof fn lemma_decimal_len(n: nat)
    ensures
        decimal(n).len() >= 1,
        n >= 10 ==> decimal(n).len() >= 2,
    decreases n,
{
    if n >= 10 {
        lemma_decimal_len(n / 10);
    }
}

proof fn lemma_digit_injective(x: nat, y: nat)
    requires
        x < 10,
        y < 10,
        digit_char(x) == digit_char(y),
    ensures
        x == y,
{
}

/// Different numbers have different decimal representations.
pub proof fn law_decimal_injective(a: nat, b: nat)
    requires
        decimal(a) == decimal(b),
    ensures
        a == b,
    decreases a,
{
    lemma_decimal_len(a);
    lemma_decimal_len(b);
    if a >= 10 && b >= 10 {
        let da = decimal(a);
        let db = decimal(b);
        assert(da.drop_last() =~= decimal(a / 10));
        assert(db.drop_last() =~= decimal(b / 10));
        assert(da.last() == digit_char(a % 10));
        assert(db.last() == digit_char(b % 10));
        lemma_digit_injective(a % 10, b % 10);
        law_decimal_injective(a / 10, b / 10);
    } else if a < 10 && b < 10 {
        assert(decimal(a)[0] == digit_char(a));
        assert(decimal(b)[0] == digit_char(b));
        lemma_digit_injective(a, b);
    }
}

/// The parameter names of different chart operations differ.
pub proof fn law_chart_keys_distinct(letter: char, i: nat, j: nat)
    requires
        i != j,
    ensures
        key(letter, i) != key(letter, j),
{
    if key(letter, i) == key(letter, j) {
        assert(key(letter, i).drop_first() =~= decimal(i));
        assert(key(letter, j).drop_first() =~= decimal(j));
        law_decimal_injective(i, j);
    }
}

/// The parameter has an `f` name.
pub open spec fn is_field_param(p: (Seq<char>, Seq<char>)) -> bool {
    p.0.len() > 0 && p.0[0] == 'f'
}

/// The names of the `f` parameters, in order.
pub open spec fn field_keys(params: Seq<(Seq<char>, Seq<char>)>) -> Seq<Seq<char>> {
    params.filter(|p: (Seq<char>, Seq<char>)| is_field_param(p)).map_values(
        |p: (Seq<char>, Seq<char>)| p.0,
    )
}

proof fn lemma_field_keys_of_op(i: nat, op: ChartOp)
    ensures
        field_keys(op_params(i, op)) == seq![key('f', i)],
{
    reveal_with_fuel(Seq::filter, 4);
    let pred = |p: (Seq<char>, Seq<char>)| is_field_param(p);
    let ps = op_params(i, op);
    assert(key('f', i)[0] == 'f');
    assert(key('o', i)[0] == 'o');
    assert(key('v', i)[0] == 'v');
    assert(key('j', i)[0] == 'j');
    match op {
        ChartOp::Filter(f, o, v) => {
            assert(ps.drop_last().drop_last().drop_last() =~= Seq::<(Seq<char>, Seq<char>)>::empty());
            assert(ps.drop_last().drop_last().filter(pred) =~= seq![(key('f', i), f)]);
            assert(ps.filter(pred) =~= seq![(key('f', i), f)]);
        },
        ChartOp::Open(j) => {
            assert(ps.drop_last().drop_last() =~= Seq::<(Seq<char>, Seq<char>)>::empty());
            assert(ps.filter(pred) =~= seq![(key('f', i), "OP"@)]);
        },
        ChartOp::Close => {
            assert(ps.drop_last() =~= Seq::<(Seq<char>, Seq<char>)>::empty());
            assert(ps.filter(pred) =~= seq![(key('f', i), "CP"@)]);
        },
    }
    assert(field_keys(ps) =~= seq![key('f', i)]);
}

/// Chart operations are numbered consecutively from 0 in the order they are
/// added: the `f` parameters of a chart are `f0`, `f1`, ... , one per
/// operation.
pub proof fn law_chart_numbering(ops: Seq<ChartOp>)
    ensures
        field_keys(chart_params(ops)) == Seq::new(ops.len(), |i: int| key('f', i as nat)),
    decreases ops.len(),
{
    let pred = |p: (Seq<char>, Seq<char>)| is_field_param(p);
    if ops.len() == 0 {
        reveal_with_fuel(Seq::filter, 1);
        assert(field_keys(chart_params(ops)) =~= Seq::new(ops.len(), |i: int| key('f', i as nat)));
    } else {
        let n = (ops.len() - 1) as nat;
        let front = chart_params(ops.drop_last());
        let back = op_params(n, ops.last());
        law_chart_numbering(ops.drop_last());
        lemma_field_keys_of_op(n, ops.last());
        Seq::filter_distributes_over_add(front, back, pred);
        assert(field_keys(front + back) =~= field_keys(front) + field_keys(back));
        assert(field_keys(chart_params(ops)) =~= Seq::new(ops.len(), |i: int| key('f', i as nat)));
    }
}

// ---------------------------------------------------------------------------
// Similar bugs
// ---------------------------------------------------------------------------

/// The bugs shown as similar never include the bug itself, are at most
/// `limit`, and are taken from the answers.
pub proof fn law_similar_excludes_source(bugs: Seq<Bug>, bug_id: u64, limit: u32)
    ensures
        similar_kept(bugs, bug_id, limit).len() <= limit,
        similar_kept(bugs, bug_id, limit).len() <= bugs.len(),
        forall|i: int|
            0 <= i < similar_kept(bugs, bug_id, limit).len() ==> (#[trigger] similar_kept(
                bugs,
                bug_id,
                limit,
            )[i]).id != bug_id,
{
    let others = bugs.filter(other_than(bug_id));
    bugs.lemma_filter_len(other_than(bug_id));
    assert forall|i: int| 0 <= i < others.len() implies others[i].id != bug_id by {
        bugs.lemma_filter_pred(other_than(bug_id), i);
    }
    let r = similar_kept(bugs, bug_id, limit);
    assert forall|i: int| 0 <= i < r.len() implies (#[trigger] r[i]).id != bug_id by {
        assert(r[i] == others[i]);
    }
}

} // verus!

verus! {

// ---------------------------------------------------------------------------
// Lines of the bug lists
// ---------------------------------------------------------------------------

/// The number of times `c` occurs in `s`.
pub open spec fn count_char(s: Seq<char>, c: char) -> nat
    decreases s.len(),
{
    if s.len() == 0 {
        0
    } else {
        count_char(s.drop_last(), c) + if s.last() == c {
            1nat
        } else {
            0nat
        }
    }
}

/// `s` holds no line break.
pub open spec fn one_line(s: Seq<char>) -> bool {
    forall|i: int| 0 <= i < s.len() ==> s[i] != '\n'
}

/// Counting a character over a concatenation adds the counts of the parts.
pub proof fn lemma_count_add(a: Seq<char>, b: Seq<char>, c: char)
    ensures
        count_char(a + b, c) == count_char(a, c) + count_char(b, c),
    decreases b.len(),
{
    if b.len() == 0 {
        assert(a + b =~= a);
    } else {
        lemma_count_add(a, b.drop_last(), c);
        assert((a + b).drop_last() =~= a + b.drop_last());
        assert((a + b).last() == b.last());
    }
}

proof fn lemma_count_none(s: Seq<char>)
    requires
        one_line(s),
    ensures
        count_char(s, '\n') == 0,
    decreases s.len(),
{
    if s.len() > 0 {
        assert(one_line(s.drop_last())) by {
            assert forall|i: int| 0 <= i < s.drop_last().len() implies s.drop_last()[i] != '\n' by {
                assert(s.drop_last()[i] == s[i]);
            }
        }
        lemma_count_none(s.drop_last());
        assert(s.last() == s[s.len() - 1]);
    }
}

proof fn lemma_one_line_add(a: Seq<char>, b: Seq<char>)
    requires
        one_line(a),
        one_line(b),
    ensures
        one_line(a + b),
{
    assert forall|i: int| 0 <= i < (a + b).len() implies (a + b)[i] != '\n' by {
        if i < a.len() {
            assert((a + b)[i] == a[i]);
        } else {
            assert((a + b)[i] == b[i - a.len()]);
        }
    }
}

proof fn lemma_line_count(s: Seq<char>)
    requires
        one_line(s),
    ensures
        count_char(line(s), '\n') == 1,
{
    reveal_strlit("\n");
    lemma_count_none(s);
    lemma_count_add(s, "\n"@, '\n');
    let nl = "\n"@;
    assert(nl.len() == 1);
    assert(nl.last() == '\n');
    assert(nl.drop_last() =~= Seq::<char>::empty());
    assert(count_char(nl.drop_last(), '\n') == 0);
    assert(count_char(nl, '\n') == 1);
}

proof fn lemma_decimal_one_line(n: nat)
    ensures
        one_line(decimal(n)),
    decreases n,
{
    if n >= 10 {
        lemma_decimal_one_line(n / 10);
        lemma_one_line_add(decimal(n / 10), seq![digit_char(n % 10)]);
        assert(decimal(n) =~= decimal(n / 10) + seq![digit_char(n % 10)]);
    }
}

proof fn lemma_date_short_one_line(d: Seq<char>)
    requires
        one_line(d),
    ensures
        one_line(date_short(d)),
{
    law_date_short(d);
    let k = date_short(d).len() as int;
    assert forall|i: int| 0 <= i < k implies date_short(d)[i] != '\n' by {
        assert(date_short(d)[i] == d.take(k)[i]);
    }
}

/// The fields of a bug that its row of a list shows hold no line break.
pub open spec fn row_fields_one_line(b: Bug) -> bool {
    &&& one_line(b.severity@)
    &&& one_line(b.status@)
    &&& one_line(b.resolution@)
    &&& one_line(b.product@)
    &&& one_line(b.component@)
    &&& one_line(b.summary@)
    &&& one_line(b.last_change_time@)
}

proof fn lemma_compact_row_count(b: Bug)
    requires
        row_fields_one_line(b),
    ensures
        count_char(compact_row(b), '\n') == 1,
{
    reveal_strlit("|");
    reveal_strlit(":");
    reveal_strlit("::");
    lemma_decimal_one_line(b.id as nat);
    lemma_date_short_one_line(b.last_change_time@);
    let bar = "|"@;
    assert(one_line(bar));
    assert(one_line("::"@));
    assert(one_line(":"@));
    let st = status_colon(b);
    if b.resolution@.len() != 0 {
        lemma_one_line_add(b.status@, ":"@);
        lemma_one_line_add(b.status@ + ":"@, b.resolution@);
    }
    assert(one_line(st));
    let x1 = decimal(b.id as nat) + bar;
    lemma_one_line_add(decimal(b.id as nat), bar);
    let x2 = x1 + b.severity@;
    lemma_one_line_add(x1, b.severity@);
    let x3 = x2 + bar;
    lemma_one_line_add(x2, bar);
    let x4 = x3 + st;
    lemma_one_line_add(x3, st);
    let x5 = x4 + bar;
    lemma_one_line_add(x4, bar);
    let x6 = x5 + b.product@;
    lemma_one_line_add(x5, b.product@);
    let x7 = x6 + "::"@;
    lemma_one_line_add(x6, "::"@);
    let x8 = x7 + b.component@;
    lemma_one_line_add(x7, b.component@);
    let x9 = x8 + bar;
    lemma_one_line_add(x8, bar);
    let x10 = x9 + b.summary@;
    lemma_one_line_add(x9, b.summary@);
    let x11 = x10 + bar;
    lemma_one_line_add(x10, bar);
    let x12 = x11 + date_short(b.last_change_time@);
    lemma_one_line_add(x11, date_short(b.last_change_time@));
    lemma_line_count(x12);
}

proof fn lemma_rows_count(bugs: Seq<Bug>)
    requires
        forall|i: int| 0 <= i < bugs.len() ==> row_fields_one_line(#[trigger] bugs[i]),
    ensures
        count_char(concat(bugs.map_values(|b: Bug| compact_row(b))), '\n') == bugs.len(),
    decreases bugs.len(),
{
    if bugs.len() > 0 {
        let rows = bugs.map_values(|b: Bug| compact_row(b));
        let front = bugs.drop_last();
        assert(rows.drop_last() =~= front.map_values(|b: Bug| compact_row(b)));
        assert forall|i: int| 0 <= i < front.len() implies row_fields_one_line(
            #[trigger] front[i],
        ) by {
            assert(front[i] == bugs[i]);
        }
        lemma_rows_count(front);
        lemma_compact_row_count(bugs.last());
        assert(rows.last() == compact_row(bugs.last()));
        lemma_count_add(concat(rows.drop_last()), rows.last(), '\n');
    } else {
        let rows = bugs.map_values(|b: Bug| compact_row(b));
        assert(rows.len() == 0);
    }
}

/// The compact list has one line per bug after its two header lines, as
/// long as the fields it shows hold no line break.
pub proof fn law_compact_one_line_per_bug(bugs: Seq<Bug>)
    requires
        forall|i: int| 0 <= i < bugs.len() ==> row_fields_one_line(#[trigger] bugs[i]),
    ensures
        count_char(bugs_compact(bugs), '\n') == bugs.len() + 2,
{
    reveal_strlit("FOUND ");
    reveal_strlit(" bugs\n");
    reveal_strlit("ID|SEVERITY|STATUS|COMPONENT|SUMMARY|CHANGED\n");
    let a = "FOUND "@;
    let b = " bugs\n"@;
    let h = "ID|SEVERITY|STATUS|COMPONENT|SUMMARY|CHANGED\n"@;
    lemma_count_none(a);
    lemma_decimal_one_line(bugs.len());
    lemma_count_none(decimal(bugs.len()));
    assert(b =~= line(" bugs"@)) by {
        reveal_strlit(" bugs");
        reveal_strlit("\n");
    }
    reveal_strlit(" bugs");
    lemma_line_count(" bugs"@);
    assert(h =~= line("ID|SEVERITY|STATUS|COMPONENT|SUMMARY|CHANGED"@)) by {
        reveal_strlit("ID|SEVERITY|STATUS|COMPONENT|SUMMARY|CHANGED");
        reveal_strlit("\n");
    }
    reveal_strlit("ID|SEVERITY|STATUS|COMPONENT|SUMMARY|CHANGED");
    lemma_line_count("ID|SEVERITY|STATUS|COMPONENT|SUMMARY|CHANGED"@);
    lemma_rows_count(bugs);
    let rows = concat(bugs.map_values(|b: Bug| compact_row(b)));
    lemma_count_add(a, decimal(bugs.len()), '\n');
    lemma_count_add(a + decimal(bugs.len()), b, '\n');
    lemma_count_add(a + decimal(bugs.len()) + b, h, '\n');
    lemma_count_add(a + decimal(bugs.len()) + b + h, rows, '\n');
}

} // verus!

verus! {

// ---------------------------------------------------------------------------
// Searches
// ---------------------------------------------------------------------------

/// A search asks either for the number of matching bugs or for their
/// fields, never both: its last parameter is `count_only=1` when counting
/// and the list of fields otherwise.
pub proof fn law_search_count_or_fields(args: SearchArgs)
    ensures
        search_param_list(args).len() > 0,
        search_param_list(args).last() == if args.count {
            ("count_only"@, "1"@)
        } else {
            ("include_fields"@, "id,summary,status,resolution,product,component,severity,priority,assigned_to,keywords,last_change_time,creation_time,cf_crash_signature,cf_webcompat_priority,whiteboard,type,flags"@)
        },
{
    let s = search_param_list(args);
    let tail = params_when(args.count, param("count_only"@, "1"@)) + params_when(
        !args.count,
        param("include_fields"@, SEARCH_FIELDS@),
    );
    assert(tail.len() == 1);
    assert(tail[0] == if args.count {
        ("count_only"@, "1"@)
    } else {
        ("include_fields"@, SEARCH_FIELDS@)
    });
    assert(s[s.len() - 1] == tail[0]);
}

/// `all` selects no status: a search for `all` sends no `bug_status`
/// parameter, so bugs of every status match.
pub proof fn law_status_all_selects_none(status: Seq<char>)
    requires
        spells(status, word_all()),
    ensures
        status_params(status).len() == 0,
{
    assert(!spells(status, word_open()));
    assert(!spells(status, word_closed()));
}

} // verus!

verus! {

proof fn lemma_escape_one_line(s: Seq<char>)
    requires
        one_line(s),
    ensures
        one_line(escape_pipes(s)),
    decreases s.len(),
{
    if s.len() > 0 {
        assert(one_line(s.drop_last())) by {
            assert forall|i: int| 0 <= i < s.drop_last().len() implies s.drop_last()[i] != '\n' by {
                assert(s.drop_last()[i] == s[i]);
            }
        }
        lemma_escape_one_line(s.drop_last());
        assert(s.last() == s[s.len() - 1]);
        let tail = if s.last() == '|' {
            seq!['\\', '|']
        } else {
            seq![s.last()]
        };
        assert(one_line(tail));
        lemma_one_line_add(escape_pipes(s.drop_last()), tail);
    }
}

proof fn lemma_literal_one_line_pieces()
    ensures
        one_line("| "@),
        one_line(" | "@),
        one_line("::"@),
        one_line(" |"@),
        one_line("["@),
        one_line("](https://bugzilla.mozilla.org/show_bug.cgi?id="@),
        one_line(")"@),
        one_line(" ("@),
{
    reveal_strlit("| ");
    reveal_strlit(" | ");
    reveal_strlit("::");
    reveal_strlit(" |");
    reveal_strlit("[");
    reveal_strlit("](https://bugzilla.mozilla.org/show_bug.cgi?id=");
    reveal_strlit(")");
    reveal_strlit(" (");
}

proof fn lemma_bug_link_one_line(d: u64)
    ensures
        one_line(bug_link(d)),
{
    lemma_literal_one_line_pieces();
    lemma_decimal_one_line(d as nat);
    let a = "["@ + decimal(d as nat);
    lemma_one_line_add("["@, decimal(d as nat));
    let b = a + "](https://bugzilla.mozilla.org/show_bug.cgi?id="@;
    lemma_one_line_add(a, "](https://bugzilla.mozilla.org/show_bug.cgi?id="@);
    let c = b + decimal(d as nat);
    lemma_one_line_add(b, decimal(d as nat));
    lemma_one_line_add(c, ")"@);
}

proof fn lemma_markdown_row_count(b: Bug)
    requires
        row_fields_one_line(b),
    ensures
        count_char(markdown_row(b), '\n') == 1,
{
    lemma_literal_one_line_pieces();
    lemma_bug_link_one_line(b.id);
    lemma_date_short_one_line(b.last_change_time@);
    lemma_escape_one_line(b.summary@);
    let st = status_paren(b);
    if b.resolution@.len() != 0 {
        lemma_one_line_add(b.status@, " ("@);
        lemma_one_line_add(b.status@ + " ("@, b.resolution@);
        lemma_one_line_add(b.status@ + " ("@ + b.resolution@, ")"@);
    }
    assert(one_line(st));
    let sep = " | "@;
    let x1 = "| "@ + bug_link(b.id);
    lemma_one_line_add("| "@, bug_link(b.id));
    let x2 = x1 + sep;
    lemma_one_line_add(x1, sep);
    let x3 = x2 + b.severity@;
    lemma_one_line_add(x2, b.severity@);
    let x4 = x3 + sep;
    lemma_one_line_add(x3, sep);
    let x5 = x4 + st;
    lemma_one_line_add(x4, st);
    let x6 = x5 + sep;
    lemma_one_line_add(x5, sep);
    let x7 = x6 + b.product@;
    lemma_one_line_add(x6, b.product@);
    let x8 = x7 + "::"@;
    lemma_one_line_add(x7, "::"@);
    let x9 = x8 + b.component@;
    lemma_one_line_add(x8, b.component@);
    let x10 = x9 + sep;
    lemma_one_line_add(x9, sep);
    let x11 = x10 + escape_pipes(b.summary@);
    lemma_one_line_add(x10, escape_pipes(b.summary@));
    let x12 = x11 + sep;
    lemma_one_line_add(x11, sep);
    let x13 = x12 + date_short(b.last_change_time@);
    lemma_one_line_add(x12, date_short(b.last_change_time@));
    let x14 = x13 + " |"@;
    lemma_one_line_add(x13, " |"@);
    lemma_line_count(x14);
}

proof fn lemma_markdown_rows_count(bugs: Seq<Bug>)
    requires
        forall|i: int| 0 <= i < bugs.len() ==> row_fields_one_line(#[trigger] bugs[i]),
    ensures
        count_char(concat(bugs.map_values(|b: Bug| markdown_row(b))), '\n') == bugs.len(),
    decreases bugs.len(),
{
    if bugs.len() > 0 {
        let rows = bugs.map_values(|b: Bug| markdown_row(b));
        let front = bugs.drop_last();
        assert(rows.drop_last() =~= front.map_values(|b: Bug| markdown_row(b)));
        assert forall|i: int| 0 <= i < front.len() implies row_fields_one_line(
            #[trigger] front[i],
        ) by {
            assert(front[i] == bugs[i]);
        }
        lemma_markdown_rows_count(front);
        lemma_markdown_row_count(bugs.last());
        assert(rows.last() == markdown_row(bugs.last()));
        lemma_count_add(concat(rows.drop_last()), rows.last(), '\n');
    } else {
        let rows = bugs.map_values(|b: Bug| markdown_row(b));
        assert(rows.len() == 0);
    }
}

/// The markdown list has one table row per bug after its four lines of
/// heading (count, blank line, column names, rule), as long as the fields it
/// shows hold no line break.
pub proof fn law_markdown_one_row_per_bug(bugs: Seq<Bug>)
    requires
        forall|i: int| 0 <= i < bugs.len() ==> row_fields_one_line(#[trigger] bugs[i]),
    ensures
        count_char(bugs_markdown(bugs), '\n') == bugs.len() + 4,
{
    let a = "Found **"@;
    let b = "** bugs\n\n"@;
    let h1 = "| Bug | Severity | Status | Component | Summary | Changed |\n"@;
    let h2 = "|-----|----------|--------|-----------|---------|---------|\n"@;
    reveal_strlit("Found **");
    reveal_strlit("** bugs\n\n");
    reveal_strlit("** bugs\n");
    reveal_strlit("** bugs");
    reveal_strlit("\n");
    reveal_strlit("| Bug | Severity | Status | Component | Summary | Changed |\n");
    reveal_strlit("| Bug | Severity | Status | Component | Summary | Changed |");
    reveal_strlit("|-----|----------|--------|-----------|---------|---------|\n");
    reveal_strlit("|-----|----------|--------|-----------|---------|---------|");
    lemma_count_none(a);
    lemma_decimal_one_line(bugs.len());
    lemma_count_none(decimal(bugs.len()));
    assert(b =~= line(line("** bugs"@)));
    lemma_line_count("** bugs"@);
    lemma_count_add(line("** bugs"@), "\n"@, '\n');
    lemma_line_count(Seq::<char>::empty());
    assert("\n"@ =~= line(Seq::<char>::empty()));
    assert(h1 =~= line("| Bug | Severity | Status | Component | Summary | Changed |"@));
    lemma_line_count("| Bug | Severity | Status | Component | Summary | Changed |"@);
    assert(h2 =~= line("|-----|----------|--------|-----------|---------|---------|"@));
    lemma_line_count("|-----|----------|--------|-----------|---------|---------|"@);
    lemma_markdown_rows_count(bugs);
    let rows = concat(bugs.map_values(|b: Bug| markdown_row(b)));
    lemma_count_add(a, decimal(bugs.len()), '\n');
    lemma_count_add(a + decimal(bugs.len()), b, '\n');
    lemma_count_add(a + decimal(bugs.len()) + b, h1, '\n');
    lemma_count_add(a + decimal(bugs.len()) + b + h1, h2, '\n');
    lemma_count_add(a + decimal(bugs.len()) + b + h1 + h2, rows, '\n');
}

} // verus!
