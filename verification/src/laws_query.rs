//! Properties of the requests: which conditions and parameters every search
//! and every advanced query sends, for all options.
use vstd::prelude::*;
use crate::chart::{chart_params, key, op_params, ChartOp};
use crate::laws::{count_char, lemma_count_add};
use crate::occurs::{lemma_occurs_left, lemma_occurs_right, lemma_occurs_self, occurs, occurs_at};
use crate::query::{
    advanced_param_list, filter_op, filter_parts, filters_ok, opt_param, param, params_when,
    search_chart, search_param_list, search_terms, severity_params, status_params,
    AdvancedArgs, SearchArgs, ADVANCED_FIELDS, SEARCH_FIELDS,
};
use crate::status::{spells, status_list, word_all, word_closed, word_open};
use crate::text::{decimal, index_of, join, lemma_index_of, split, trim, views};

verus! {

/// A list of query parameters.
pub type Params = Seq<(Seq<char>, Seq<char>)>;

/// The three parameters of chart condition number `k`: `field op value`.
pub open spec fn condition(k: nat, field: Seq<char>, op: Seq<char>, value: Seq<char>) -> Params {
    seq![(key('f', k), field), (key('o', k), op), (key('v', k), value)]
}

/// The parameters hold the chart condition `field op value`, under some
/// number.
pub open spec fn has_condition(params: Params, field: Seq<char>, op: Seq<char>, value: Seq<char>) -> bool {
    exists|k: nat| #[trigger] occurs(params, condition(k, field, op, value))
}

/// The parameters hold the pair `key=value`.
pub open spec fn has_param(params: Params, k: Seq<char>, v: Seq<char>) -> bool {
    occurs(params, seq![(k, v)])
}

proof fn lemma_elem_occurs<T>(s: Seq<T>, i: int)
    requires
        0 <= i < s.len(),
    ensures
        occurs(s, seq![s[i]]),
{
    assert(s.subrange(i, i + 1) =~= seq![s[i]]);
    assert(occurs_at(s, seq![s[i]], i));
}

/// The parameters of operation `k` occur in the parameters of the chart.
proof fn lemma_chart_params_occurs(ops: Seq<ChartOp>, k: int)
    requires
        0 <= k < ops.len(),
    ensures
        occurs(chart_params(ops), op_params(k as nat, ops[k])),
    decreases ops.len(),
{
    let front = ops.drop_last();
    if k == ops.len() - 1 {
        lemma_occurs_self(op_params(k as nat, ops[k]));
        lemma_occurs_left(chart_params(front), op_params(k as nat, ops[k]), op_params(k as nat, ops[k]));
    } else {
        assert(front[k] == ops[k]);
        lemma_chart_params_occurs(front, k);
        lemma_occurs_right(
            chart_params(front),
            op_params((ops.len() - 1) as nat, ops.last()),
            op_params(k as nat, ops[k]),
        );
    }
}

// ---------------------------------------------------------------------------
// Searches
// ---------------------------------------------------------------------------

/// Piece `i` of a search's parameters, in the order they are sent.
pub open spec fn search_piece(args: SearchArgs, i: int) -> Params {
    if i == 0 {
        params_when(args.terms@.len() > 0 && !args.comments, param("quicksearch"@, search_terms(args)))
    } else if i == 1 {
        opt_param("product"@, args.product)
    } else if i == 2 {
        opt_param("component"@, args.component)
    } else if i == 3 {
        status_params(args.status@)
    } else if i == 4 {
        severity_params(args.severity)
    } else if i == 5 {
        opt_param("type"@, args.bug_type)
    } else if i == 6 {
        opt_param("assigned_to"@, args.assignee)
    } else if i == 7 {
        chart_params(search_chart(args))
    } else if i == 8 {
        param("limit"@, decimal(args.limit as nat))
    } else if i == 9 {
        params_when(args.offset > 0, param("offset"@, decimal(args.offset as nat)))
    } else if i == 10 {
        opt_param("order"@, args.sort)
    } else if i == 11 {
        params_when(args.count, param("count_only"@, "1"@))
    } else {
        params_when(!args.count, param("include_fields"@, SEARCH_FIELDS@))
    }
}

/// The first `n + 1` pieces of a search's parameters.
pub open spec fn search_prefix(args: SearchArgs, n: int) -> Params
    decreases n,
{
    if n <= 0 {
        search_piece(args, 0)
    } else {
        search_prefix(args, n - 1) + search_piece(args, n)
    }
}

proof fn lemma_search_prefix_all(args: SearchArgs)
    ensures
        search_prefix(args, 12) == search_param_list(args),
{
    reveal_with_fuel(search_prefix, 13);
}

proof fn lemma_search_lift(args: SearchArgs, i: int, n: int, x: Params)
    requires
        0 <= i <= n <= 12,
        occurs(search_piece(args, i), x),
    ensures
        occurs(search_prefix(args, n), x),
    decreases n,
{
    if n == i {
        if i > 0 {
            lemma_occurs_left(search_prefix(args, i - 1), search_piece(args, i), x);
        }
    } else {
        lemma_search_lift(args, i, n - 1, x);
        lemma_occurs_right(search_prefix(args, n - 1), search_piece(args, n), x);
    }
}

/// What occurs in a piece of a search's parameters occurs in them.
proof fn lemma_in_search(args: SearchArgs, i: int, x: Params)
    requires
        0 <= i <= 12,
        occurs(search_piece(args, i), x),
    ensures
        occurs(search_param_list(args), x),
{
    lemma_search_lift(args, i, 12, x);
    lemma_search_prefix_all(args);
}

proof fn lemma_search_condition(args: SearchArgs, k: int, field: Seq<char>, op: Seq<char>, value: Seq<char>)
    requires
        0 <= k < search_chart(args).len(),
        search_chart(args)[k] == ChartOp::Filter(field, op, value),
    ensures
        has_condition(search_param_list(args), field, op, value),
{
    lemma_chart_params_occurs(search_chart(args), k);
    assert(op_params(k as nat, search_chart(args)[k]) == condition(k as nat, field, op, value));
    lemma_in_search(args, 7, condition(k as nat, field, op, value));
}

/// Every chart option of a search becomes its condition, with its field and
/// its operator: keywords match any word, the whiteboard, crash signature
/// and flag match substrings, and the dates select bugs created or changed
/// after them.
pub proof fn law_search_conditions(args: SearchArgs)
    ensures
        args.keywords matches Some(v) ==> has_condition(
            search_param_list(args),
            "keywords"@,
            "anywordssubstr"@,
            v@,
        ),
        args.whiteboard matches Some(v) ==> has_condition(
            search_param_list(args),
            "status_whiteboard"@,
            "substring"@,
            v@,
        ),
        args.crash_signature matches Some(v) ==> has_condition(
            search_param_list(args),
            "cf_crash_signature"@,
            "substring"@,
            v@,
        ),
        args.flag matches Some(v) ==> has_condition(
            search_param_list(args),
            "flagtypes.name"@,
            "substring"@,
            v@,
        ),
        args.created_after matches Some(v) ==> has_condition(
            search_param_list(args),
            "creation_ts"@,
            "greaterthan"@,
            v@,
        ),
        args.changed_after matches Some(v) ==> has_condition(
            search_param_list(args),
            "delta_ts"@,
            "greaterthan"@,
            v@,
        ),
{
    let ops = search_chart(args);
    let g: int = if args.terms@.len() > 0 && args.comments {
        4
    } else {
        0
    };
    let kw: int = if args.keywords is Some {
        1
    } else {
        0
    };
    let wb: int = if args.whiteboard is Some {
        1
    } else {
        0
    };
    let cs: int = if args.crash_signature is Some {
        1
    } else {
        0
    };
    let fl: int = if args.flag is Some {
        1
    } else {
        0
    };
    let cr: int = if args.created_after is Some {
        1
    } else {
        0
    };
    if let Some(v) = args.keywords {
        assert(ops[g] == ChartOp::Filter("keywords"@, "anywordssubstr"@, v@));
        lemma_search_condition(args, g, "keywords"@, "anywordssubstr"@, v@);
    }
    if let Some(v) = args.whiteboard {
        assert(ops[g + kw] == ChartOp::Filter("status_whiteboard"@, "substring"@, v@));
        lemma_search_condition(args, g + kw, "status_whiteboard"@, "substring"@, v@);
    }
    if let Some(v) = args.crash_signature {
        assert(ops[g + kw + wb] == ChartOp::Filter("cf_crash_signature"@, "substring"@, v@));
        lemma_search_condition(args, g + kw + wb, "cf_crash_signature"@, "substring"@, v@);
    }
    if let Some(v) = args.flag {
        assert(ops[g + kw + wb + cs] == ChartOp::Filter("flagtypes.name"@, "substring"@, v@));
        lemma_search_condition(args, g + kw + wb + cs, "flagtypes.name"@, "substring"@, v@);
    }
    if let Some(v) = args.created_after {
        assert(ops[g + kw + wb + cs + fl] == ChartOp::Filter("creation_ts"@, "greaterthan"@, v@));
        lemma_search_condition(args, g + kw + wb + cs + fl, "creation_ts"@, "greaterthan"@, v@);
    }
    if let Some(v) = args.changed_after {
        assert(ops[g + kw + wb + cs + fl + cr] == ChartOp::Filter("delta_ts"@, "greaterthan"@, v@));
        lemma_search_condition(args, g + kw + wb + cs + fl + cr, "delta_ts"@, "greaterthan"@, v@);
    }
}

/// When comments are searched, the terms are matched in the summary or in
/// the comments: the chart starts with an OR group of the two conditions,
/// and no quicksearch is sent. Otherwise free-text terms go first, as
/// quicksearch.
pub proof fn law_search_terms(args: SearchArgs)
    ensures
        args.terms@.len() > 0 && args.comments ==> {
            &&& search_chart(args).len() >= 4
            &&& search_chart(args)[0] == ChartOp::Open("OR"@)
            &&& search_chart(args)[1] == ChartOp::Filter(
                "short_desc"@,
                "allwordssubstr"@,
                join(views(args.terms@), " "@),
            )
            &&& search_chart(args)[2] == ChartOp::Filter(
                "longdesc"@,
                "allwordssubstr"@,
                join(views(args.terms@), " "@),
            )
            &&& search_chart(args)[3] == ChartOp::Close
            &&& has_condition(
                search_param_list(args),
                "short_desc"@,
                "allwordssubstr"@,
                join(views(args.terms@), " "@),
            )
            &&& has_condition(
                search_param_list(args),
                "longdesc"@,
                "allwordssubstr"@,
                join(views(args.terms@), " "@),
            )
        },
        args.terms@.len() > 0 && !args.comments ==> search_param_list(args).len() > 0
            && search_param_list(args)[0] == ("quicksearch"@, join(views(args.terms@), " "@)),
{
    let t = join(views(args.terms@), " "@);
    if args.terms@.len() > 0 && args.comments {
        let ops = search_chart(args);
        assert(ops[1] == ChartOp::Filter("short_desc"@, "allwordssubstr"@, t));
        assert(ops[2] == ChartOp::Filter("longdesc"@, "allwordssubstr"@, t));
        lemma_search_condition(args, 1, "short_desc"@, "allwordssubstr"@, t);
        lemma_search_condition(args, 2, "longdesc"@, "allwordssubstr"@, t);
    }
    if args.terms@.len() > 0 && !args.comments {
        lemma_search_prefix_all(args);
        lemma_elem_occurs(search_piece(args, 0), 0);
        reveal_with_fuel(search_prefix, 13);
        let s = search_param_list(args);
        assert(s[0] == search_piece(args, 0)[0]);
    }
}

/// Every plain option of a search is sent under its name: product,
/// component, type, assignee, order, limit, and offset when it is not zero.
pub proof fn law_search_plain_params(args: SearchArgs)
    ensures
        args.product matches Some(v) ==> has_param(search_param_list(args), "product"@, v@),
        args.component matches Some(v) ==> has_param(search_param_list(args), "component"@, v@),
        args.bug_type matches Some(v) ==> has_param(search_param_list(args), "type"@, v@),
        args.assignee matches Some(v) ==> has_param(search_param_list(args), "assigned_to"@, v@),
        args.sort matches Some(v) ==> has_param(search_param_list(args), "order"@, v@),
        has_param(search_param_list(args), "limit"@, decimal(args.limit as nat)),
        args.offset > 0 ==> has_param(
            search_param_list(args),
            "offset"@,
            decimal(args.offset as nat),
        ),
{
    if let Some(v) = args.product {
        lemma_occurs_self(seq![("product"@, v@)]);
        lemma_in_search(args, 1, seq![("product"@, v@)]);
    }
    if let Some(v) = args.component {
        lemma_occurs_self(seq![("component"@, v@)]);
        lemma_in_search(args, 2, seq![("component"@, v@)]);
    }
    if let Some(v) = args.bug_type {
        lemma_occurs_self(seq![("type"@, v@)]);
        lemma_in_search(args, 5, seq![("type"@, v@)]);
    }
    if let Some(v) = args.assignee {
        lemma_occurs_self(seq![("assigned_to"@, v@)]);
        lemma_in_search(args, 6, seq![("assigned_to"@, v@)]);
    }
    if let Some(v) = args.sort {
        lemma_occurs_self(seq![("order"@, v@)]);
        lemma_in_search(args, 10, seq![("order"@, v@)]);
    }
    lemma_occurs_self(seq![("limit"@, decimal(args.limit as nat))]);
    lemma_in_search(args, 8, seq![("limit"@, decimal(args.limit as nat))]);
    if args.offset > 0 {
        lemma_occurs_self(seq![("offset"@, decimal(args.offset as nat))]);
        lemma_in_search(args, 9, seq![("offset"@, decimal(args.offset as nat))]);
    }
}

/// Every selected status is sent as `bug_status`, and every comma-separated
/// severity, trimmed, as `severity`.
pub proof fn law_search_statuses_and_severities(args: SearchArgs)
    ensures
        forall|i: int|
            0 <= i < status_list(args.status@).len() ==> has_param(
                search_param_list(args),
                "bug_status"@,
                #[trigger] status_list(args.status@)[i],
            ),
        args.severity matches Some(s) ==> forall|i: int|
            0 <= i < split(s@, ',').len() ==> has_param(
                search_param_list(args),
                "severity"@,
                trim(#[trigger] split(s@, ',')[i]),
            ),
{
    assert forall|i: int| 0 <= i < status_list(args.status@).len() implies has_param(
        search_param_list(args),
        "bug_status"@,
        #[trigger] status_list(args.status@)[i],
    ) by {
        let ps = status_params(args.status@);
        lemma_elem_occurs(ps, i);
        assert(ps[i] == ("bug_status"@, status_list(args.status@)[i]));
        lemma_in_search(args, 3, seq![ps[i]]);
    }
    if let Some(s) = args.severity {
        assert forall|i: int| 0 <= i < split(s@, ',').len() implies has_param(
            search_param_list(args),
            "severity"@,
            trim(#[trigger] split(s@, ',')[i]),
        ) by {
            let ps = severity_params(args.severity);
            lemma_elem_occurs(ps, i);
            assert(ps[i] == ("severity"@, trim(split(s@, ',')[i])));
            lemma_in_search(args, 4, seq![ps[i]]);
        }
    }
}

// ---------------------------------------------------------------------------
// Advanced queries
// ---------------------------------------------------------------------------

/// A filter is cut at its first two colons: field and operator hold no
/// colon, and field, `:`, operator, `:`, value give the filter back. A
/// filter with fewer than two colons has no parts.
pub proof fn law_filter_parts(f: Seq<char>)
    ensures
        filter_parts(f) matches Some((a, b, c)) ==> {
            &&& a + seq![':'] + b + seq![':'] + c == f
            &&& forall|i: int| 0 <= i < a.len() ==> a[i] != ':'
            &&& forall|i: int| 0 <= i < b.len() ==> b[i] != ':'
        },
        filter_parts(f) is None <==> count_char(f, ':') < 2,
{
    lemma_index_of(f, ':');
    let i = index_of(f, ':');
    if i >= f.len() {
        lemma_count_without(f, ':');
    } else {
        let rest = f.skip(i + 1);
        lemma_index_of(rest, ':');
        let j = index_of(rest, ':');
        lemma_count_without(f.take(i), ':');
        assert(f =~= f.take(i) + seq![':'] + rest);
        lemma_count_add3(f.take(i), seq![':'], rest, ':');
        lemma_count_single(':');
        if j >= rest.len() {
            lemma_count_without(rest, ':');
        } else {
            assert(rest =~= rest.take(j) + seq![':'] + rest.skip(j + 1));
            lemma_count_add3(rest.take(j), seq![':'], rest.skip(j + 1), ':');
            assert forall|k: int| 0 <= k < rest.take(j).len() implies rest.take(j)[k] != ':' by {
                assert(rest.take(j)[k] == rest[k]);
            }
            assert forall|k: int| 0 <= k < f.take(i).len() implies f.take(i)[k] != ':' by {
                assert(f.take(i)[k] == f[k]);
            }
            assert(f.take(i) + seq![':'] + rest.take(j) + seq![':'] + rest.skip(j + 1) =~= f);
        }
    }
}

proof fn lemma_count_single(c: char)
    ensures
        count_char(seq![c], c) == 1,
{
    let s = seq![c];
    assert(s.drop_last() =~= Seq::<char>::empty());
    assert(count_char(s.drop_last(), c) == 0);
    assert(s.last() == c);
}

proof fn lemma_count_without(s: Seq<char>, c: char)
    requires
        forall|i: int| 0 <= i < s.len() ==> s[i] != c,
    ensures
        count_char(s, c) == 0,
    decreases s.len(),
{
    if s.len() > 0 {
        assert forall|i: int| 0 <= i < s.drop_last().len() implies s.drop_last()[i] != c by {
            assert(s.drop_last()[i] == s[i]);
        }
        lemma_count_without(s.drop_last(), c);
        assert(s.last() == s[s.len() - 1]);
    }
}

proof fn lemma_count_add3(a: Seq<char>, b: Seq<char>, d: Seq<char>, c: char)
    ensures
        count_char(a + b + d, c) == count_char(a, c) + count_char(b, c) + count_char(d, c),
{
    lemma_count_add(a, b, c);
    lemma_count_add(a + b, d, c);
}

/// Piece `i` of an advanced query's parameters, in the order they are sent.
pub open spec fn advanced_piece(args: AdvancedArgs, i: int) -> Params {
    if i == 0 {
        params_when(args.or, param("j_top"@, "OR"@))
    } else if i == 1 {
        chart_params(args.filters@.map_values(|f: String| filter_op(f@)))
    } else if i == 2 {
        param("limit"@, decimal(args.limit as nat))
    } else if i == 3 {
        params_when(args.offset > 0, param("offset"@, decimal(args.offset as nat)))
    } else if i == 4 {
        params_when(args.count, param("count_only"@, "1"@))
    } else {
        match args.include_fields {
            Some(fields) => param("include_fields"@, fields@),
            None => params_when(!args.count, param("include_fields"@, ADVANCED_FIELDS@)),
        }
    }
}

proof fn lemma_in_advanced(args: AdvancedArgs, i: int, x: Params)
    requires
        0 <= i <= 5,
        occurs(advanced_piece(args, i), x),
    ensures
        occurs(advanced_param_list(args), x),
{
    let p0 = advanced_piece(args, 0);
    let p1 = advanced_piece(args, 1);
    let p2 = advanced_piece(args, 2);
    let p3 = advanced_piece(args, 3);
    let p4 = advanced_piece(args, 4);
    let p5 = advanced_piece(args, 5);
    assert(advanced_param_list(args) == p0 + p1 + p2 + p3 + p4 + p5);
    if i == 0 {
        lemma_occurs_right(p0, p1, x);
    } else if i == 1 {
        lemma_occurs_left(p0, p1, x);
    }
    if i <= 1 {
        lemma_occurs_right(p0 + p1, p2, x);
    } else if i == 2 {
        lemma_occurs_left(p0 + p1, p2, x);
    }
    if i <= 2 {
        lemma_occurs_right(p0 + p1 + p2, p3, x);
    } else if i == 3 {
        lemma_occurs_left(p0 + p1 + p2, p3, x);
    }
    if i <= 3 {
        lemma_occurs_right(p0 + p1 + p2 + p3, p4, x);
    } else if i == 4 {
        lemma_occurs_left(p0 + p1 + p2 + p3, p4, x);
    }
    if i <= 4 {
        lemma_occurs_right(p0 + p1 + p2 + p3 + p4, p5, x);
    } else {
        lemma_occurs_left(p0 + p1 + p2 + p3 + p4, p5, x);
    }
}

/// Every filter `field:operator:value` of an advanced query becomes chart
/// condition number `k`, its position among the filters.
pub proof fn law_advanced_filters(args: AdvancedArgs, k: int)
    requires
        filters_ok(args.filters@),
        0 <= k < args.filters@.len(),
    ensures
        filter_parts(args.filters@[k]@) matches Some((a, b, c)) && occurs(
            advanced_param_list(args),
            condition(k as nat, a, b, c),
        ),
{
    let ops = args.filters@.map_values(|f: String| filter_op(f@));
    assert(filter_parts(args.filters@[k]@) is Some);
    let (a, b, c) = filter_parts(args.filters@[k]@)->0;
    assert(ops[k] == ChartOp::Filter(a, b, c));
    lemma_chart_params_occurs(ops, k);
    assert(op_params(k as nat, ops[k]) == condition(k as nat, a, b, c));
    lemma_in_advanced(args, 1, condition(k as nat, a, b, c));
}

/// The fields that an advanced query asks for: the last parameter is the
/// user's `include_fields` whenever one is given, whether counting or not;
/// otherwise the default field list, unless only counting, when the last
/// parameter is `count_only=1`. Conditions are joined by OR exactly when
/// asked, through a first `j_top=OR`, and the limit is always sent.
pub proof fn law_advanced_fields_and_junction(args: AdvancedArgs)
    ensures
        advanced_param_list(args).len() > 0,
        advanced_param_list(args).last() == match args.include_fields {
            Some(f) => ("include_fields"@, f@),
            None => if args.count {
                ("count_only"@, "1"@)
            } else {
                ("include_fields"@, "id,summary,status,resolution,product,component,severity,priority,last_change_time"@)
            },
        },
        args.or ==> advanced_param_list(args)[0] == ("j_top"@, "OR"@),
        has_param(advanced_param_list(args), "limit"@, decimal(args.limit as nat)),
{
    let s = advanced_param_list(args);
    let p4 = advanced_piece(args, 4);
    let p5 = advanced_piece(args, 5);
    let head = advanced_piece(args, 0) + advanced_piece(args, 1) + advanced_piece(args, 2)
        + advanced_piece(args, 3);
    assert(s == head + p4 + p5);
    if args.include_fields is Some || !args.count {
        assert(p5.len() == 1);
        assert(s[s.len() - 1] == p5[0]);
    } else {
        assert(p5.len() == 0);
        assert(p4.len() == 1);
        assert(s[s.len() - 1] == p4[0]);
    }
    if args.or {
        assert(s[0] == advanced_piece(args, 0)[0]);
    }
    lemma_occurs_self(seq![("limit"@, decimal(args.limit as nat))]);
    lemma_in_advanced(args, 2, seq![("limit"@, decimal(args.limit as nat))]);
}

// ---------------------------------------------------------------------------
// Custom status lists
// ---------------------------------------------------------------------------

proof fn lemma_split_pieces(s: Seq<char>, c: char)
    ensures
        split(s, c).len() == count_char(s, c) + 1,
        forall|i: int, j: int|
            0 <= i < split(s, c).len() && 0 <= j < split(s, c)[i].len() ==> #[trigger] split(
                s,
                c,
            )[i][j] != c,
    decreases s.len(),
{
    if s.len() > 0 {
        let r = split(s.drop_last(), c);
        lemma_split_pieces(s.drop_last(), c);
        let x = s.last();
        if x == c {
            let r2 = r.push(seq![]);
            assert forall|i: int, j: int| 0 <= i < r2.len() && 0 <= j < r2[i].len() implies #[trigger] r2[i][j] != c by {
                if i < r.len() {
                    assert(r2[i] == r[i]);
                }
            }
        } else {
            let r2 = r.update(r.len() - 1, r.last().push(x));
            assert forall|i: int, j: int| 0 <= i < r2.len() && 0 <= j < r2[i].len() implies #[trigger] r2[i][j] != c by {
                if i < r.len() - 1 {
                    assert(r2[i] == r[i]);
                } else {
                    assert(r2[i] == r[r.len() - 1].push(x));
                    if j < r[r.len() - 1].len() {
                        assert(r2[i][j] == r[r.len() - 1][j]);
                    }
                }
            }
        }
    }
}

/// A status value that is not a keyword is cut at every comma: no selected
/// status holds a comma, and there is one status more than there are commas.
pub proof fn law_custom_statuses_split_at_every_comma(s: Seq<char>)
    requires
        !spells(s, word_open()),
        !spells(s, word_closed()),
        !spells(s, word_all()),
    ensures
        status_list(s).len() == count_char(s, ',') + 1,
        forall|i: int, j: int|
            0 <= i < status_list(s).len() && 0 <= j < status_list(s)[i].len() ==> #[trigger] status_list(
                s,
            )[i][j] != ',',
{
    lemma_split_pieces(s, ',');
}

} // verus!
