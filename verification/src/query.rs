//! The requests that the commands send to Bugzilla's REST API: their query
//! parameters and URLs, and what is kept of the answers.
use vstd::prelude::*;
use crate::chart::{chart_params, pairs_view, ChartBuilder, ChartOp};
use crate::model::{Bug, OutputFormat};
use crate::status::{status_list, status_to_list};
use crate::text::{
    decimal, index_of, join, push_decimal, push_joined, split, split_commas, trim, trimmed, views,
};

verus! {

/// The root of Bugzilla's REST API on bugzilla.mozilla.org.
pub const BMO_BASE: &'static str = "https://bugzilla.mozilla.org/rest";

/// The fields that a search asks for.
pub const SEARCH_FIELDS: &'static str = "id,summary,status,resolution,product,component,severity,priority,assigned_to,keywords,last_change_time,creation_time,cf_crash_signature,cf_webcompat_priority,whiteboard,type,flags";

/// The fields that the similar-bugs query asks for.
pub const SIMILAR_FIELDS: &'static str = "id,summary,status,resolution,product,component,severity,priority,last_change_time,keywords";

/// The fields that the duplicates query asks for.
pub const DUPLICATE_FIELDS: &'static str = "id,summary,status,resolution,product,component,severity,last_change_time";

/// The fields that an advanced query asks for unless told otherwise.
pub const ADVANCED_FIELDS: &'static str = "id,summary,status,resolution,product,component,severity,priority,last_change_time";

/// A query parameter.
pub open spec fn param(key: Seq<char>, value: Seq<char>) -> Seq<(Seq<char>, Seq<char>)> {
    seq![(key, value)]
}

/// The parameter `key=value` when there is a value.
pub open spec fn opt_param(key: Seq<char>, value: Option<String>) -> Seq<(Seq<char>, Seq<char>)> {
    match value {
        Some(v) => param(key, v@),
        None => seq![],
    }
}

/// `params` when `cond` holds, else none.
pub open spec fn params_when(cond: bool, params: Seq<(Seq<char>, Seq<char>)>) -> Seq<
    (Seq<char>, Seq<char>),
> {
    if cond {
        params
    } else {
        seq![]
    }
}

fn push_param(params: &mut Vec<(String, String)>, key: &str, value: String)
    ensures
        pairs_view(final(params)@) == pairs_view(old(params)@) + param(key@, value@),
{
    let ghost before = pairs_view(params@);
    params.push((String::from_str(key), value));
    assert(pairs_view(params@) =~= before + param(key@, value@));
}

fn push_opt_param(params: &mut Vec<(String, String)>, key: &str, value: &Option<String>)
    ensures
        pairs_view(final(params)@) == pairs_view(old(params)@) + opt_param(key@, *value),
{
    let ghost before = pairs_view(params@);
    match value {
        Some(v) => push_param(params, key, v.clone()),
        None => {},
    }
    assert(pairs_view(params@) =~= before + opt_param(key@, *value));
}

fn push_params(params: &mut Vec<(String, String)>, more: Vec<(String, String)>)
    ensures
        pairs_view(final(params)@) == pairs_view(old(params)@) + pairs_view(more@),
{
    let ghost before = params@;
    let ghost added = more@;
    let mut more = more;
    params.append(&mut more);
    assert(pairs_view(params@) =~= pairs_view(before) + pairs_view(added));
}

// ---------------------------------------------------------------------------
// Search
// ---------------------------------------------------------------------------

/// The options of a search.
pub struct SearchArgs {
    /// Free-text search terms.
    pub terms: Vec<String>,
    pub product: Option<String>,
    pub component: Option<String>,
    /// `open`, `closed`, `all`, or statuses separated by commas.
    pub status: String,
    /// Severities separated by commas.
    pub severity: Option<String>,
    pub bug_type: Option<String>,
    pub keywords: Option<String>,
    pub assignee: Option<String>,
    pub whiteboard: Option<String>,
    pub crash_signature: Option<String>,
    pub flag: Option<String>,
    pub created_after: Option<String>,
    pub changed_after: Option<String>,
    /// Search the comments too (through the chart, not quicksearch).
    pub comments: bool,
    pub limit: u32,
    pub offset: u32,
    pub sort: Option<String>,
    /// Ask only for the number of matching bugs.
    pub count: bool,
    pub format: OutputFormat,
}

/// The free-text terms, separated by spaces.
pub open spec fn search_terms(args: SearchArgs) -> Seq<char> {
    join(views(args.terms@), " "@)
}

/// The condition `field op value` when there is a value.
pub open spec fn opt_filter(field: Seq<char>, op: Seq<char>, value: Option<String>) -> Seq<
    ChartOp,
> {
    match value {
        Some(v) => seq![ChartOp::Filter(field, op, v@)],
        None => seq![],
    }
}

/// The boolean chart of a search: when comments are searched, a group that
/// matches the terms in the summary or in the comments; then the filters
/// that Bugzilla offers only through charts.
pub open spec fn search_chart(args: SearchArgs) -> Seq<ChartOp> {
    (if args.terms@.len() > 0 && args.comments {
        seq![
            ChartOp::Open("OR"@),
            ChartOp::Filter("short_desc"@, "allwordssubstr"@, search_terms(args)),
            ChartOp::Filter("longdesc"@, "allwordssubstr"@, search_terms(args)),
            ChartOp::Close,
        ]
    } else {
        seq![]
    }) + opt_filter("keywords"@, "anywordssubstr"@, args.keywords) + opt_filter(
        "status_whiteboard"@,
        "substring"@,
        args.whiteboard,
    ) + opt_filter("cf_crash_signature"@, "substring"@, args.crash_signature) + opt_filter(
        "flagtypes.name"@,
        "substring"@,
        args.flag,
    ) + opt_filter("creation_ts"@, "greaterthan"@, args.created_after) + opt_filter(
        "delta_ts"@,
        "greaterthan"@,
        args.changed_after,
    )
}

/// One `bug_status` parameter per selected status.
pub open spec fn status_params(status: Seq<char>) -> Seq<(Seq<char>, Seq<char>)> {
    status_list(status).map_values(|s: Seq<char>| ("bug_status"@, s))
}

/// One `severity` parameter per comma-separated severity, trimmed.
pub open spec fn severity_params(severity: Option<String>) -> Seq<(Seq<char>, Seq<char>)> {
    match severity {
        Some(s) => split(s@, ',').map_values(|p: Seq<char>| ("severity"@, trim(p))),
        None => seq![],
    }
}

/// The query parameters of a search, in the order they are sent:
/// quicksearch (for terms, unless comments are searched), product,
/// component, statuses, severities, type, assignee, the chart, limit, offset
/// (when not zero), order, and either `count_only` or the fields to return.
pub open spec fn search_param_list(args: SearchArgs) -> Seq<(Seq<char>, Seq<char>)> {
    params_when(
        args.terms@.len() > 0 && !args.comments,
        param("quicksearch"@, search_terms(args)),
    ) + opt_param("product"@, args.product) + opt_param("component"@, args.component)
        + status_params(args.status@) + severity_params(args.severity) + opt_param(
        "type"@,
        args.bug_type,
    ) + opt_param("assigned_to"@, args.assignee) + chart_params(search_chart(args)) + param(
        "limit"@,
        decimal(args.limit as nat),
    ) + params_when(args.offset > 0, param("offset"@, decimal(args.offset as nat))) + opt_param(
        "order"@,
        args.sort,
    ) + params_when(args.count, param("count_only"@, "1"@)) + params_when(
        !args.count,
        param("include_fields"@, SEARCH_FIELDS@),
    )
}

fn joined_terms(terms: &Vec<String>) -> (s: String)
    ensures
        s@ == join(views(terms@), " "@),
{
    let mut s = String::new();
    push_joined(&mut s, terms, " ");
    assert(s@ =~= join(views(terms@), " "@));
    s
}

fn add_opt_filter(chart: &mut ChartBuilder, field: &str, op: &str, value: &Option<String>)
    requires
        old(chart).wf(),
        old(chart).ops().len() + 1 < u32::MAX,
    ensures
        final(chart).wf(),
        final(chart).ops() == old(chart).ops() + opt_filter(field@, op@, *value),
{
    match value {
        Some(v) => {
            chart.add(field, op, v.as_str());
        },
        None => {},
    }
    assert(chart.ops() =~= old(chart).ops() + opt_filter(field@, op@, *value));
}

fn search_chart_params(args: &SearchArgs) -> (p: Vec<(String, String)>)
    ensures
        pairs_view(p@) == chart_params(search_chart(*args)),
{
    let mut chart = ChartBuilder::new();
    if args.terms.len() > 0 && args.comments {
        let terms = joined_terms(&args.terms);
        chart.open_group("OR");
        chart.add("short_desc", "allwordssubstr", terms.as_str());
        chart.add("longdesc", "allwordssubstr", terms.as_str());
        chart.close_group();
    }
    assert(chart.ops() =~= if args.terms@.len() > 0 && args.comments {
        seq![
            ChartOp::Open("OR"@),
            ChartOp::Filter("short_desc"@, "allwordssubstr"@, search_terms(*args)),
            ChartOp::Filter("longdesc"@, "allwordssubstr"@, search_terms(*args)),
            ChartOp::Close,
        ]
    } else {
        seq![]
    });
    add_opt_filter(&mut chart, "keywords", "anywordssubstr", &args.keywords);
    add_opt_filter(&mut chart, "status_whiteboard", "substring", &args.whiteboard);
    add_opt_filter(&mut chart, "cf_crash_signature", "substring", &args.crash_signature);
    add_opt_filter(&mut chart, "flagtypes.name", "substring", &args.flag);
    add_opt_filter(&mut chart, "creation_ts", "greaterthan", &args.created_after);
    add_opt_filter(&mut chart, "delta_ts", "greaterthan", &args.changed_after);
    assert(chart.ops() =~= search_chart(*args));
    chart.into_params()
}

fn push_status_params(params: &mut Vec<(String, String)>, status: &str)
    ensures
        pairs_view(final(params)@) == pairs_view(old(params)@) + status_params(status@),
{
    let ghost before = pairs_view(params@);
    let statuses = status_to_list(status);
    let ghost all = status_params(status@);
    let n = statuses.len();
    for i in 0..n
        invariant
            n == statuses@.len(),
            statuses@.map_values(|p: &str| p@) == status_list(status@),
            all == status_params(status@),
            pairs_view(params@) == before + all.take(i as int),
    {
        let s = statuses[i];
        assert(statuses@.map_values(|p: &str| p@)[i as int] == s@);
        push_param(params, "bug_status", String::from_str(s));
        assert(all.take(i + 1) =~= all.take(i as int).push(("bug_status"@, s@)));
    }
    assert(all.take(n as int) =~= all);
}

fn push_severity_params(params: &mut Vec<(String, String)>, severity: &Option<String>)
    ensures
        pairs_view(final(params)@) == pairs_view(old(params)@) + severity_params(*severity),
{
    let ghost before = pairs_view(params@);
    match severity {
        Some(sev) => {
            let parts = split_commas(sev.as_str());
            let ghost all = severity_params(*severity);
            let n = parts.len();
            for i in 0..n
                invariant
                    n == parts@.len(),
                    parts@.map_values(|p: &str| p@) == split(sev@, ','),
                    all == split(sev@, ',').map_values(|p: Seq<char>| ("severity"@, trim(p))),
                    pairs_view(params@) == before + all.take(i as int),
            {
                let part = parts[i];
                assert(parts@.map_values(|p: &str| p@)[i as int] == part@);
                push_param(params, "severity", trimmed(part));
                assert(all.take(i + 1) =~= all.take(i as int).push(("severity"@, trim(part@))));
            }
            assert(all.take(n as int) =~= all);
        },
        None => {
            assert(pairs_view(params@) =~= before + severity_params(*severity));
        },
    }
}

/// The query parameters of a search (see `search_param_list`).
pub fn search_params(args: &SearchArgs) -> (p: Vec<(String, String)>)
    ensures
        pairs_view(p@) == search_param_list(*args),
{
    let mut params: Vec<(String, String)> = Vec::new();
    if args.terms.len() > 0 && !args.comments {
        push_param(&mut params, "quicksearch", joined_terms(&args.terms));
    }
    let ghost q = params_when(
        args.terms@.len() > 0 && !args.comments,
        param("quicksearch"@, search_terms(*args)),
    );
    assert(pairs_view(params@) =~= q);
    let chart = search_chart_params(args);
    push_opt_param(&mut params, "product", &args.product);
    push_opt_param(&mut params, "component", &args.component);
    push_status_params(&mut params, args.status.as_str());
    push_severity_params(&mut params, &args.severity);
    push_opt_param(&mut params, "type", &args.bug_type);
    push_opt_param(&mut params, "assigned_to", &args.assignee);
    push_params(&mut params, chart);
    push_param(&mut params, "limit", crate::text::decimal_string(args.limit as u64));
    let ghost s1 = pairs_view(params@);
    if args.offset > 0 {
        push_param(&mut params, "offset", crate::text::decimal_string(args.offset as u64));
    }
    assert(pairs_view(params@) =~= s1 + params_when(
        args.offset > 0,
        param("offset"@, decimal(args.offset as nat)),
    ));
    push_opt_param(&mut params, "order", &args.sort);
    let ghost s2 = pairs_view(params@);
    if args.count {
        push_param(&mut params, "count_only", String::from_str("1"));
    }
    assert(pairs_view(params@) =~= s2 + params_when(args.count, param("count_only"@, "1"@)));
    let ghost s3 = pairs_view(params@);
    if !args.count {
        push_param(&mut params, "include_fields", String::from_str(SEARCH_FIELDS));
    }
    assert(pairs_view(params@) =~= s3 + params_when(
        !args.count,
        param("include_fields"@, SEARCH_FIELDS@),
    ));
    assert(pairs_view(params@) =~= search_param_list(*args));
    params
}

} // verus!

verus! {

// ---------------------------------------------------------------------------
// Advanced queries
// ---------------------------------------------------------------------------

/// The options of an advanced query.
pub struct AdvancedArgs {
    /// `field:operator:value` triplets.
    pub filters: Vec<String>,
    /// Join the conditions with OR instead of AND.
    pub or: bool,
    pub include_fields: Option<String>,
    pub limit: u32,
    pub offset: u32,
    pub count: bool,
    pub format: OutputFormat,
}

/// A filter cut at its first two colons into field, operator and value (as
/// `splitn(3, ':')`); the value keeps any further colons. `None` when the
/// filter has fewer than two colons.
pub open spec fn filter_parts(f: Seq<char>) -> Option<(Seq<char>, Seq<char>, Seq<char>)> {
    let i = index_of(f, ':');
    if i >= f.len() {
        None
    } else {
        let rest = f.skip(i + 1);
        let j = index_of(rest, ':');
        if j >= rest.len() {
            None
        } else {
            Some((f.take(i), rest.take(j), rest.skip(j + 1)))
        }
    }
}

/// The chart condition that a well-formed filter stands for.
pub open spec fn filter_op(f: Seq<char>) -> ChartOp {
    let (field, op, value) = filter_parts(f)->0;
    ChartOp::Filter(field, op, value)
}

/// Every filter has the form `field:operator:value`.
pub open spec fn filters_ok(filters: Seq<String>) -> bool {
    forall|k: int| 0 <= k < filters.len() ==> #[trigger] filter_parts(filters[k]@) is Some
}

/// The query parameters of an advanced query with well-formed filters:
/// `j_top=OR` when asked, the chart of the filters in order, limit, offset
/// (when not zero), `count_only` when asked, and the fields to return (as
/// given, else a default list unless only counting).
pub open spec fn advanced_param_list(args: AdvancedArgs) -> Seq<(Seq<char>, Seq<char>)> {
    params_when(args.or, param("j_top"@, "OR"@)) + chart_params(
        args.filters@.map_values(|f: String| filter_op(f@)),
    ) + param("limit"@, decimal(args.limit as nat)) + params_when(
        args.offset > 0,
        param("offset"@, decimal(args.offset as nat)),
    ) + params_when(args.count, param("count_only"@, "1"@)) + match args.include_fields {
        Some(fields) => param("include_fields"@, fields@),
        None => params_when(!args.count, param("include_fields"@, ADVANCED_FIELDS@)),
    }
}

/// Why a request could not be made.
pub enum RequestError {
    /// A filter is not of the form `field:operator:value`.
    BadFilter(String),
    /// The URL could not be built.
    InvalidUrl,
}

impl RequestError {
    /// The message that explains the error.
    pub fn message(&self) -> (m: String)
        ensures
            match self {
                RequestError::BadFilter(f) => m@ == "filter must be 'field:operator:value', got '"@
                    + f@ + "'"@,
                RequestError::InvalidUrl => m@ == "failed to build URL"@,
            },
    {
        match self {
            RequestError::BadFilter(f) => {
                let mut m = String::from_str("filter must be 'field:operator:value', got '");
                m.append(f.as_str());
                m.append("'");
                m
            },
            RequestError::InvalidUrl => String::from_str("failed to build URL"),
        }
    }
}

/// Cuts a filter into field, operator and value.
pub fn split_filter(f: &str) -> (r: Option<(&str, &str, &str)>)
    ensures
        match r {
            Some((a, b, c)) => filter_parts(f@) == Some((a@, b@, c@)),
            None => filter_parts(f@) is None,
        },
{
    let cs = crate::text::chars_of(f);
    let n = cs.len();
    let i = crate::text::find_char(&cs, ':', 0);
    proof {
        crate::text::lemma_index_of_unique(f@, ':', i as int);
    }
    if i >= n {
        return None;
    }
    let j = crate::text::find_char(&cs, ':', i + 1);
    let ghost rest = f@.skip(i + 1);
    proof {
        assert forall|k: int| 0 <= k < j - (i + 1) implies rest[k] != ':' by {
            assert(rest[k] == cs@[k + i + 1]);
        }
        if j < n {
            assert(rest[j - (i + 1)] == cs@[j as int]);
        }
        crate::text::lemma_index_of_unique(rest, ':', j - (i + 1));
    }
    if j >= n {
        return None;
    }
    let a = f.substring_char(0, i);
    let b = f.substring_char(i + 1, j);
    let c = f.substring_char(j + 1, n);
    assert(b@ =~= rest.take(j - (i + 1)));
    assert(c@ =~= rest.skip(j - (i + 1) + 1));
    Some((a, b, c))
}

/// The query parameters of an advanced query, or the first filter that is
/// not of the form `field:operator:value`.
pub fn advanced_params(args: &AdvancedArgs) -> (r: Result<Vec<(String, String)>, RequestError>)
    requires
        args.filters@.len() < u32::MAX,
    ensures
        match r {
            Ok(p) => filters_ok(args.filters@) && pairs_view(p@) == advanced_param_list(*args),
            Err(RequestError::BadFilter(f)) => exists|k: int|
                0 <= k < args.filters@.len() && filter_parts(#[trigger] args.filters@[k]@) is None
                    && f@ == args.filters@[k]@ && forall|j: int|
                    0 <= j < k ==> filter_parts(#[trigger] args.filters@[j]@) is Some,
            Err(RequestError::InvalidUrl) => false,
        },
{
    let mut chart = ChartBuilder::new();
    let ghost ops = args.filters@.map_values(|f: String| filter_op(f@));
    let n = args.filters.len();
    for k in 0..n
        invariant
            n == args.filters@.len(),
            n < u32::MAX,
            chart.wf(),
            ops == args.filters@.map_values(|f: String| filter_op(f@)),
            chart.ops() == ops.take(k as int),
            forall|j: int| 0 <= j < k ==> filter_parts(#[trigger] args.filters@[j]@) is Some,
    {
        match split_filter(args.filters[k].as_str()) {
            Some((field, op, value)) => {
                chart.add(field, op, value);
                assert(ops.take(k + 1) =~= ops.take(k as int).push(
                    ChartOp::Filter(field@, op@, value@),
                ));
            },
            None => {
                return Err(RequestError::BadFilter(args.filters[k].clone()));
            },
        }
    }
    assert(ops.take(n as int) =~= ops);
    let mut params: Vec<(String, String)> = Vec::new();
    if args.or {
        push_param(&mut params, "j_top", String::from_str("OR"));
    }
    assert(pairs_view(params@) =~= params_when(args.or, param("j_top"@, "OR"@)));
    push_params(&mut params, chart.into_params());
    push_param(&mut params, "limit", crate::text::decimal_string(args.limit as u64));
    let ghost s1 = pairs_view(params@);
    if args.offset > 0 {
        push_param(&mut params, "offset", crate::text::decimal_string(args.offset as u64));
    }
    assert(pairs_view(params@) =~= s1 + params_when(
        args.offset > 0,
        param("offset"@, decimal(args.offset as nat)),
    ));
    let ghost s2 = pairs_view(params@);
    if args.count {
        push_param(&mut params, "count_only", String::from_str("1"));
    }
    assert(pairs_view(params@) =~= s2 + params_when(args.count, param("count_only"@, "1"@)));
    let ghost s3 = pairs_view(params@);
    match &args.include_fields {
        Some(fields) => {
            push_param(&mut params, "include_fields", fields.clone());
        },
        None => {
            if !args.count {
                push_param(&mut params, "include_fields", String::from_str(ADVANCED_FIELDS));
            }
        },
    }
    assert(pairs_view(params@) =~= s3 + match args.include_fields {
        Some(fields) => param("include_fields"@, fields@),
        None => params_when(!args.count, param("include_fields"@, ADVANCED_FIELDS@)),
    });
    assert(pairs_view(params@) =~= advanced_param_list(*args));
    Ok(params)
}

} // verus!

verus! {

// ---------------------------------------------------------------------------
// URLs
// ---------------------------------------------------------------------------

/// The URL that `reqwest::Url::parse_with_params` builds from `base` and the
/// parameters, as text; `None` when `base` is not a valid URL.
pub uninterp spec fn url_with_params(
    base: Seq<char>,
    params: Seq<(Seq<char>, Seq<char>)>,
) -> Option<Seq<char>>;

/// Calls `reqwest::Url::parse_with_params`, which parses `base` and appends
/// the parameters to its query in form encoding. Claimed: the outcome,
/// including whether there is one, is `url_with_params` of `base` and the
/// parameters; nothing is claimed of the text itself.
#[verifier::external_body]
fn parse_with_params(base: &str, params: &Vec<(String, String)>) -> (r: Option<String>)
    ensures
        match r {
            Some(u) => url_with_params(base@, pairs_view(params@)) == Some(u@),
            None => url_with_params(base@, pairs_view(params@)) is None,
        },
{
    match reqwest::Url::parse_with_params(base, params) {
        Ok(u) => Some(String::from(u)),
        Err(_) => None,
    }
}

/// The URL of `endpoint` with the parameters as its query, or `InvalidUrl`.
pub fn request_url(endpoint: &str, params: &Vec<(String, String)>) -> (r: Result<
    String,
    RequestError,
>)
    ensures
        match r {
            Ok(u) => url_with_params(endpoint@, pairs_view(params@)) == Some(u@),
            Err(e) => e is InvalidUrl && url_with_params(endpoint@, pairs_view(params@)) is None,
        },
{
    match parse_with_params(endpoint, params) {
        Some(u) => Ok(u),
        None => Err(RequestError::InvalidUrl),
    }
}

/// The endpoint that lists bugs.
pub open spec fn bug_endpoint() -> Seq<char> {
    BMO_BASE@ + "/bug"@
}

/// The endpoint that finds possible duplicates of a summary.
pub open spec fn possible_duplicates_endpoint() -> Seq<char> {
    BMO_BASE@ + "/bug/possible_duplicates"@
}

/// The address of one bug.
pub open spec fn bug_address(id: u64) -> Seq<char> {
    BMO_BASE@ + "/bug/"@ + decimal(id as nat)
}

fn endpoint(path: &str) -> (s: String)
    ensures
        s@ == BMO_BASE@ + path@,
{
    let mut s = String::from_str(BMO_BASE);
    s.append(path);
    s
}

/// The address of bug `id` followed by `suffix`.
fn bug_address_with(id: u64, suffix: &str) -> (s: String)
    ensures
        s@ == bug_address(id) + suffix@,
{
    let mut s = String::from_str(BMO_BASE);
    s.append("/bug/");
    push_decimal(&mut s, id);
    s.append(suffix);
    assert(s@ =~= bug_address(id) + suffix@);
    s
}

/// The URL of a search.
pub fn search_url(args: &SearchArgs) -> (r: Result<String, RequestError>)
    ensures
        match r {
            Ok(u) => url_with_params(bug_endpoint(), search_param_list(*args)) == Some(u@),
            Err(e) => e is InvalidUrl && url_with_params(bug_endpoint(), search_param_list(*args))
                is None,
        },
{
    let params = search_params(args);
    request_url(endpoint("/bug").as_str(), &params)
}

/// The URL of an advanced query, or why there is none.
pub fn advanced_url(args: &AdvancedArgs) -> (r: Result<String, RequestError>)
    requires
        args.filters@.len() < u32::MAX,
    ensures
        match r {
            Ok(u) => filters_ok(args.filters@) && url_with_params(
                bug_endpoint(),
                advanced_param_list(*args),
            ) == Some(u@),
            Err(RequestError::BadFilter(f)) => exists|k: int|
                0 <= k < args.filters@.len() && filter_parts(#[trigger] args.filters@[k]@) is None
                    && f@ == args.filters@[k]@ && forall|j: int|
                    0 <= j < k ==> filter_parts(#[trigger] args.filters@[j]@) is Some,
            Err(RequestError::InvalidUrl) => filters_ok(args.filters@) && url_with_params(
                bug_endpoint(),
                advanced_param_list(*args),
            ) is None,
        },
{
    let params = advanced_params(args)?;
    request_url(endpoint("/bug").as_str(), &params)
}

/// The URL that fetches one bug with all its fields.
pub fn bug_url(id: u64) -> (s: String)
    ensures
        s@ == bug_address(id),
{
    let mut s = String::from_str(BMO_BASE);
    s.append("/bug/");
    push_decimal(&mut s, id);
    s
}

/// The URL that fetches the comments of a bug.
pub fn comments_url(id: u64) -> (s: String)
    ensures
        s@ == bug_address(id) + "/comment"@,
{
    bug_address_with(id, "/comment")
}

/// The URL that fetches the history of a bug.
pub fn history_url(id: u64) -> (s: String)
    ensures
        s@ == bug_address(id) + "/history"@,
{
    bug_address_with(id, "/history")
}

// ---------------------------------------------------------------------------
// Similar bugs
// ---------------------------------------------------------------------------

/// The URL that fetches what the similar-bugs query needs of the bug.
pub fn similar_source_url(id: u64) -> (s: String)
    ensures
        s@ == bug_address(id) + "?include_fields=id,summary,product,component,keywords"@,
{
    bug_address_with(id, "?include_fields=id,summary,product,component,keywords")
}

/// The parameters of the possible-duplicates query for a bug's summary:
/// the summary, the limit, the fields, and the product when there is one.
pub open spec fn similar_param_list(summary: Seq<char>, product: Seq<char>, limit: u32) -> Seq<
    (Seq<char>, Seq<char>),
> {
    param("summary"@, summary) + param("limit"@, decimal(limit as nat)) + param(
        "include_fields"@,
        SIMILAR_FIELDS@,
    ) + params_when(product.len() > 0, param("product"@, product))
}

/// The parameters of the possible-duplicates query for a bug's summary.
pub fn similar_params(summary: &str, product: &str, limit: u32) -> (p: Vec<(String, String)>)
    ensures
        pairs_view(p@) == similar_param_list(summary@, product@, limit),
{
    let mut params: Vec<(String, String)> = Vec::new();
    push_param(&mut params, "summary", String::from_str(summary));
    push_param(&mut params, "limit", crate::text::decimal_string(limit as u64));
    push_param(&mut params, "include_fields", String::from_str(SIMILAR_FIELDS));
    let ghost s1 = pairs_view(params@);
    if !product.is_empty() {
        push_param(&mut params, "product", String::from_str(product));
    }
    assert(pairs_view(params@) =~= s1 + params_when(
        product@.len() > 0,
        param("product"@, product@),
    ));
    assert(pairs_view(params@) =~= similar_param_list(summary@, product@, limit));
    params
}

/// The URL of the possible-duplicates query for a bug's summary.
pub fn similar_url(summary: &str, product: &str, limit: u32) -> (r: Result<String, RequestError>)
    ensures
        match r {
            Ok(u) => url_with_params(
                possible_duplicates_endpoint(),
                similar_param_list(summary@, product@, limit),
            ) == Some(u@),
            Err(e) => e is InvalidUrl && url_with_params(
                possible_duplicates_endpoint(),
                similar_param_list(summary@, product@, limit),
            ) is None,
        },
{
    let params = similar_params(summary, product, limit);
    request_url(endpoint("/bug/possible_duplicates").as_str(), &params)
}

/// Whether a bug is not bug `bug_id`.
pub open spec fn other_than(bug_id: u64) -> spec_fn(Bug) -> bool {
    |b: Bug| b.id != bug_id
}

/// The bugs other than `bug_id`, in order, at most `limit` of them.
pub open spec fn similar_kept(bugs: Seq<Bug>, bug_id: u64, limit: u32) -> Seq<Bug> {
    let others = bugs.filter(other_than(bug_id));
    if others.len() > limit {
        others.take(limit as int)
    } else {
        others
    }
}

/// The answers to the similar-bugs query that are shown: all but the bug
/// itself, in order, at most `limit` of them.
pub fn similar_results(bugs: Vec<Bug>, bug_id: u64, limit: u32) -> (r: Vec<Bug>)
    ensures
        r@ == similar_kept(bugs@, bug_id, limit),
{
    let ghost all = bugs@;
    let ghost keep = other_than(bug_id);
    let mut kept: Vec<Bug> = Vec::new();
    for b in it: bugs
        invariant
            it.seq() == all,
            keep == other_than(bug_id),
            kept@ == all.take(it.index() as int).filter(keep),
    {
        proof {
            reveal(Seq::filter);
            assert(all.take(it.index() + 1).drop_last() =~= all.take(it.index() as int));
            assert(all.take(it.index() + 1).last() == b);
            assert(all.take(it.index() + 1).filter(keep) == if keep(b) {
                all.take(it.index() as int).filter(keep).push(b)
            } else {
                all.take(it.index() as int).filter(keep)
            });
        }
        if b.id != bug_id {
            kept.push(b);
        }
    }
    assert(all.take(all.len() as int) =~= all);
    if kept.len() > limit as usize {
        kept.truncate(limit as usize);
    }
    kept
}

/// The line that introduces similar bugs: `Similar to bug <id> - <summary>`.
pub fn similar_heading(id: u64, summary: &str) -> (s: String)
    ensures
        s@ == "Similar to bug "@ + decimal(id as nat) + " - "@ + summary@,
{
    let mut s = String::from_str("Similar to bug ");
    push_decimal(&mut s, id);
    s.append(" - ");
    s.append(summary);
    s
}

// ---------------------------------------------------------------------------
// Duplicates
// ---------------------------------------------------------------------------

/// The URL that fetches the ids of the duplicates of a bug.
pub fn duplicates_source_url(id: u64) -> (s: String)
    ensures
        s@ == bug_address(id) + "?include_fields=id,summary,duplicates"@,
{
    bug_address_with(id, "?include_fields=id,summary,duplicates")
}

/// The parameters that fetch the duplicate bugs: the fields, one `id` per
/// duplicate, and the limit.
pub open spec fn duplicates_param_list(ids: Seq<u64>, limit: u32) -> Seq<(Seq<char>, Seq<char>)> {
    param("include_fields"@, DUPLICATE_FIELDS@) + ids.map_values(
        |d: u64| ("id"@, decimal(d as nat)),
    ) + param("limit"@, decimal(limit as nat))
}

/// The parameters that fetch the duplicate bugs.
pub fn duplicates_params(ids: &Vec<u64>, limit: u32) -> (p: Vec<(String, String)>)
    ensures
        pairs_view(p@) == duplicates_param_list(ids@, limit),
{
    let mut params: Vec<(String, String)> = Vec::new();
    push_param(&mut params, "include_fields", String::from_str(DUPLICATE_FIELDS));
    let ghost head = pairs_view(params@);
    let ghost all = ids@.map_values(|d: u64| ("id"@, decimal(d as nat)));
    let n = ids.len();
    for i in 0..n
        invariant
            n == ids@.len(),
            all == ids@.map_values(|d: u64| ("id"@, decimal(d as nat))),
            pairs_view(params@) == head + all.take(i as int),
    {
        push_param(&mut params, "id", crate::text::decimal_string(ids[i]));
        assert(all.take(i + 1) =~= all.take(i as int).push(("id"@, decimal(ids@[i as int] as nat))));
    }
    assert(all.take(n as int) =~= all);
    push_param(&mut params, "limit", crate::text::decimal_string(limit as u64));
    assert(pairs_view(params@) =~= duplicates_param_list(ids@, limit));
    params
}

/// The URL that fetches the duplicate bugs.
pub fn duplicates_url(ids: &Vec<u64>, limit: u32) -> (r: Result<String, RequestError>)
    ensures
        match r {
            Ok(u) => url_with_params(bug_endpoint(), duplicates_param_list(ids@, limit)) == Some(
                u@,
            ),
            Err(e) => e is InvalidUrl && url_with_params(
                bug_endpoint(),
                duplicates_param_list(ids@, limit),
            ) is None,
        },
{
    let params = duplicates_params(ids, limit);
    request_url(endpoint("/bug").as_str(), &params)
}

/// What is printed about the duplicates of bug `id`: a heading when there
/// are duplicates, else a line that says there are none.
pub fn duplicates_heading(id: u64, has_duplicates: bool) -> (s: String)
    ensures
        s@ == if has_duplicates {
            "Bugs marked as duplicate of bug "@ + decimal(id as nat)
        } else {
            "No bugs marked as duplicate of bug "@ + decimal(id as nat)
        },
{
    let mut s = if has_duplicates {
        String::from_str("Bugs marked as duplicate of bug ")
    } else {
        String::from_str("No bugs marked as duplicate of bug ")
    };
    push_decimal(&mut s, id);
    s
}

} // verus!
