use bmo_search::model::{Bug, OutputFormat};
use bmo_search::query::{
    advanced_params, advanced_url, bug_url, comments_url, duplicates_heading, duplicates_params,
    duplicates_source_url, duplicates_url, history_url, search_params, search_url,
    similar_heading, similar_params, similar_results, similar_source_url, similar_url,
    split_filter, AdvancedArgs, RequestError, SearchArgs,
};

fn p(k: &str, v: &str) -> (String, String) {
    (k.to_string(), v.to_string())
}

fn search_args() -> SearchArgs {
    SearchArgs {
        terms: vec![],
        product: None,
        component: None,
        status: "open".into(),
        severity: None,
        bug_type: None,
        keywords: None,
        assignee: None,
        whiteboard: None,
        crash_signature: None,
        flag: None,
        created_after: None,
        changed_after: None,
        comments: false,
        limit: 20,
        offset: 0,
        sort: None,
        count: false,
        format: OutputFormat::Compact,
    }
}

const FIELDS: &str = "id,summary,status,resolution,product,component,severity,priority,assigned_to,keywords,last_change_time,creation_time,cf_crash_signature,cf_webcompat_priority,whiteboard,type,flags";

fn bug(id: u64) -> Bug {
    Bug {
        id,
        summary: String::new(),
        status: String::new(),
        resolution: String::new(),
        product: String::new(),
        component: String::new(),
        severity: String::new(),
        priority: String::new(),
        assigned_to: String::new(),
        keywords: vec![],
        last_change_time: String::new(),
        creation_time: String::new(),
        cf_crash_signature: String::new(),
        cf_webcompat_priority: String::new(),
        whiteboard: String::new(),
        bug_type: String::new(),
        url: String::new(),
        depends_on: vec![],
        blocks: vec![],
        see_also: vec![],
        dupe_of: None,
        duplicates: vec![],
        flags: vec![],
        comments: None,
    }
}

#[test]
fn search_params_defaults() {
    assert_eq!(
        search_params(&search_args()),
        vec![
            p("bug_status", "NEW"),
            p("bug_status", "ASSIGNED"),
            p("bug_status", "REOPENED"),
            p("bug_status", "UNCONFIRMED"),
            p("limit", "20"),
            p("include_fields", FIELDS),
        ]
    );
}

#[test]
fn search_params_quicksearch_and_filters() {
    let mut a = search_args();
    a.terms = vec!["webcompat".into(), "navigation".into()];
    a.product = Some("Firefox".into());
    a.component = Some("Networking".into());
    a.status = "all".into();
    a.severity = Some("S1, S2".into());
    a.bug_type = Some("defect".into());
    a.keywords = Some("regression".into());
    a.assignee = Some("someone@mozilla.org".into());
    a.whiteboard = Some("[webcompat]".into());
    a.offset = 40;
    a.sort = Some("changeddate".into());
    assert_eq!(
        search_params(&a),
        vec![
            p("quicksearch", "webcompat navigation"),
            p("product", "Firefox"),
            p("component", "Networking"),
            p("severity", "S1"),
            p("severity", "S2"),
            p("type", "defect"),
            p("assigned_to", "someone@mozilla.org"),
            p("f0", "keywords"),
            p("o0", "anywordssubstr"),
            p("v0", "regression"),
            p("f1", "status_whiteboard"),
            p("o1", "substring"),
            p("v1", "[webcompat]"),
            p("limit", "20"),
            p("offset", "40"),
            p("order", "changeddate"),
            p("include_fields", FIELDS),
        ]
    );
}

#[test]
fn search_params_comments_use_a_grouped_chart() {
    let mut a = search_args();
    a.terms = vec!["layout".into(), "bug".into()];
    a.comments = true;
    a.status = "NEW".into();
    a.count = true;
    a.created_after = Some("2025-01-01".into());
    assert_eq!(
        search_params(&a),
        vec![
            p("bug_status", "NEW"),
            p("f0", "OP"),
            p("j0", "OR"),
            p("f1", "short_desc"),
            p("o1", "allwordssubstr"),
            p("v1", "layout bug"),
            p("f2", "longdesc"),
            p("o2", "allwordssubstr"),
            p("v2", "layout bug"),
            p("f3", "CP"),
            p("f4", "creation_ts"),
            p("o4", "greaterthan"),
            p("v4", "2025-01-01"),
            p("limit", "20"),
            p("count_only", "1"),
        ]
    );
}

#[test]
fn search_url_encodes_the_query() {
    let mut a = search_args();
    a.status = "all".into();
    a.terms = vec!["a b".into()];
    a.count = true;
    let url = search_url(&a).ok().unwrap();
    assert_eq!(url, "https://bugzilla.mozilla.org/rest/bug?quicksearch=a+b&limit=20&count_only=1");
}

fn adv(filters: &[&str]) -> AdvancedArgs {
    AdvancedArgs {
        filters: filters.iter().map(|s| s.to_string()).collect(),
        or: false,
        include_fields: None,
        limit: 20,
        offset: 0,
        count: false,
        format: OutputFormat::Compact,
    }
}

#[test]
fn split_filter_cuts_at_two_colons() {
    assert_eq!(split_filter("product:equals:Firefox"), Some(("product", "equals", "Firefox")));
    assert_eq!(split_filter("url:equals:https://x"), Some(("url", "equals", "https://x")));
    assert_eq!(split_filter("a::"), Some(("a", "", "")));
    assert_eq!(split_filter("product:equals"), None);
    assert_eq!(split_filter("nothing"), None);
}

#[test]
fn advanced_params_or_and_defaults() {
    let mut a = adv(&["product:equals:Firefox", "severity:equals:S1"]);
    a.or = true;
    a.offset = 5;
    let params = advanced_params(&a).ok().unwrap();
    assert_eq!(
        params,
        vec![
            p("j_top", "OR"),
            p("f0", "product"),
            p("o0", "equals"),
            p("v0", "Firefox"),
            p("f1", "severity"),
            p("o1", "equals"),
            p("v1", "S1"),
            p("limit", "20"),
            p("offset", "5"),
            p(
                "include_fields",
                "id,summary,status,resolution,product,component,severity,priority,last_change_time"
            ),
        ]
    );
}

#[test]
fn advanced_params_count_and_fields() {
    let mut a = adv(&[]);
    a.count = true;
    assert_eq!(advanced_params(&a).ok().unwrap(), vec![p("limit", "20"), p("count_only", "1")]);
    a.include_fields = Some("id".into());
    assert_eq!(
        advanced_params(&a).ok().unwrap(),
        vec![p("limit", "20"), p("count_only", "1"), p("include_fields", "id")]
    );
}

#[test]
fn advanced_params_reports_first_bad_filter() {
    let a = adv(&["a:b:c", "bad", "worse"]);
    match advanced_params(&a) {
        Err(RequestError::BadFilter(f)) => assert_eq!(f, "bad"),
        _ => panic!("expected a bad filter"),
    }
    let e = advanced_url(&a).err().unwrap();
    assert_eq!(e.message(), "filter must be 'field:operator:value', got 'bad'");
}

#[test]
fn request_error_messages() {
    assert_eq!(RequestError::InvalidUrl.message(), "failed to build URL");
}

#[test]
fn advanced_url_value() {
    let a = adv(&["product:equals:Fire fox"]);
    assert_eq!(
        advanced_url(&a).ok().unwrap(),
        "https://bugzilla.mozilla.org/rest/bug?f0=product&o0=equals&v0=Fire+fox&limit=20&include_fields=id%2Csummary%2Cstatus%2Cresolution%2Cproduct%2Ccomponent%2Cseverity%2Cpriority%2Clast_change_time"
    );
}

#[test]
fn bug_urls() {
    assert_eq!(bug_url(1234567), "https://bugzilla.mozilla.org/rest/bug/1234567");
    assert_eq!(comments_url(12), "https://bugzilla.mozilla.org/rest/bug/12/comment");
    assert_eq!(history_url(12), "https://bugzilla.mozilla.org/rest/bug/12/history");
    assert_eq!(
        similar_source_url(5),
        "https://bugzilla.mozilla.org/rest/bug/5?include_fields=id,summary,product,component,keywords"
    );
    assert_eq!(
        duplicates_source_url(5),
        "https://bugzilla.mozilla.org/rest/bug/5?include_fields=id,summary,duplicates"
    );
}

#[test]
fn similar_params_with_and_without_product() {
    let fields = "id,summary,status,resolution,product,component,severity,priority,last_change_time,keywords";
    assert_eq!(
        similar_params("crash on start", "", 10),
        vec![p("summary", "crash on start"), p("limit", "10"), p("include_fields", fields)]
    );
    assert_eq!(
        similar_params("crash", "Firefox", 3),
        vec![p("summary", "crash"), p("limit", "3"), p("include_fields", fields), p("product", "Firefox")]
    );
    assert!(similar_url("crash", "Firefox", 3)
        .ok()
        .unwrap()
        .starts_with("https://bugzilla.mozilla.org/rest/bug/possible_duplicates?summary=crash&limit=3"));
}

#[test]
fn similar_results_drop_source_and_limit() {
    let bugs = vec![bug(1), bug(2), bug(1), bug(3), bug(4)];
    let kept: Vec<u64> = similar_results(bugs, 1, 2).iter().map(|b| b.id).collect();
    assert_eq!(kept, vec![2, 3]);
    let bugs = vec![bug(1), bug(2)];
    let kept: Vec<u64> = similar_results(bugs, 1, 20).iter().map(|b| b.id).collect();
    assert_eq!(kept, vec![2]);
}

#[test]
fn similar_heading_text() {
    assert_eq!(similar_heading(9, "title"), "Similar to bug 9 - title");
}

#[test]
fn duplicates_params_and_heading() {
    assert_eq!(
        duplicates_params(&vec![10, 11], 20),
        vec![
            p("include_fields", "id,summary,status,resolution,product,component,severity,last_change_time"),
            p("id", "10"),
            p("id", "11"),
            p("limit", "20"),
        ]
    );
    assert!(duplicates_url(&vec![10], 20).is_ok());
    assert_eq!(duplicates_heading(7, true), "Bugs marked as duplicate of bug 7");
    assert_eq!(duplicates_heading(7, false), "No bugs marked as duplicate of bug 7");
}

#[test]
fn search_params_count_or_fields_last() {
    let mut a = search_args();
    assert_eq!(search_params(&a).last().unwrap(), &p("include_fields", FIELDS));
    a.count = true;
    assert_eq!(search_params(&a).last().unwrap(), &p("count_only", "1"));
    assert!(!search_params(&a).iter().any(|(k, _)| k == "include_fields"));
}
