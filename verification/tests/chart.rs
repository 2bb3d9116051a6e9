use bmo_search::chart::ChartBuilder;

fn pair(k: &str, v: &str) -> (String, String) {
    (k.to_string(), v.to_string())
}

#[test]
fn chart_builder_single_filter() {
    let mut chart = ChartBuilder::new();
    chart.add("product", "equals", "Firefox");
    let params = chart.into_params();
    assert_eq!(
        params,
        vec![
            ("f0".to_string(), "product".to_string()),
            ("o0".to_string(), "equals".to_string()),
            ("v0".to_string(), "Firefox".to_string()),
        ]
    );
}

#[test]
fn chart_builder_multiple_filters() {
    let mut chart = ChartBuilder::new();
    chart.add("product", "equals", "Firefox");
    chart.add("severity", "equals", "S1");
    let params = chart.into_params();
    assert_eq!(params.len(), 6);
    assert_eq!(params[0], ("f0".to_string(), "product".to_string()));
    assert_eq!(params[3], ("f1".to_string(), "severity".to_string()));
}

#[test]
fn chart_builder_grouped() {
    let mut chart = ChartBuilder::new();
    chart.open_group("OR");
    chart.add("short_desc", "substring", "crash");
    chart.add("longdesc", "substring", "crash");
    chart.close_group();
    let params = chart.into_params();
    assert_eq!(params[0], ("f0".to_string(), "OP".to_string()));
    assert_eq!(params[1], ("j0".to_string(), "OR".to_string()));
    assert_eq!(params[2], ("f1".to_string(), "short_desc".to_string()));
    assert_eq!(params[5], ("f2".to_string(), "longdesc".to_string()));
    assert_eq!(params[8], ("f3".to_string(), "CP".to_string()));
}

#[test]
fn chart_builder_empty() {
    assert!(ChartBuilder::new().into_params().is_empty());
}

#[test]
fn chart_builder_numbers_past_nine() {
    let mut chart = ChartBuilder::new();
    for _ in 0..11 {
        chart.close_group();
    }
    let params = chart.into_params();
    assert_eq!(params[10], pair("f10", "CP"));
}
