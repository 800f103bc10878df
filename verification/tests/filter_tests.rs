use jaslog::filter::{parse_filters, passes_filters, Filter, FilterKind};
use jaslog::json::JsonValue;

fn s(text: &str) -> JsonValue {
    JsonValue::Str(text.to_string())
}

fn build_line() -> JsonValue {
    JsonValue::Obj(vec![
        ("app".to_string(), s("drive")),
        ("module".to_string(), s("Elixir.Drive.FlinkJob")),
    ])
}

#[test]
fn test_parse_filter_equal() {
    assert_eq!(
        Filter::from("mykey=m'value").unwrap(),
        Filter::equals("mykey", "m'value")
    );
}

#[test]
fn test_parse_filter_contains() {
    assert_eq!(
        Filter::from("the_key=+search_for").unwrap(),
        Filter::contains("the_key", "search_for"),
    );
}

#[test]
fn test_parse_filter_not_contains() {
    assert_eq!(
        Filter::from("the_key=^search=for").unwrap(),
        Filter::not_contains("the_key", "search=for"),
    );
}

#[test]
fn test_parse_filter_list() {
    assert_eq!(
        parse_filters(vec![
            "the_key=+search_for",
            "this=that",
            "module=+Drive",
            "thing=^ploup"
        ])
        .unwrap(),
        vec![
            Filter::contains("the_key", "search_for"),
            Filter::equals("this", "that"),
            Filter::contains("module", "Drive"),
            Filter::not_contains("thing", "ploup")
        ]
    );
}

#[test]
fn filter_equal_passes() {
    assert!(Filter::equals("app", "drive").passes(&build_line()));
    assert!(!Filter::equals("app", "riv").passes(&build_line()));
    assert!(!Filter::equals("app", "test").passes(&build_line()));
}

#[test]
fn filter_contains_passes() {
    assert!(!Filter::contains("app", "de").passes(&build_line()));
    assert!(Filter::contains("app", "riv").passes(&build_line()));
}

#[test]
fn filter_not_contains_passes() {
    assert!(Filter::not_contains("app", "de").passes(&build_line()));
    assert!(!Filter::not_contains("app", "riv").passes(&build_line()));
}

#[test]
fn pass_all_filters() {
    assert!(passes_filters(
        &vec![
            Filter::contains("module", "Flink"),
            Filter::equals("app", "drive")
        ],
        &build_line()
    ));

    assert!(!passes_filters(
        &vec![
            Filter::contains("module", "Kafka"),
            Filter::equals("app", "drive")
        ],
        &build_line()
    ));

    assert!(!passes_filters(
        &vec![
            Filter::equals("module", "Flink"),
            Filter::equals("app", "drive")
        ],
        &build_line()
    ));
}

#[test]
fn parse_and_pass_filters() {
    assert!(passes_filters(
        &parse_filters(vec!["app=+drive", "module=+Flink"]).unwrap(),
        &build_line(),
    ));
    assert!(!passes_filters(
        &parse_filters(vec!["app=operate", "module=+Flink"]).unwrap(),
        &build_line(),
    ));
    assert!(!passes_filters(
        &parse_filters(vec!["app=drive", "module=^Flink"]).unwrap(),
        &build_line(),
    ));
}

#[test]
fn parse_filter_rejects_bad_expressions() {
    for bad in ["", "noequals", "=value", "key=", "="] {
        let err = Filter::from(bad).unwrap_err();
        assert_eq!(err.expression, bad);
    }
}

#[test]
fn parse_filter_marker_needs_a_value() {
    // A bare marker after `=` is an ordinary equality operand.
    assert_eq!(Filter::from("a=+").unwrap(), Filter::equals("a", "+"));
    assert_eq!(Filter::from("a=^").unwrap(), Filter::equals("a", "^"));
    // With a value, the marker wins.
    assert_eq!(Filter::from("a=+b").unwrap(), Filter::contains("a", "b"));
    assert_eq!(Filter::from("a=^b").unwrap(), Filter::not_contains("a", "b"));
}

#[test]
fn parse_filter_value_keeps_further_equals() {
    let f = Filter::from("key=a=b=c").unwrap();
    assert_eq!(f, Filter::equals("key", "a=b=c"));
    assert_eq!(f.kind, FilterKind::Equals);
    assert_eq!(
        Filter::from("key=+a=b").unwrap(),
        Filter::contains("key", "a=b")
    );
}

#[test]
fn parse_filters_reports_the_failing_expression() {
    let err = parse_filters(vec!["app=drive", "broken", "x=+y"]).unwrap_err();
    assert_eq!(err.expression, "broken");
}

#[test]
fn empty_filter_set_passes_everything() {
    assert!(passes_filters(&[], &build_line()));
    assert!(passes_filters(&[], &JsonValue::Obj(vec![])));
}

#[test]
fn filters_fail_on_missing_or_non_string_fields() {
    let line = JsonValue::Obj(vec![
        ("count".to_string(), JsonValue::Int(3)),
        ("flag".to_string(), JsonValue::Bool(true)),
    ]);
    // Missing key fails every kind, NotContains included.
    assert!(!Filter::equals("absent", "x").passes(&line));
    assert!(!Filter::contains("absent", "x").passes(&line));
    assert!(!Filter::not_contains("absent", "x").passes(&line));
    // A present but non-string field fails too.
    assert!(!Filter::equals("count", "3").passes(&line));
    assert!(!Filter::contains("count", "3").passes(&line));
    assert!(!Filter::not_contains("count", "3").passes(&line));
}
