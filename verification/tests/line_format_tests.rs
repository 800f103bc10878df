use jaslog::filter::{parse_filters, Filter};
use jaslog::format::Formatter;
use jaslog::json::{json_text_chars, text_value, JsonValue};
use jaslog::line_formats::{
    ElixirLogLine, Log4JJsonLayoutLogLine, Log4JJsonLayoutLogLineInstant,
    Log4JJsonLayoutLogLineThrown, LogstashJavaLogLine,
};
use jaslog::process_line;

fn s(text: &str) -> JsonValue {
    JsonValue::Str(text.to_string())
}

fn obj(fields: Vec<(&str, JsonValue)>) -> JsonValue {
    JsonValue::Obj(
        fields
            .into_iter()
            .map(|(k, v)| (k.to_string(), v))
            .collect(),
    )
}

fn with_epoch_and_nano_format_date(epoch_second: i64, nano_of_second: u32) -> String {
    Log4JJsonLayoutLogLine {
        thread_name: String::new(),
        level: String::new(),
        logger_name: String::new(),
        end_of_batch: true,
        logger_fqcn: String::new(),
        message: String::new(),
        instant: Log4JJsonLayoutLogLineInstant {
            epoch_second,
            nano_of_second,
        },
        thread_id: 0,
        thread_priority: 0,
        thrown: Log4JJsonLayoutLogLineThrown {
            common_element_count: 0,
            localized_message: String::new(),
            message: String::new(),
            name: String::new(),
        },
        mdc: Vec::new(),
    }
    .format_date()
}

#[test]
fn test_epoch_formatting_works() {
    assert_eq!(
        with_epoch_and_nano_format_date(1622724607, 420000000),
        "2021-06-03T12:50:07.420+00:00"
    );
    assert_eq!(
        with_epoch_and_nano_format_date(1675671221, 782873000),
        "2023-02-06T08:13:41.782873+00:00"
    );
    assert_eq!(
        with_epoch_and_nano_format_date(1675671481, 452180000),
        "2023-02-06T08:18:01.452180+00:00"
    );
}

#[test]
fn test_parse_log4j_line() {
    let value = obj(vec![
        (
            "instant",
            obj(vec![
                ("epochSecond", JsonValue::Int(1675671481)),
                ("nanoOfSecond", JsonValue::Int(452180000)),
            ]),
        ),
        ("thread", s("Source Data Fetcher for Source: MySourceName -> *anonymous_datastream_source$4*[18] (2/2)#2798")),
        ("level", s("INFO")),
        ("loggerName", s("org.apache.kafka.clients.FetchSessionHandler")),
        ("message", s("[Consumer clientId=name_72e14600-16b6-4c27-aff0-fae92ae52650-1, groupId=name_72e14600-16b6-4c27-aff0-fae92ae52650] Error sending fetch request (sessionId=1995808239, epoch=INITIAL) to node 0:")),
        (
            "thrown",
            obj(vec![
                ("commonElementCount", JsonValue::Int(0)),
                ("name", s("org.apache.kafka.common.errors.DisconnectException")),
            ]),
        ),
        ("endOfBatch", JsonValue::Bool(false)),
        (
            "loggerFqcn",
            s("org.apache.kafka.common.utils.LogContext$LocationAwareKafkaLogger"),
        ),
        ("threadId", JsonValue::Int(664)),
        ("threadPriority", JsonValue::Int(5)),
    ]);

    let actual = Log4JJsonLayoutLogLine::try_decode(&value).expect("Failed to unwrap test json");
    let expected = Log4JJsonLayoutLogLine {
        thread_name: "Source Data Fetcher for Source: MySourceName -> *anonymous_datastream_source$4*[18] (2/2)#2798".to_string(),
        level: "INFO".to_string(),
        logger_name: "org.apache.kafka.clients.FetchSessionHandler".to_string(),
        end_of_batch: false,
        logger_fqcn: "org.apache.kafka.common.utils.LogContext$LocationAwareKafkaLogger".to_string(),
        message: "[Consumer clientId=name_72e14600-16b6-4c27-aff0-fae92ae52650-1, groupId=name_72e14600-16b6-4c27-aff0-fae92ae52650] Error sending fetch request (sessionId=1995808239, epoch=INITIAL) to node 0:".to_string(),
        instant: Log4JJsonLayoutLogLineInstant {
            epoch_second: 1675671481,
            nano_of_second: 452180000,
        },
        thread_id: 664,
        thread_priority: 5,
        thrown: Log4JJsonLayoutLogLineThrown {
            common_element_count: 0,
            localized_message: "".to_string(),
            message: "".to_string(),
            name: "org.apache.kafka.common.errors.DisconnectException".to_string()
        },
        mdc: Vec::new(),
    };

    assert_eq!(actual, expected);
}

#[test]
fn format_date_falls_back_to_epoch_seconds_out_of_range() {
    assert_eq!(
        with_epoch_and_nano_format_date(9_000_000_000_000, 0),
        "9000000000000"
    );
    assert_eq!(
        with_epoch_and_nano_format_date(-9_000_000_000_000, 0),
        "-9000000000000"
    );
    assert_eq!(
        with_epoch_and_nano_format_date(1622724607, 1_500_000_000),
        "1622724607"
    );
}

#[test]
fn format_date_handles_the_epoch_and_negatives() {
    assert_eq!(with_epoch_and_nano_format_date(0, 0), "1970-01-01T00:00:00+00:00");
    assert_eq!(
        with_epoch_and_nano_format_date(-1, 0),
        "1969-12-31T23:59:59+00:00"
    );
}

#[test]
fn elixir_decode_is_atomic() {
    let complete = obj(vec![
        ("app", s("core")),
        ("level", s("info")),
        ("message", s("ready")),
        ("module", s("Core.Main")),
        ("pid", s("#PID<0.1.0>")),
        ("timestamp", s("2020-01-01T00:00:00")),
    ]);
    assert!(ElixirLogLine::try_decode(&complete).is_some());

    // One required field missing: the whole decode fails.
    let missing = obj(vec![
        ("app", s("core")),
        ("level", s("info")),
        ("message", s("ready")),
        ("module", s("Core.Main")),
        ("pid", s("#PID<0.1.0>")),
    ]);
    assert!(ElixirLogLine::try_decode(&missing).is_none());

    // One required field of the wrong type: the whole decode fails.
    let wrong_type = obj(vec![
        ("app", s("core")),
        ("level", s("info")),
        ("message", s("ready")),
        ("module", s("Core.Main")),
        ("pid", JsonValue::Int(1)),
        ("timestamp", s("2020-01-01T00:00:00")),
    ]);
    assert!(ElixirLogLine::try_decode(&wrong_type).is_none());
}

fn logstash_base() -> Vec<(&'static str, JsonValue)> {
    vec![
        ("level", s("INFO")),
        ("message", s("m")),
        ("logger_name", s("l")),
        ("thread_name", s("t")),
    ]
}

#[test]
fn logstash_timestamp_alias_must_be_unambiguous() {
    let mut with_plain = logstash_base();
    with_plain.push(("timestamp", s("T1")));
    assert!(LogstashJavaLogLine::try_decode(&obj(with_plain)).is_some());

    let mut with_alias = logstash_base();
    with_alias.push(("@timestamp", s("T2")));
    assert!(LogstashJavaLogLine::try_decode(&obj(with_alias)).is_some());

    let mut with_both = logstash_base();
    with_both.push(("timestamp", s("T1")));
    with_both.push(("@timestamp", s("T2")));
    assert!(LogstashJavaLogLine::try_decode(&obj(with_both)).is_none());

    assert!(LogstashJavaLogLine::try_decode(&obj(logstash_base())).is_none());
}

#[test]
fn logstash_renders_mdc_and_plain_stack_trace() {
    let record = obj(vec![
        ("timestamp", s("T")),
        ("level", s("WARN")),
        ("logger_name", s("lg")),
        ("thread_name", s("th")),
        (
            "mdc",
            obj(vec![
                ("user", s("  alice  ")),
                ("attempt", JsonValue::Int(2)),
            ]),
        ),
        ("message", s("boom")),
        ("stack_trace", s("first line\nsecond line")),
    ]);
    assert_eq!(
        Formatter::new().format_message(&record),
        "[T] [WARN] [lg] [th][user=alice,attempt=2] boom\n\tfirst line\n\tsecond line"
    );
}

#[test]
fn logstash_structured_exception_wins_over_stack_trace() {
    let record = obj(vec![
        ("timestamp", s("T")),
        ("level", s("ERROR")),
        ("logger_name", s("lg")),
        ("thread_name", s("th")),
        ("message", s("boom")),
        ("stack_trace", s("ignored")),
        (
            "exception",
            obj(vec![
                ("exception_message", s("oops")),
                ("exception_class", s("a.B")),
                ("stacktrace", s("l1\nl2")),
            ]),
        ),
    ]);
    assert_eq!(
        Formatter::new().format_message(&record),
        "[T] [ERROR] [lg] [th] boom\n\toops (a.B)\n\tl1\n\tl2"
    );
}

#[test]
fn log4j_thrown_message_without_name_is_an_indented_block() {
    let record = obj(vec![
        (
            "instant",
            obj(vec![
                ("epochSecond", JsonValue::Int(0)),
                ("nanoOfSecond", JsonValue::Int(0)),
            ]),
        ),
        ("thread", s("main")),
        ("level", s("ERROR")),
        ("loggerName", s("lg")),
        ("message", s("failed")),
        ("thrown", obj(vec![("message", s("why\nnot"))])),
        ("endOfBatch", JsonValue::Bool(true)),
        ("loggerFqcn", s("f")),
        ("threadId", JsonValue::Int(1)),
        ("threadPriority", JsonValue::Int(5)),
    ]);
    assert_eq!(
        Formatter::new().format_message(&record),
        "[1970-01-01T00:00:00+00:00] [ERROR] [lg] [main] failed\n\twhy\n\tnot"
    );
}

#[test]
fn json_text_is_compact_and_escaped() {
    let chars = |v: &JsonValue| json_text_chars(v).into_iter().collect::<String>();
    assert_eq!(chars(&JsonValue::Null), "null");
    assert_eq!(chars(&JsonValue::Bool(false)), "false");
    assert_eq!(chars(&JsonValue::Int(-12)), "-12");
    assert_eq!(chars(&JsonValue::Int(i64::MIN)), "-9223372036854775808");
    assert_eq!(chars(&JsonValue::BigNum("1.5e300".to_string())), "1.5e300");
    assert_eq!(
        chars(&s("a\"b\\c\nd\te\u{1}")),
        "\"a\\\"b\\\\c\\nd\\te\\u0001\""
    );
    assert_eq!(
        chars(&JsonValue::Arr(vec![
            JsonValue::Int(1),
            s("x"),
            JsonValue::Arr(vec![]),
        ])),
        "[1,\"x\",[]]"
    );
    assert_eq!(
        chars(&obj(vec![("k", JsonValue::Null), ("m", JsonValue::Int(2))])),
        "{\"k\":null,\"m\":2}"
    );
}

#[test]
fn text_value_shows_strings_bare_and_the_rest_as_json() {
    assert_eq!(text_value(&s("plain")), "plain");
    assert_eq!(text_value(&JsonValue::Int(7)), "7");
    assert_eq!(text_value(&obj(vec![("a", s("b"))])), "{\"a\":\"b\"}");
}

#[test]
fn process_line_routes_records_like_the_reading_loop() {
    let filters = parse_filters(vec!["app=+drive"]).unwrap();
    let mut formatter = Formatter::new();

    // A line that was not JSON at all.
    let out = process_line(&mut formatter, &filters, None, "raw garbage");
    assert_eq!(out.as_deref(), Some("[NOT JSON] raw garbage"));

    // A JSON line that is not an object.
    let out = process_line(&mut formatter, &filters, Some(JsonValue::Int(4)), "4");
    assert_eq!(out.as_deref(), Some("[NOT JSON] 4"));

    // An object that fails the filters is dropped.
    let rejected = obj(vec![("app", s("other"))]);
    let out = process_line(&mut formatter, &filters, Some(rejected), "{...}");
    assert_eq!(out, None);

    // An object that passes the filters is formatted.
    let accepted = obj(vec![("app", s("drive")), ("message", s("hi"))]);
    let out = process_line(&mut formatter, &filters, Some(accepted), "{...}");
    assert_eq!(out.as_deref(), Some("[drive] hi"));
}

#[test]
fn filters_only_gate_object_records() {
    let filters = vec![Filter::equals("app", "drive")];
    let mut formatter = Formatter::new();
    // Non-object lines bypass the filters entirely.
    let out = process_line(&mut formatter, &filters, Some(s("text")), "\"text\"");
    assert_eq!(out.as_deref(), Some("[NOT JSON] \"text\""));
}
