use jaslog::format::{Formatter, SchemaVariantId};
use jaslog::json::JsonValue;

fn s(text: &str) -> JsonValue {
    JsonValue::Str(text.to_string())
}

fn obj(fields: Vec<(&str, JsonValue)>) -> JsonValue {
    JsonValue::Obj(
        fields
            .into_iter()
            .map(|(k, v)| (k.to_string(), v))
            .collect(),
    )
}

fn minimal_working_line() -> JsonValue {
    obj(vec![
        ("level", s("debug")),
        ("message", s("My minimal working line")),
    ])
}

fn random_line() -> JsonValue {
    obj(vec![
        ("_level", s("info")),
        ("_message", s("This is a message")),
        ("date_time", s("2019-12-18T10:55:50.000345")),
    ])
}

fn elixir_line() -> JsonValue {
    obj(vec![
        ("app", s("ecto_sql")),
        ("level", s("info")),
        ("message", s("== Migrated 123456789 in 0.0s")),
        ("metadata", obj(vec![])),
        ("module", s("Elixir.Ecto.Migration.Runner")),
        ("pid", s("#PID<0.274.0>")),
        ("timestamp", s("2019-12-18T10:55:50.000345")),
    ])
}

fn logstash_java_line() -> JsonValue {
    obj(vec![
        ("@timestamp", s("2020-01-13T12:34:01.740Z")),
        ("source_host", s("04fc4fd30dc3")),
        ("file", s("Dispatcher.java")),
        ("method", s("tryAcceptLeadershipAndRunJobs")),
        ("level", s("DEBUG")),
        ("line_number", s("927")),
        ("thread_name", s("flink-akka.actor.default-dispatcher-3")),
        ("@version", JsonValue::Int(1)),
        (
            "logger_name",
            s("org.apache.flink.runtime.dispatcher.StandaloneDispatcher"),
        ),
        ("message", s("Dispatcher akka.tcp://flink@04fc4fd30dc3:6123/user/dispatcher accepted leadership with fencing token 00000000000000000000000000000000. Start recovered jobs.")),
        ("class", s("org.apache.flink.runtime.dispatcher.Dispatcher")),
        ("mdc", obj(vec![])),
    ])
}

fn log4j_json_layout_java_line() -> JsonValue {
    obj(vec![
        ("thread", s("main")),
        ("level", s("WARN")),
        (
            "loggerName",
            s("org.apache.flink.runtime.dispatcher.DispatcherRestEndpoint"),
        ),
        ("message", s("Starting rest endpoint.")),
        ("endOfBatch", JsonValue::Bool(false)),
        ("loggerFqcn", s("org.apache.logging.slf4j.Log4jLogger")),
        (
            "instant",
            obj(vec![
                ("epochSecond", JsonValue::Int(1622724607)),
                ("nanoOfSecond", JsonValue::Int(420000000)),
            ]),
        ),
        ("threadId", JsonValue::Int(1)),
        ("threadPriority", JsonValue::Int(5)),
    ])
}

fn log4j_json_layout_java_line_with_thrown() -> JsonValue {
    let payload = "Discarding oversized payload sent to Actor[akka.tcp://flink@127.0.0.1:6122/user/rpc/taskmanager_0#196741921]: max allowed size 30000000 bytes, actual size of encoded class org.apache.flink.runtime.rpc.messages.RemoteRpcInvocation was 83938404 bytes.";
    obj(vec![
        (
            "instant",
            obj(vec![
                ("epochSecond", JsonValue::Int(1675413876)),
                ("nanoOfSecond", JsonValue::Int(72210000)),
            ]),
        ),
        ("thread", s("flink-akka.actor.default-dispatcher-86")),
        ("level", s("ERROR")),
        ("loggerName", s("akka.remote.EndpointWriter")),
        (
            "message",
            s("Transient association error (association remains live)"),
        ),
        (
            "thrown",
            obj(vec![
                ("commonElementCount", JsonValue::Int(0)),
                ("localizedMessage", s(payload)),
                ("message", s(payload)),
                ("name", s("akka.remote.OversizedPayloadException")),
            ]),
        ),
        ("endOfBatch", JsonValue::Bool(false)),
        ("loggerFqcn", s("org.apache.logging.slf4j.Log4jLogger")),
        ("threadId", JsonValue::Int(1337)),
        ("threadPriority", JsonValue::Int(5)),
    ])
}

fn log4j_json_layout_java_line_complicated_timestamp() -> JsonValue {
    obj(vec![
        (
            "instant",
            obj(vec![
                ("epochSecond", JsonValue::Int(1675671481)),
                ("nanoOfSecond", JsonValue::Int(452180000)),
            ]),
        ),
        ("thread", s("Source Data Fetcher for Source: MySourceName -> *anonymous_datastream_source$4*[18] (2/2)#2798")),
        ("level", s("INFO")),
        ("loggerName", s("org.apache.kafka.clients.FetchSessionHandler")),
        ("message", s("[Consumer clientId=name_72e14600-16b6-4c27-aff0-fae92ae52650-1, groupId=name_72e14600-16b6-4c27-aff0-fae92ae52650] Error sending fetch request (sessionId=1995808239, epoch=INITIAL) to node 0:")),
        (
            "thrown",
            obj(vec![
                ("commonElementCount", JsonValue::Int(0)),
                ("name", s("org.apache.kafka.common.errors.DisconnectException")),
            ]),
        ),
        ("endOfBatch", JsonValue::Bool(false)),
        (
            "loggerFqcn",
            s("org.apache.kafka.common.utils.LogContext$LocationAwareKafkaLogger"),
        ),
        ("threadId", JsonValue::Int(664)),
        ("threadPriority", JsonValue::Int(5)),
    ])
}

#[test]
fn test_format_not_json() {
    let message = "my GenericJson message that's not JSON";
    println!("Actual: {}", Formatter::new().format_not_json(message));
    assert_eq!(
        Formatter::new().format_not_json(message),
        "[NOT JSON] my GenericJson message that's not JSON"
    );
}

#[test]
fn test_format_minimal_working_line() {
    println!(
        "Actual: {}",
        Formatter::new().format_message(&minimal_working_line())
    );
    assert_eq!(
        Formatter::new().format_message(&minimal_working_line()),
        "[debug] My minimal working line"
    );
}

#[test]
fn test_format_random_line() {
    let expected = "[info] [This is a message] [2019-12-18T10:55:50.000345]";
    println!("Actual:   {}", Formatter::new().format_message(&random_line()));
    println!("Expected: {}", expected);
    assert_eq!(Formatter::new().format_message(&random_line()), expected);
}

#[test]
fn test_format_elixir_line() {
    let expected = "[2019-12-18T10:55:50.000345] [info] [ecto_sql] [Elixir.Ecto.Migration.Runner] [#PID<0.274.0>] == Migrated 123456789 in 0.0s";
    println!("Actual:   {}", Formatter::new().format_message(&elixir_line()));
    println!("Expected: {}", expected);
    assert_eq!(Formatter::new().format_message(&elixir_line()), expected);
}

#[test]
fn test_format_logstash_java_line() {
    println!(
        "Actual: {}",
        Formatter::new().format_message(&logstash_java_line())
    );
    assert_eq!(
        Formatter::new().format_message(&logstash_java_line()),
        "[2020-01-13T12:34:01.740Z] [DEBUG] [org.apache.flink.runtime.dispatcher.StandaloneDispatcher] [flink-akka.actor.default-dispatcher-3] Dispatcher akka.tcp://flink@04fc4fd30dc3:6123/user/dispatcher accepted leadership with fencing token 00000000000000000000000000000000. Start recovered jobs."
    );
}

#[test]
fn test_format_different_lines() {
    let mut formatter = Formatter::new();

    assert!(formatter.last_line_converter.is_none());

    assert_eq!(
        formatter.format_message(&logstash_java_line()),
        "[2020-01-13T12:34:01.740Z] [DEBUG] [org.apache.flink.runtime.dispatcher.StandaloneDispatcher] [flink-akka.actor.default-dispatcher-3] Dispatcher akka.tcp://flink@04fc4fd30dc3:6123/user/dispatcher accepted leadership with fencing token 00000000000000000000000000000000. Start recovered jobs."
    );

    assert!(formatter.last_line_converter.is_some());

    assert_eq!(
        formatter.format_message(&elixir_line()),
        "[2019-12-18T10:55:50.000345] [info] [ecto_sql] [Elixir.Ecto.Migration.Runner] [#PID<0.274.0>] == Migrated 123456789 in 0.0s"
    );

    assert!(formatter.last_line_converter.is_some());

    assert_eq!(
        formatter.format_message(&random_line()),
        "[info] [This is a message] [2019-12-18T10:55:50.000345]"
    );

    assert!(formatter.last_line_converter.is_none());

    assert_eq!(
        formatter.format_message(&elixir_line()),
        "[2019-12-18T10:55:50.000345] [info] [ecto_sql] [Elixir.Ecto.Migration.Runner] [#PID<0.274.0>] == Migrated 123456789 in 0.0s"
    );

    assert!(formatter.last_line_converter.is_some());

    assert_eq!(
        formatter.format_message(&logstash_java_line()),
        "[2020-01-13T12:34:01.740Z] [DEBUG] [org.apache.flink.runtime.dispatcher.StandaloneDispatcher] [flink-akka.actor.default-dispatcher-3] Dispatcher akka.tcp://flink@04fc4fd30dc3:6123/user/dispatcher accepted leadership with fencing token 00000000000000000000000000000000. Start recovered jobs."
    );

    assert!(formatter.last_line_converter.is_some());
}

#[test]
fn test_format_log4j_json_layout_java_line() {
    println!(
        "Actual: {}",
        Formatter::new().format_message(&log4j_json_layout_java_line())
    );
    assert_eq!(
        Formatter::new().format_message(&log4j_json_layout_java_line()),
        "[2021-06-03T12:50:07.420+00:00] [WARN] [org.apache.flink.runtime.dispatcher.DispatcherRestEndpoint] [main] Starting rest endpoint."
    );
}

#[test]
fn test_format_log4j_json_layout_java_line_with_thrown() {
    println!(
        "Actual: {}",
        Formatter::new().format_message(&log4j_json_layout_java_line_with_thrown())
    );
    assert_eq!(
        Formatter::new().format_message(&log4j_json_layout_java_line_with_thrown()),
        "[2023-02-03T08:44:36.072210+00:00] [ERROR] [akka.remote.EndpointWriter] [flink-akka.actor.default-dispatcher-86] Transient association error (association remains live)\n\takka.remote.OversizedPayloadException\n\tDiscarding oversized payload sent to Actor[akka.tcp://flink@127.0.0.1:6122/user/rpc/taskmanager_0#196741921]: max allowed size 30000000 bytes, actual size of encoded class org.apache.flink.runtime.rpc.messages.RemoteRpcInvocation was 83938404 bytes."
    );
}

#[test]
fn test_format_log4j_json_layout_java_line_complicated_timestamp() {
    let expected = "[2023-02-06T08:18:01.452180+00:00] [INFO] [org.apache.kafka.clients.FetchSessionHandler] [Source Data Fetcher for Source: MySourceName -> *anonymous_datastream_source$4*[18] (2/2)#2798] [Consumer clientId=name_72e14600-16b6-4c27-aff0-fae92ae52650-1, groupId=name_72e14600-16b6-4c27-aff0-fae92ae52650] Error sending fetch request (sessionId=1995808239, epoch=INITIAL) to node 0: (org.apache.kafka.common.errors.DisconnectException)";

    let actual =
        Formatter::new().format_message(&log4j_json_layout_java_line_complicated_timestamp());

    println!("Actual:   {actual}");
    println!("Expected: {expected}");
    assert_eq!(actual, expected);
}

#[test]
fn format_not_json_keeps_the_line_verbatim() {
    let lines = [
        "",
        "   spaced   ",
        "{\"half\": \"json\"",
        "weird \u{1b}[0m bytes \t and \u{7f}",
    ];
    for line in lines {
        let out = Formatter::new().format_not_json(line);
        assert_eq!(out, format!("[NOT JSON] {line}"));
    }
}

#[test]
fn fresh_formatters_agree_on_the_same_record() {
    for record in [
        minimal_working_line(),
        random_line(),
        elixir_line(),
        logstash_java_line(),
        log4j_json_layout_java_line(),
    ] {
        let first = Formatter::new().format_message(&record);
        let second = Formatter::new().format_message(&record);
        assert_eq!(first, second);
    }
}

#[test]
fn colored_output_wraps_spans_in_escapes() {
    let mut colored = Formatter::with_colors(true);
    assert_eq!(
        colored.format_message(&minimal_working_line()),
        "\u{1b}[2;34m[debug]\u{1b}[0m\u{1b}[34m My minimal working line\u{1b}[0m"
    );
    assert_eq!(
        colored.format_not_json("plain tail"),
        "\u{1b}[31m[NOT JSON]\u{1b}[0m plain tail"
    );
    let mut plain = Formatter::with_colors(false);
    assert_eq!(
        plain.format_message(&minimal_working_line()),
        "[debug] My minimal working line"
    );
}

#[test]
fn generic_rendering_shows_non_string_values_as_json() {
    let record = obj(vec![
        ("count", JsonValue::Int(-7)),
        ("flag", JsonValue::Bool(true)),
        ("level", JsonValue::Int(3)),
        ("message", s("hello")),
        ("nested", obj(vec![("a", JsonValue::Null)])),
    ]);
    // The message field contributes an empty slot to the joined metadata,
    // so a double space remains where it stood.
    assert_eq!(
        Formatter::new().format_message(&record),
        "[-7] [true] [3]  [{\"a\":null}] hello"
    );
}

#[test]
fn generic_rendering_without_message_has_no_trailing_text() {
    let record = obj(vec![("only", s("field"))]);
    assert_eq!(Formatter::new().format_message(&record), "[field]");
    let empty = obj(vec![]);
    assert_eq!(Formatter::new().format_message(&empty), "");
}

#[test]
fn sticky_state_follows_the_matching_variant() {
    let mut formatter = Formatter::new();
    formatter.format_message(&elixir_line());
    assert_eq!(
        formatter.last_line_converter,
        Some(SchemaVariantId::Elixir)
    );
    formatter.format_message(&logstash_java_line());
    assert_eq!(
        formatter.last_line_converter,
        Some(SchemaVariantId::LogstashJava)
    );
    formatter.format_message(&log4j_json_layout_java_line());
    assert_eq!(
        formatter.last_line_converter,
        Some(SchemaVariantId::Log4JJsonLayout)
    );
    formatter.format_message(&random_line());
    assert_eq!(formatter.last_line_converter, None);
}
