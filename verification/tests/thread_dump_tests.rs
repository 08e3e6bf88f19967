use tspring::json::JsonValue;
use tspring::model::{StackFrame, ThreadInfo};
use tspring::thread_dump::{
    format_thread_dump, format_thread_dump_json, parse_thread_dump, state_category, state_label, thread_detail,
    thread_dump_to_jvm_text, thread_summary, thread_title, StateCategory,
};

fn s(x: &str) -> JsonValue {
    JsonValue::Str(x.to_string())
}

fn n(v: i64) -> JsonValue {
    JsonValue::Number(Some(v), v.to_string())
}

fn obj(members: Vec<(&str, JsonValue)>) -> JsonValue {
    JsonValue::Object(
        members.into_iter().map(|(k, v)| (k.to_string(), v)).collect(),
        "{...}".to_string(),
    )
}

fn arr(items: Vec<JsonValue>) -> JsonValue {
    JsonValue::Array(items, "[...]".to_string())
}

fn thread(name: &str, id: i64, state: &str) -> JsonValue {
    obj(vec![("threadName", s(name)), ("threadId", n(id)), ("threadState", s(state))])
}

#[test]
fn threads_sorted_by_state_then_name_stably() {
    let body = obj(vec![(
        "threads",
        arr(vec![
            thread("zeta", 1, "WAITING"),
            thread("beta", 2, "RUNNABLE"),
            thread("alpha", 3, "TIMED_WAITING"),
            thread("alpha", 4, "RUNNABLE"),
            thread("gamma", 5, "NEW"),
            thread("beta", 6, "RUNNABLE"),
            thread("delta", 7, "BLOCKED"),
        ]),
    )]);
    let ts = parse_thread_dump(&body);
    let order: Vec<(String, i64)> = ts.iter().map(|t| (t.name.clone(), t.id)).collect();
    assert_eq!(
        order,
        vec![
            ("alpha".to_string(), 4),
            ("beta".to_string(), 2),
            ("beta".to_string(), 6),
            ("delta".to_string(), 7),
            ("alpha".to_string(), 3),
            ("zeta".to_string(), 1),
            ("gamma".to_string(), 5),
        ]
    );
}

#[test]
fn thread_defaults_when_fields_missing() {
    let body = obj(vec![("threads", arr(vec![obj(vec![])]))]);
    let ts = parse_thread_dump(&body);
    assert_eq!(ts.len(), 1);
    assert_eq!(ts[0].name, "unknown");
    assert_eq!(ts[0].id, 0);
    assert_eq!(ts[0].state, "UNKNOWN");
    assert!(!ts[0].daemon);
    assert!(ts[0].stack_trace.is_empty());
    assert!(parse_thread_dump(&obj(vec![])).is_empty());
}

#[test]
fn state_labels_and_categories() {
    assert_eq!(state_label("runnable"), "Running");
    assert_eq!(state_label("TIMED_WAITING"), "Sleeping");
    assert_eq!(state_label("WAITING"), "Wait");
    assert_eq!(state_label("TERMINATED"), "Dead");
    assert_eq!(state_label("parked"), "parked");
    assert_eq!(state_category("sleeping"), StateCategory::Sleeping);
    assert_eq!(state_category("BLOCKED"), StateCategory::Blocked);
    assert_eq!(state_category("other"), StateCategory::Other);
}

fn info(name: &str, state: &str, daemon: bool) -> ThreadInfo {
    ThreadInfo { name: name.into(), id: 1, state: state.into(), daemon, stack_trace: vec![] }
}

#[test]
fn summary_counts() {
    let ts = vec![
        info("a", "RUNNABLE", true),
        info("b", "waiting", false),
        info("c", "TIMED_WAITING", true),
        info("d", "BLOCKED", false),
        info("e", "RUNNABLE", false),
    ];
    let sm = thread_summary(&ts);
    assert_eq!(sm.total, 5);
    assert_eq!(sm.running, 2);
    assert_eq!(sm.waiting, 1);
    assert_eq!(sm.timed_waiting, 1);
    assert_eq!(sm.blocked, 1);
    assert_eq!(sm.daemon, 2);
}

#[test]
fn jvm_text_format() {
    let body = obj(vec![(
        "threads",
        arr(vec![obj(vec![
            ("threadName", s("main")),
            ("threadId", n(1)),
            ("threadState", s("RUNNABLE")),
            ("daemon", JsonValue::Bool(true)),
            (
                "stackTrace",
                arr(vec![
                    obj(vec![("className", s("A")), ("methodName", s("run")), ("fileName", s("A.java")), ("lineNumber", n(12))]),
                    obj(vec![("className", s("B")), ("methodName", s("go")), ("nativeMethod", JsonValue::Bool(true))]),
                    obj(vec![("className", s("C")), ("methodName", s("x")), ("fileName", s("C.java")), ("lineNumber", n(-2))]),
                    obj(vec![]),
                ]),
            ),
        ])]),
    )]);
    let text = thread_dump_to_jvm_text(&body, "2026-03-12 14:30:22");
    assert_eq!(
        text,
        "2026-03-12 14:30:22\nFull thread dump:\n\n\"main\" #1 daemon java.lang.Thread.State: RUNNABLE\n\tat A.run(A.java:12)\n\tat B.go(Native Method)\n\tat C.x(C.java)\n\tat Unknown.unknown(Unknown Source)\n\n"
    );
}

#[test]
fn readable_text_format() {
    let body = obj(vec![(
        "threads",
        arr(vec![obj(vec![
            ("threadName", s("main")),
            ("threadId", n(7)),
            ("threadState", s("WAITING")),
            ("stackTrace", arr(vec![obj(vec![("className", s("A")), ("methodName", s("run")), ("lineNumber", n(3))]), obj(vec![])])),
        ])]),
    )]);
    let text = format_thread_dump(&body, "fallback");
    let rule: String = "─".repeat(60);
    assert_eq!(
        text,
        format!("Thread Dump — 1 threads\n{}\n\n\"main\" #7 WAITING\n    at A.run(3)\n    at ?.?(-1)\n", rule)
    );
    assert_eq!(format_thread_dump(&obj(vec![]), "fallback"), "fallback");
}

#[test]
fn thread_detail_text() {
    let t = ThreadInfo {
        name: "worker".into(),
        id: 42,
        state: "BLOCKED".into(),
        daemon: false,
        stack_trace: vec![
            StackFrame { class_name: "A".into(), method_name: "m".into(), file_name: "A.java".into(), line_number: 5, native_method: false },
            StackFrame { class_name: "B".into(), method_name: "n".into(), file_name: "".into(), line_number: -1, native_method: false },
        ],
    };
    assert_eq!(thread_title(&t), "\"worker\" #42 BLOCKED");
    assert_eq!(
        thread_detail(&t),
        "Thread: worker\nID:     42\nState:  BLOCKED\nDaemon: no\n\nStack Trace:\n  at A.m(A.java:5)\n  at B.n(Unknown Source)\n"
    );
    let empty = ThreadInfo { name: "t".into(), id: -3, state: "NEW".into(), daemon: true, stack_trace: vec![] };
    assert_eq!(thread_detail(&empty), "Thread: t\nID:     -3\nState:  NEW\nDaemon: yes\n\n(no stack trace)");
}

#[test]
fn thread_dump_json_text_is_formatted() {
    let rule: String = "─".repeat(60);
    let text = format_thread_dump_json(
        r#"{"threads":[{"threadName":"main","threadId":7,"threadState":"RUNNABLE","stackTrace":[]}]}"#,
    );
    assert_eq!(text, format!("Thread Dump — 1 threads\n{}\n\n\"main\" #7 RUNNABLE\n", rule));
    assert_eq!(format_thread_dump_json(r#"{"a":1}"#), "{\n  \"a\": 1\n}");
    assert_eq!(format_thread_dump_json("not json"), "Could not format thread dump");
}
