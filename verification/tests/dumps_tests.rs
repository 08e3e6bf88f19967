use tspring::dumps::{
    classify_dump_file, collect_saved_dumps, count_for_url, dump_failure_message, heap_dump_file_name,
    replace_all, thread_dump_file_name, thread_dump_text_file_name, thread_dump_text_path,
    DirEntryInfo, DumpKind,
};
use tspring::model::SavedDump;

#[test]
fn file_names() {
    assert_eq!(thread_dump_file_name("20260312_143022"), "threaddump_20260312_143022.json");
    assert_eq!(thread_dump_text_file_name("20260312_143022"), "threaddump_20260312_143022.tdump");
    assert_eq!(heap_dump_file_name("20260312_143022"), "heapdump_20260312_143022.hprof");
}

#[test]
fn classify_names() {
    assert_eq!(
        classify_dump_file("threaddump_20260312_143022.json"),
        Some((DumpKind::Thread, "20260312_143022".to_string()))
    );
    assert_eq!(classify_dump_file("threaddump_old.txt"), Some((DumpKind::Thread, "old".to_string())));
    assert_eq!(classify_dump_file("heapdump_x.hprof"), Some((DumpKind::Heap, "x".to_string())));
    assert_eq!(classify_dump_file("threaddump_x.tdump"), None);
    assert_eq!(classify_dump_file("notes.json"), None);
    assert_eq!(classify_dump_file("threaddump_.json"), Some((DumpKind::Thread, "".to_string())));
}

#[test]
fn replace_and_text_path() {
    assert_eq!(replace_all("aaa", "aa", "b"), "ba");
    assert_eq!(replace_all("x.json.json", ".json", ".tdump"), "x.tdump.tdump");
    assert_eq!(replace_all("ab", "", "-"), "-a-b-");
    assert_eq!(replace_all("", "", "-"), "-");
    assert_eq!(thread_dump_text_path("/d/threaddump_1.json"), "/d/threaddump_1.tdump");
    assert_eq!(thread_dump_text_path("/d/threaddump_1.txt"), "/d/threaddump_1.tdump");
}

fn entry(name: Option<&str>, size: u64, is_file: bool) -> DirEntryInfo {
    DirEntryInfo {
        file_name: name.map(|n| n.to_string()),
        path: format!("/d/{}", name.unwrap_or("?")),
        size_bytes: size,
        is_file,
    }
}

#[test]
fn collect_sorts_newest_first_and_keeps_ties_in_order() {
    let entries = vec![
        entry(Some("threaddump_20260101_000000.json"), 10, true),
        entry(Some("heapdump_20250101_000000.hprof"), 20, true),
        entry(Some("threaddump_20270101_000000.json"), 30, true),
        entry(Some("threaddump_20260101_000000.txt"), 40, true),
        entry(Some("threaddump_20280101_000000.tdump"), 50, true),
        entry(Some("heapdump_20260101_000000.hprof"), 60, false),
        entry(None, 70, true),
    ];
    let (threads, heaps) = collect_saved_dumps(&entries, "http://h", "orders");
    let ts: Vec<(String, u64)> = threads.iter().map(|d| (d.timestamp.clone(), d.size_bytes)).collect();
    assert_eq!(
        ts,
        vec![
            ("20270101_000000".to_string(), 30),
            ("20260101_000000".to_string(), 10),
            ("20260101_000000".to_string(), 40),
        ]
    );
    assert_eq!(heaps.len(), 1);
    assert_eq!(heaps[0].app_name, "orders");
    assert_eq!(heaps[0].app_url, "http://h");
    assert_eq!(heaps[0].path, "/d/heapdump_20250101_000000.hprof");
}

#[test]
fn failure_messages() {
    let not_found = dump_failure_message(DumpKind::Thread, 404, "404 Not Found");
    assert_eq!(
        not_found,
        "Thread dump endpoint not found.\n\nThe /actuator/threaddump endpoint is not available.\nMake sure your application has:\n1. spring-boot-starter-actuator dependency\n2. management.endpoints.web.exposure.include=threaddump\n   (or include=* to expose all endpoints)"
    );
    let other = dump_failure_message(DumpKind::Heap, 500, "500 Internal Server Error");
    assert_eq!(
        other,
        "Heap dump request failed with status 500 Internal Server Error.\nThe endpoint may not be enabled or accessible."
    );
}

#[test]
fn dumps_are_counted_per_application() {
    let dump = |url: &str| SavedDump {
        app_url: url.to_string(),
        app_name: "a".to_string(),
        path: "/tmp/x".to_string(),
        timestamp: "20260101_000000".to_string(),
        size_bytes: 1,
    };
    let dumps = vec![dump("http://a"), dump("http://b"), dump("http://a")];
    assert_eq!(count_for_url(&dumps, "http://a"), 2);
    assert_eq!(count_for_url(&dumps, "http://b"), 1);
    assert_eq!(count_for_url(&dumps, "http://c"), 0);
    assert_eq!(count_for_url(&Vec::new(), "http://a"), 0);
}

#[test]
fn saved_names_are_recognised_again() {
    let ts = "20260312_143022";
    assert_eq!(classify_dump_file(&thread_dump_file_name(ts)), Some((DumpKind::Thread, ts.to_string())));
    assert_eq!(classify_dump_file(&heap_dump_file_name(ts)), Some((DumpKind::Heap, ts.to_string())));
    assert_eq!(classify_dump_file(&thread_dump_text_file_name(ts)), None);
}
