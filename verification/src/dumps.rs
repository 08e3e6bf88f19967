//! Saved thread and heap dumps: file names, recognising them in a
//! directory listing, their order, and the messages for failed requests.

use vstd::prelude::*;

use crate::model::{SavedDump, SavedDumpView};
use crate::text::{
    chars_of, ends_with_seq, occurs_at, occurs_at_exec, owned, push_char, push_decimal, push_str,
    starts_with_seq, str_ends_with, str_starts_with, decimal,
};
use crate::thread_dump::{
    chars_before, chars_less, lemma_chars_before_irreflexive, lemma_chars_before_transitive,
};

verus! {

/// The two kinds of dump.
#[derive(Debug, Clone, Copy, PartialEq, Eq, Structural)]
pub enum DumpKind {
    Thread,
    Heap,
}

// ---------------------------------------------------------------------------
// File names
// ---------------------------------------------------------------------------

/// The file a thread dump's JSON is saved in: `threaddump_<timestamp>.json`.
pub fn thread_dump_file_name(timestamp: &str) -> (r: String)
    ensures
        r@ == "threaddump_"@ + timestamp@ + ".json"@,
{
    let mut r = owned("threaddump_");
    push_str(&mut r, timestamp);
    push_str(&mut r, ".json");
    r
}

/// The file a thread dump's JVM text is saved in:
/// `threaddump_<timestamp>.tdump`.
pub fn thread_dump_text_file_name(timestamp: &str) -> (r: String)
    ensures
        r@ == "threaddump_"@ + timestamp@ + ".tdump"@,
{
    let mut r = owned("threaddump_");
    push_str(&mut r, timestamp);
    push_str(&mut r, ".tdump");
    r
}

/// The file a heap dump is saved in: `heapdump_<timestamp>.hprof`.
pub fn heap_dump_file_name(timestamp: &str) -> (r: String)
    ensures
        r@ == "heapdump_"@ + timestamp@ + ".hprof"@,
{
    let mut r = owned("heapdump_");
    push_str(&mut r, timestamp);
    push_str(&mut r, ".hprof");
    r
}

/// `to` before every character of `s` and once more at its end (what
/// `str::replace` does with an empty pattern).
pub open spec fn insert_everywhere(s: Seq<char>, to: Seq<char>) -> Seq<char>
    decreases s.len(),
{
    if s.len() == 0 {
        to
    } else {
        to + seq![s[0]] + insert_everywhere(s.drop_first(), to)
    }
}

/// `s` with every occurrence of `from` replaced by `to`, scanning from the
/// left and not overlapping (as `str::replace` does); an empty `from`
/// occurs before every character and at the end.
pub open spec fn replace_spec(s: Seq<char>, from: Seq<char>, to: Seq<char>) -> Seq<char>
    decreases s.len(),
{
    if from.len() == 0 {
        insert_everywhere(s, to)
    } else if s.len() == 0 {
        s
    } else if occurs_at(s, from, 0) {
        to + replace_spec(s.subrange(from.len() as int, s.len() as int), from, to)
    } else {
        seq![s[0]] + replace_spec(s.drop_first(), from, to)
    }
}

proof fn lemma_occurs_at_shift(s: Seq<char>, from: Seq<char>, i: int)
    requires
        0 <= i <= s.len(),
    ensures
        occurs_at(s, from, i) == occurs_at(s.subrange(i, s.len() as int), from, 0),
{
    if occurs_at(s, from, i) {
        assert(s.subrange(i, s.len() as int).subrange(0, from.len() as int) =~= s.subrange(
            i,
            i + from.len(),
        ));
    }
    if occurs_at(s.subrange(i, s.len() as int), from, 0) {
        assert(s.subrange(i, s.len() as int).subrange(0, from.len() as int) =~= s.subrange(
            i,
            i + from.len(),
        ));
    }
}

/// `s` with every occurrence of `from` replaced by `to`.
pub fn replace_all(s: &str, from: &str, to: &str) -> (r: String)
    ensures
        r@ == replace_spec(s@, from@, to@),
{
    let v = chars_of(s);
    let f = chars_of(from);
    let mut out = String::new();
    let mut i: usize = 0;
    if f.len() == 0 {
        proof {
            assert(v@.subrange(0, v@.len() as int) =~= v@);
            assert(out@ + insert_everywhere(v@, to@) =~= insert_everywhere(v@, to@));
        }
        while i < v.len()
            invariant
                i <= v.len(),
                v@ == s@,
                out@ + insert_everywhere(v@.subrange(i as int, v@.len() as int), to@) == insert_everywhere(
                    v@,
                    to@,
                ),
            decreases v.len() - i,
        {
            let ghost rest = v@.subrange(i as int, v@.len() as int);
            let ghost o = out@;
            push_str(&mut out, to);
            push_char(&mut out, v[i]);
            proof {
                let tail = v@.subrange(i + 1, v@.len() as int);
                assert(rest.drop_first() =~= tail);
                assert(out@ + insert_everywhere(tail, to@) =~= o + (to@ + seq![rest[0]] + insert_everywhere(
                    tail,
                    to@,
                )));
            }
            i = i + 1;
        }
        push_str(&mut out, to);
        proof {
            assert(v@.subrange(i as int, v@.len() as int) =~= Seq::<char>::empty());
        }
        return out;
    }
    proof {
        assert(v@.subrange(0, v@.len() as int) =~= v@);
        assert(out@ + replace_spec(v@, f@, to@) =~= replace_spec(v@, f@, to@));
    }
    while i < v.len()
        invariant
            i <= v.len(),
            v@ == s@,
            f@ == from@,
            f@.len() > 0,
            out@ + replace_spec(v@.subrange(i as int, v@.len() as int), f@, to@) == replace_spec(
                v@,
                f@,
                to@,
            ),
        decreases v.len() - i,
    {
        let ghost rest = v@.subrange(i as int, v@.len() as int);
        proof {
            lemma_occurs_at_shift(v@, f@, i as int);
        }
        if occurs_at_exec(&v, &f, i) {
            let ghost o = out@;
            push_str(&mut out, to);
            proof {
                let tail = v@.subrange(i + f@.len(), v@.len() as int);
                assert(rest.subrange(f@.len() as int, rest.len() as int) =~= tail);
                assert(out@ + replace_spec(tail, f@, to@) =~= o + (to@ + replace_spec(
                    tail,
                    f@,
                    to@,
                )));
            }
            i = i + f.len();
        } else {
            let ghost o = out@;
            push_char(&mut out, v[i]);
            proof {
                let tail = v@.subrange(i + 1, v@.len() as int);
                assert(rest.drop_first() =~= tail);
                assert(out@ + replace_spec(tail, f@, to@) =~= o + (seq![rest[0]] + replace_spec(
                    tail,
                    f@,
                    to@,
                )));
            }
            i = i + 1;
        }
    }
    proof {
        assert(v@.subrange(i as int, v@.len() as int) =~= Seq::<char>::empty());
        assert(out@ + Seq::<char>::empty() =~= out@);
    }
    out
}

/// The JVM text file saved beside a thread dump: its path with `.json` and
/// then `.txt` replaced by `.tdump`.
pub fn thread_dump_text_path(path: &str) -> (r: String)
    ensures
        r@ == replace_spec(replace_spec(path@, ".json"@, ".tdump"@), ".txt"@, ".tdump"@),
{
    proof {
        reveal_strlit(".json");
        reveal_strlit(".txt");
    }
    let a = replace_all(path, ".json", ".tdump");
    replace_all(a.as_str(), ".txt", ".tdump")
}

// ---------------------------------------------------------------------------
// Recognising saved dumps
// ---------------------------------------------------------------------------

/// What a file name says of a saved dump: a thread dump is
/// `threaddump_<timestamp>.json` or `.txt`, a heap dump is
/// `heapdump_<timestamp>.hprof`; any other name is no dump.
pub open spec fn classify_spec(name: Seq<char>) -> Option<(DumpKind, Seq<char>)> {
    if starts_with_seq(name, "threaddump_"@) && ends_with_seq(name, ".json"@) {
        Some((DumpKind::Thread, name.subrange(11, name.len() - 5)))
    } else if starts_with_seq(name, "threaddump_"@) && ends_with_seq(name, ".txt"@) {
        Some((DumpKind::Thread, name.subrange(11, name.len() - 4)))
    } else if starts_with_seq(name, "heapdump_"@) && ends_with_seq(name, ".hprof"@) {
        Some((DumpKind::Heap, name.subrange(9, name.len() - 6)))
    } else {
        None
    }
}

/// A dump is recognised again by the name it was saved under, with the
/// timestamp it was saved with; the JVM text copy of a thread dump is not
/// taken for a second dump.
pub proof fn law_saved_names_are_recognised(ts: Seq<char>)
    ensures
        classify_spec("threaddump_"@ + ts + ".json"@) == Some((DumpKind::Thread, ts)),
        classify_spec("heapdump_"@ + ts + ".hprof"@) == Some((DumpKind::Heap, ts)),
        classify_spec("threaddump_"@ + ts + ".tdump"@) is None,
{
    reveal_strlit("threaddump_");
    reveal_strlit(".json");
    reveal_strlit(".txt");
    reveal_strlit("heapdump_");
    reveal_strlit(".hprof");
    reveal_strlit(".tdump");
    let json = "threaddump_"@ + ts + ".json"@;
    assert(json.subrange(0, 11) =~= "threaddump_"@);
    assert(json.subrange(json.len() - 5, json.len() as int) =~= ".json"@);
    assert(json.subrange(11, json.len() - 5) =~= ts);
    let heap = "heapdump_"@ + ts + ".hprof"@;
    assert(heap.subrange(0, 9) =~= "heapdump_"@);
    assert(heap.subrange(heap.len() - 6, heap.len() as int) =~= ".hprof"@);
    assert(heap.subrange(9, heap.len() - 6) =~= ts);
    let text = "threaddump_"@ + ts + ".tdump"@;
    assert(text[text.len() - 5] == 't');
    assert(text.subrange(text.len() - 5, text.len() as int)[0] != ".json"@[0]);
    assert(text[text.len() - 4] == 'd');
    assert(text.subrange(text.len() - 4, text.len() as int)[0] != ".txt"@[0]);
    assert(text.subrange(0, 9)[0] != "heapdump_"@[0]);
}

/// The kind and timestamp of a saved dump's file name, if it is one.
pub fn classify_dump_file(name: &str) -> (r: Option<(DumpKind, String)>)
    ensures
        match r {
            Some((k, ts)) => classify_spec(name@) == Some((k, ts@)),
            None => classify_spec(name@) is None,
        },
{
    proof {
        reveal_strlit("threaddump_");
        reveal_strlit(".json");
        reveal_strlit(".txt");
        reveal_strlit("heapdump_");
        reveal_strlit(".hprof");
    }
    let v = chars_of(name);
    let n = v.len();
    let thread = str_starts_with(name, "threaddump_");
    let heap = str_starts_with(name, "heapdump_");
    if thread && str_ends_with(name, ".json") {
        proof {
            if name@.len() < 16 {
                let k = name@.len() - 5;
                assert(name@.subrange(name@.len() - 5, name@.len() as int)[0] == name@[k]);
                assert(name@.subrange(0, 11)[k] == name@[k]);
            }
        }
        return Some((DumpKind::Thread, crate::text::string_from_range(&v, 11, n - 5)));
    }
    if thread && str_ends_with(name, ".txt") {
        proof {
            if name@.len() < 15 {
                let k = name@.len() - 4;
                assert(name@.subrange(name@.len() - 4, name@.len() as int)[0] == name@[k]);
                assert(name@.subrange(0, 11)[k] == name@[k]);
            }
        }
        return Some((DumpKind::Thread, crate::text::string_from_range(&v, 11, n - 4)));
    }
    if heap && str_ends_with(name, ".hprof") {
        proof {
            if name@.len() < 15 {
                let k = name@.len() - 6;
                assert(name@.subrange(name@.len() - 6, name@.len() as int)[0] == name@[k]);
                assert(name@.subrange(0, 9)[k] == name@[k]);
            }
        }
        return Some((DumpKind::Heap, crate::text::string_from_range(&v, 9, n - 6)));
    }
    None
}

/// An entry of a dump directory's listing: the file's name when it is
/// valid UTF-8, its full path, its size, and whether it is a regular file.
#[derive(Debug)]
pub struct DirEntryInfo {
    pub file_name: Option<String>,
    pub path: String,
    pub size_bytes: u64,
    pub is_file: bool,
}

/// The record of a saved dump found in a listing.
pub open spec fn found_dump(
    e: DirEntryInfo,
    app_url: Seq<char>,
    app_name: Seq<char>,
    timestamp: Seq<char>,
) -> SavedDumpView {
    SavedDumpView {
        app_url,
        app_name,
        path: e.path@,
        timestamp,
        size_bytes: e.size_bytes,
    }
}

/// The dumps of one kind found in a listing, in listing order.
pub open spec fn found_dumps(
    entries: Seq<DirEntryInfo>,
    kind: DumpKind,
    app_url: Seq<char>,
    app_name: Seq<char>,
) -> Seq<SavedDumpView>
    decreases entries.len(),
{
    if entries.len() == 0 {
        Seq::empty()
    } else {
        let rest = found_dumps(entries.drop_last(), kind, app_url, app_name);
        let e = entries.last();
        match e.file_name {
            Some(n) => match classify_spec(n@) {
                Some((k, ts)) => if e.is_file && k == kind {
                    rest.push(found_dump(e, app_url, app_name, ts))
                } else {
                    rest
                },
                None => rest,
            },
            None => rest,
        }
    }
}

// ---------------------------------------------------------------------------
// Newest first
// ---------------------------------------------------------------------------

/// Where a stable insertion puts `x` into a newest-first list, searching
/// from `i`: before the first dump with an earlier timestamp.
pub open spec fn dump_insert_pos(s: Seq<SavedDumpView>, x: SavedDumpView, i: int) -> int
    decreases s.len() - i,
{
    if i < 0 || i >= s.len() {
        s.len() as int
    } else if chars_before(s[i].timestamp, x.timestamp) {
        i
    } else {
        dump_insert_pos(s, x, i + 1)
    }
}

/// Dumps newest first: a stable sort by timestamp, latest first (each
/// dump is inserted after all whose timestamp is not earlier).
pub open spec fn newest_first(s: Seq<SavedDumpView>) -> Seq<SavedDumpView>
    decreases s.len(),
{
    if s.len() == 0 {
        s
    } else {
        let sorted = newest_first(s.drop_last());
        sorted.insert(dump_insert_pos(sorted, s.last(), 0), s.last())
    }
}

/// The dumps are newest first: none has an earlier timestamp than one
/// listed after it.
pub open spec fn newest_first_order(s: Seq<SavedDumpView>) -> bool {
    forall|i: int, j: int|
        0 <= i < j < s.len() ==> !chars_before((#[trigger] s[i]).timestamp, (#[trigger] s[j]).timestamp)
}

proof fn lemma_dump_insert_pos_facts(t: Seq<SavedDumpView>, x: SavedDumpView, i: int)
    requires
        0 <= i <= t.len(),
    ensures
        i <= dump_insert_pos(t, x, i) <= t.len(),
        forall|k: int|
            i <= k < dump_insert_pos(t, x, i) ==> !chars_before((#[trigger] t[k]).timestamp, x.timestamp),
        dump_insert_pos(t, x, i) < t.len() ==> chars_before(t[dump_insert_pos(t, x, i)].timestamp, x.timestamp),
    decreases t.len() - i,
{
    if i < t.len() && !chars_before(t[i].timestamp, x.timestamp) {
        lemma_dump_insert_pos_facts(t, x, i + 1);
    }
}

proof fn lemma_dump_insert_keeps_order(t: Seq<SavedDumpView>, x: SavedDumpView)
    requires
        newest_first_order(t),
    ensures
        newest_first_order(t.insert(dump_insert_pos(t, x, 0), x)),
{
    let p = dump_insert_pos(t, x, 0);
    lemma_dump_insert_pos_facts(t, x, 0);
    let r = t.insert(p, x);
    assert forall|i: int, j: int| 0 <= i < j < r.len() implies !chars_before((#[trigger] r[i]).timestamp, (#[trigger] r[j]).timestamp) by {
        if j < p {
            assert(r[i] == t[i] && r[j] == t[j]);
        } else if j == p {
            assert(r[i] == t[i]);
        } else if i < p {
            assert(r[i] == t[i] && r[j] == t[j - 1]);
        } else if i == p {
            assert(r[j] == t[j - 1]);
            if chars_before(x.timestamp, t[j - 1].timestamp) {
                lemma_chars_before_transitive(t[p].timestamp, x.timestamp, t[j - 1].timestamp);
                if j - 1 == p {
                    lemma_chars_before_irreflexive(t[p].timestamp);
                }
            }
        } else {
            assert(r[i] == t[i - 1] && r[j] == t[j - 1]);
        }
    }
}

/// Saved dumps are listed newest first, and every dump found is listed,
/// each as often as it was found.
pub proof fn law_dumps_newest_first(s: Seq<SavedDumpView>)
    ensures
        newest_first_order(newest_first(s)),
        newest_first(s).to_multiset() == s.to_multiset(),
    decreases s.len(),
{
    broadcast use vstd::seq_lib::to_multiset_build, vstd::seq_lib::to_multiset_insert;

    if s.len() > 0 {
        let rest = s.drop_last();
        law_dumps_newest_first(rest);
        let sorted = newest_first(rest);
        lemma_dump_insert_pos_facts(sorted, s.last(), 0);
        lemma_dump_insert_keeps_order(sorted, s.last());
        assert(rest.push(s.last()) =~= s);
    }
}

/// The views of saved dumps.
pub open spec fn dump_views(s: Seq<SavedDump>) -> Seq<SavedDumpView> {
    s.map_values(|d: SavedDump| d@)
}

proof fn lemma_dump_insert_pos_bounds(s: Seq<SavedDumpView>, x: SavedDumpView, i: int)
    requires
        0 <= i <= s.len(),
    ensures
        i <= dump_insert_pos(s, x, i) <= s.len(),
    decreases s.len() - i,
{
    if i < s.len() && !chars_before(s[i].timestamp, x.timestamp) {
        lemma_dump_insert_pos_bounds(s, x, i + 1);
    }
}

fn insert_newest_first(sorted: &mut Vec<SavedDump>, keys: &mut Vec<Vec<char>>, d: SavedDump)
    requires
        old(keys)@.len() == old(sorted)@.len(),
        forall|k: int| 0 <= k < old(sorted)@.len() ==> (#[trigger] old(keys)@[k])@ == old(sorted)@[k].timestamp@,
    ensures
        final(keys)@.len() == final(sorted)@.len(),
        forall|k: int| 0 <= k < final(sorted)@.len() ==> (#[trigger] final(keys)@[k])@ == final(sorted)@[k].timestamp@,
        dump_views(final(sorted)@) == dump_views(old(sorted)@).insert(
            dump_insert_pos(dump_views(old(sorted)@), d@, 0),
            d@,
        ),
{
    let ghost views = dump_views(sorted@);
    let t = chars_of(d.timestamp.as_str());
    let mut i: usize = 0;
    while i < sorted.len() && !chars_less(&keys[i], &t)
        invariant
            i <= sorted@.len(),
            views == dump_views(sorted@),
            t@ == d.timestamp@,
            keys@.len() == sorted@.len(),
            forall|k: int| 0 <= k < sorted@.len() ==> (#[trigger] keys@[k])@ == sorted@[k].timestamp@,
            dump_insert_pos(views, d@, 0) == dump_insert_pos(views, d@, i as int),
        decreases sorted@.len() - i,
    {
        proof {
            assert(views[i as int] == sorted@[i as int]@);
        }
        i += 1;
    }
    proof {
        if i < sorted@.len() {
            assert(views[i as int] == sorted@[i as int]@);
        }
        assert(dump_insert_pos(views, d@, i as int) == i as int);
    }
    let ghost dv = d@;
    let ghost dd = d;
    let ghost s0 = sorted@;
    let ghost k0 = keys@;
    sorted.insert(i, d);
    keys.insert(i, t);
    proof {
        assert(dump_views(sorted@) =~= views.insert(i as int, dv));
        assert forall|k: int| 0 <= k < sorted@.len() implies (#[trigger] keys@[k])@
            == sorted@[k].timestamp@ by {
            if k < i {
                assert(sorted@[k] == s0[k]);
                assert(keys@[k] == k0[k]);
            } else if k == i {
                assert(sorted@[k] == dd);
            } else {
                assert(sorted@[k] == s0[k - 1]);
                assert(keys@[k] == k0[k - 1]);
            }
        }
    }
}

/// The saved dumps of a directory listing, thread dumps and heap dumps
/// apart, each newest first, all recorded for the given application.
pub fn collect_saved_dumps(entries: &Vec<DirEntryInfo>, app_url: &str, app_name: &str) -> (r: (
    Vec<SavedDump>,
    Vec<SavedDump>,
))
    ensures
        dump_views(r.0@) == newest_first(
            found_dumps(entries@, DumpKind::Thread, app_url@, app_name@),
        ),
        dump_views(r.1@) == newest_first(found_dumps(entries@, DumpKind::Heap, app_url@, app_name@)),
{
    let mut threads: Vec<SavedDump> = Vec::new();
    let mut thread_keys: Vec<Vec<char>> = Vec::new();
    let mut heaps: Vec<SavedDump> = Vec::new();
    let mut heap_keys: Vec<Vec<char>> = Vec::new();
    let mut i: usize = 0;
    while i < entries.len()
        invariant
            i <= entries.len(),
            thread_keys@.len() == threads@.len(),
            forall|k: int| 0 <= k < threads@.len() ==> (#[trigger] thread_keys@[k])@ == threads@[k].timestamp@,
            heap_keys@.len() == heaps@.len(),
            forall|k: int| 0 <= k < heaps@.len() ==> (#[trigger] heap_keys@[k])@ == heaps@[k].timestamp@,
            dump_views(threads@) == newest_first(
                found_dumps(entries@.take(i as int), DumpKind::Thread, app_url@, app_name@),
            ),
            dump_views(heaps@) == newest_first(
                found_dumps(entries@.take(i as int), DumpKind::Heap, app_url@, app_name@),
            ),
        decreases entries.len() - i,
    {
        let ghost pre = entries@.take(i as int);
        proof {
            assert(entries@.take(i + 1).drop_last() =~= pre);
            assert(entries@.take(i + 1).last() == entries@[i as int]);
        }
        let ghost ft = found_dumps(pre, DumpKind::Thread, app_url@, app_name@);
        let ghost fh = found_dumps(pre, DumpKind::Heap, app_url@, app_name@);
        let e = &entries[i];
        if e.is_file {
            if let Some(name) = &e.file_name {
                if let Some((kind, ts)) = classify_dump_file(name.as_str()) {
                    let d = SavedDump {
                        app_url: owned(app_url),
                        app_name: owned(app_name),
                        path: e.path.clone(),
                        timestamp: ts,
                        size_bytes: e.size_bytes,
                    };
                    let ghost dv = d@;
                    proof {
                        assert(dv == found_dump(*e, app_url@, app_name@, dv.timestamp));
                    }
                    match kind {
                        DumpKind::Thread => {
                            insert_newest_first(&mut threads, &mut thread_keys, d);
                            proof {
                                assert(found_dumps(entries@.take(i + 1), DumpKind::Thread, app_url@, app_name@) == ft.push(dv));
                                assert(ft.push(dv).drop_last() =~= ft);
                                assert(found_dumps(entries@.take(i + 1), DumpKind::Heap, app_url@, app_name@) == fh);
                            }
                        },
                        DumpKind::Heap => {
                            insert_newest_first(&mut heaps, &mut heap_keys, d);
                            proof {
                                assert(found_dumps(entries@.take(i + 1), DumpKind::Heap, app_url@, app_name@) == fh.push(dv));
                                assert(fh.push(dv).drop_last() =~= fh);
                                assert(found_dumps(entries@.take(i + 1), DumpKind::Thread, app_url@, app_name@) == ft);
                            }
                        },
                    }
                }
            }
        }
        i += 1;
    }
    proof {
        assert(entries@.take(i as int) =~= entries@);
    }
    (threads, heaps)
}

// ---------------------------------------------------------------------------
// Dumps per application
// ---------------------------------------------------------------------------

/// How many of the dumps were taken of the application at `url`.
pub open spec fn count_for_url_spec(dumps: Seq<SavedDumpView>, url: Seq<char>) -> nat
    decreases dumps.len(),
{
    if dumps.len() == 0 {
        0
    } else {
        count_for_url_spec(dumps.drop_last(), url) + if dumps.last().app_url == url {
            1nat
        } else {
            0nat
        }
    }
}

/// How many of the dumps were taken of the application at `url` (the
/// apps table shows it per application).
pub fn count_for_url(dumps: &Vec<SavedDump>, url: &str) -> (r: usize)
    ensures
        r == count_for_url_spec(dump_views(dumps@), url@),
{
    let mut n: usize = 0;
    let mut i: usize = 0;
    while i < dumps.len()
        invariant
            i <= dumps@.len(),
            n <= i,
            n == count_for_url_spec(dump_views(dumps@.take(i as int)), url@),
        decreases dumps@.len() - i,
    {
        proof {
            assert(dump_views(dumps@.take(i as int + 1)).drop_last() =~= dump_views(
                dumps@.take(i as int),
            ));
        }
        if crate::text::str_eq(dumps[i].app_url.as_str(), url) {
            n = n + 1;
        }
        i = i + 1;
    }
    proof {
        assert(dumps@.take(i as int) =~= dumps@);
    }
    n
}

// ---------------------------------------------------------------------------
// Messages for failed dump requests
// ---------------------------------------------------------------------------

/// The name of a dump kind in messages (`Thread`, `Heap`).
pub open spec fn kind_title(kind: DumpKind) -> Seq<char> {
    match kind {
        DumpKind::Thread => "Thread"@,
        DumpKind::Heap => "Heap"@,
    }
}

/// The actuator endpoint of a dump kind (`threaddump`, `heapdump`).
pub open spec fn kind_endpoint(kind: DumpKind) -> Seq<char> {
    match kind {
        DumpKind::Thread => "threaddump"@,
        DumpKind::Heap => "heapdump"@,
    }
}

/// The message for a dump request that did not succeed: for 404, how to
/// expose the endpoint; for any other status, the status and a hint.
pub open spec fn dump_failure_spec(kind: DumpKind, code: u16, status_text: Seq<char>) -> Seq<char> {
    if code == 404 {
        kind_title(kind) + " dump endpoint not found.\n\nThe /actuator/"@ + kind_endpoint(kind)
            + " endpoint is not available.\nMake sure your application has:\n1. spring-boot-starter-actuator dependency\n2. management.endpoints.web.exposure.include="@
            + kind_endpoint(kind) + "\n   (or include=* to expose all endpoints)"@
    } else {
        kind_title(kind) + " dump request failed with status "@ + status_text
            + ".\nThe endpoint may not be enabled or accessible."@
    }
}

/// The message for a dump request that came back with a status other than
/// success; `status_text` is the status as it is printed (code and reason).
pub fn dump_failure_message(kind: DumpKind, code: u16, status_text: &str) -> (r: String)
    ensures
        r@ == dump_failure_spec(kind, code, status_text@),
{
    let title = match kind {
        DumpKind::Thread => "Thread",
        DumpKind::Heap => "Heap",
    };
    let endpoint = match kind {
        DumpKind::Thread => "threaddump",
        DumpKind::Heap => "heapdump",
    };
    let mut r = owned(title);
    if code == 404 {
        push_str(&mut r, " dump endpoint not found.\n\nThe /actuator/");
        push_str(&mut r, endpoint);
        push_str(
            &mut r,
            " endpoint is not available.\nMake sure your application has:\n1. spring-boot-starter-actuator dependency\n2. management.endpoints.web.exposure.include=",
        );
        push_str(&mut r, endpoint);
        push_str(&mut r, "\n   (or include=* to expose all endpoints)");
    } else {
        push_str(&mut r, " dump request failed with status ");
        push_str(&mut r, status_text);
        push_str(&mut r, ".\nThe endpoint may not be enabled or accessible.");
    }
    r
}

} // verus!
