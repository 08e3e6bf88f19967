//! Reading thread dumps: the thread list shown by the thread view, sorted
//! by state and name, and the text renderings of a dump.

use vstd::prelude::*;

use crate::actuator::{concat_map, lemma_concat_map_step, lemma_take_all};
use crate::json::{
    get_str_or, json_array, json_bool, json_get, json_i64, opt_str, str_or, JsonValue, parse_json, parsed_json};
use crate::model::{frame_views, StackFrame, StackFrameView, ThreadInfo, ThreadInfoView};
use crate::text::{
    chars_of, decimal, push_decimal, push_signed_decimal, push_str, signed_decimal, str_eq,
    to_uppercase, uppercase,
};

verus! {

// ---------------------------------------------------------------------------
// Parsing
// ---------------------------------------------------------------------------

/// An integer member, or `default`.
pub open spec fn i64_or(v: Option<JsonValue>, default: i64) -> i64 {
    match json_i64(v) {
        Some(n) => n,
        None => default,
    }
}

/// A boolean member, or `false`.
pub open spec fn bool_or_false(v: Option<JsonValue>) -> bool {
    match json_bool(v) {
        Some(b) => b,
        None => false,
    }
}

/// The stack frame one entry of `stackTrace` describes.
pub open spec fn frame_of(f: JsonValue) -> StackFrameView {
    StackFrameView {
        class_name: str_or(json_get(f, "className"@), "Unknown"@),
        method_name: str_or(json_get(f, "methodName"@), "unknown"@),
        file_name: str_or(json_get(f, "fileName"@), ""@),
        line_number: i64_or(json_get(f, "lineNumber"@), -1i64),
        native_method: bool_or_false(json_get(f, "nativeMethod"@)),
    }
}

/// The entries of a thread's `stackTrace`, or none.
pub open spec fn frames_json(t: JsonValue) -> Seq<JsonValue> {
    match json_array(json_get(t, "stackTrace"@)) {
        Some(fs) => fs,
        None => Seq::empty(),
    }
}

/// The thread one entry of `threads` describes.
pub open spec fn thread_of(t: JsonValue) -> ThreadInfoView {
    ThreadInfoView {
        name: str_or(json_get(t, "threadName"@), "unknown"@),
        id: i64_or(json_get(t, "threadId"@), 0),
        state: str_or(json_get(t, "threadState"@), "UNKNOWN"@),
        daemon: bool_or_false(json_get(t, "daemon"@)),
        stack_trace: frames_json(t).map_values(|f: JsonValue| frame_of(f)),
    }
}

/// The entries of `threads` in a dump, or none.
pub open spec fn threads_json(body: JsonValue) -> Seq<JsonValue> {
    match json_array(json_get(body, "threads"@)) {
        Some(ts) => ts,
        None => Seq::empty(),
    }
}

/// The rank of a thread state in the thread view: running threads first,
/// then blocked, sleeping, waiting, and all others.
pub open spec fn state_rank(state: Seq<char>) -> nat {
    let s = uppercase(state);
    if s == "RUNNABLE"@ {
        0
    } else if s == "BLOCKED"@ {
        1
    } else if s == "TIMED_WAITING"@ {
        2
    } else if s == "WAITING"@ {
        3
    } else {
        4
    }
}

/// Lexicographic order of character sequences by code point, which is the
/// order of `String` comparison (byte-wise UTF-8 order agrees with it).
pub open spec fn chars_before_at(a: Seq<char>, b: Seq<char>, i: int) -> bool
    decreases a.len() - i,
{
    if i < 0 {
        false
    } else if i >= a.len() {
        i < b.len()
    } else if i >= b.len() {
        false
    } else if a[i] != b[i] {
        (a[i] as u32) < (b[i] as u32)
    } else {
        chars_before_at(a, b, i + 1)
    }
}

/// `a` comes strictly before `b` in string order.
pub open spec fn chars_before(a: Seq<char>, b: Seq<char>) -> bool {
    chars_before_at(a, b, 0)
}

/// `a` sorts strictly before `b` in the thread view: by state rank, then
/// by name.
pub open spec fn thread_before(a: ThreadInfoView, b: ThreadInfoView) -> bool {
    state_rank(a.state) < state_rank(b.state) || (state_rank(a.state) == state_rank(b.state)
        && chars_before(a.name, b.name))
}

/// Where a stable insertion puts `x` into `s`, searching from `i`: before
/// the first element that `x` sorts strictly before.
pub open spec fn insert_pos(s: Seq<ThreadInfoView>, x: ThreadInfoView, i: int) -> int
    decreases s.len() - i,
{
    if i < 0 || i >= s.len() {
        s.len() as int
    } else if thread_before(x, s[i]) {
        i
    } else {
        insert_pos(s, x, i + 1)
    }
}

/// The threads in view order: a stable sort by state rank and name (the
/// elements are inserted one by one, each after all that do not sort after
/// it, which is what a stable sort yields).
pub open spec fn sort_threads(s: Seq<ThreadInfoView>) -> Seq<ThreadInfoView>
    decreases s.len(),
{
    if s.len() == 0 {
        s
    } else {
        let sorted = sort_threads(s.drop_last());
        sorted.insert(insert_pos(sorted, s.last(), 0), s.last())
    }
}

/// The threads of a dump as the thread view lists them.
pub open spec fn threads_spec(body: JsonValue) -> Seq<ThreadInfoView> {
    sort_threads(threads_json(body).map_values(|t: JsonValue| thread_of(t)))
}

/// The views of a sequence of threads.
pub open spec fn thread_views(s: Seq<ThreadInfo>) -> Seq<ThreadInfoView> {
    s.map_values(|t: ThreadInfo| t@)
}

/// Whether `a` comes strictly before `b` in string order.
pub fn chars_less(a: &Vec<char>, b: &Vec<char>) -> (r: bool)
    ensures
        r == chars_before(a@, b@),
{
    let mut i: usize = 0;
    while i < a.len() && i < b.len() && a[i] == b[i]
        invariant
            i <= a.len(),
            i <= b.len(),
            chars_before(a@, b@) == chars_before_at(a@, b@, i as int),
        decreases a.len() - i,
    {
        i += 1;
    }
    if i >= a.len() {
        i < b.len()
    } else if i >= b.len() {
        false
    } else {
        (a[i] as u32) < (b[i] as u32)
    }
}

/// The rank of a thread state in the thread view.
pub fn state_rank_exec(state: &str) -> (r: u8)
    ensures
        r as nat == state_rank(state@),
{
    let s = to_uppercase(state);
    if str_eq(s.as_str(), "RUNNABLE") {
        0
    } else if str_eq(s.as_str(), "BLOCKED") {
        1
    } else if str_eq(s.as_str(), "TIMED_WAITING") {
        2
    } else if str_eq(s.as_str(), "WAITING") {
        3
    } else {
        4
    }
}

fn frame_from_json(f: &JsonValue) -> (r: StackFrame)
    ensures
        r@ == frame_of(*f),
{
    let line_number = match f.get("lineNumber") {
        Some(x) => match x.as_i64() {
            Some(n) => n,
            None => -1,
        },
        None => -1,
    };
    let native_method = match f.get("nativeMethod") {
        Some(x) => match x.as_bool() {
            Some(b) => b,
            None => false,
        },
        None => false,
    };
    StackFrame {
        class_name: get_str_or(f, "className", "Unknown"),
        method_name: get_str_or(f, "methodName", "unknown"),
        file_name: get_str_or(f, "fileName", ""),
        line_number,
        native_method,
    }
}

fn thread_from_json(t: &JsonValue) -> (r: ThreadInfo)
    ensures
        r@ == thread_of(*t),
{
    let id = match t.get("threadId") {
        Some(x) => match x.as_i64() {
            Some(n) => n,
            None => 0,
        },
        None => 0,
    };
    let daemon = match t.get("daemon") {
        Some(x) => match x.as_bool() {
            Some(b) => b,
            None => false,
        },
        None => false,
    };
    let mut stack_trace: Vec<StackFrame> = Vec::new();
    if let Some(s) = t.get("stackTrace") {
        if let Some(fs) = s.as_array() {
            let mut i: usize = 0;
            while i < fs.len()
                invariant
                    i <= fs.len(),
                    stack_trace@.len() == i,
                    forall|k: int| 0 <= k < i ==> (#[trigger] stack_trace@[k])@ == frame_of(fs@[k]),
                decreases fs.len() - i,
            {
                stack_trace.push(frame_from_json(&fs[i]));
                i += 1;
            }
        }
    }
    let r = ThreadInfo {
        name: get_str_or(t, "threadName", "unknown"),
        id,
        state: get_str_or(t, "threadState", "UNKNOWN"),
        daemon,
        stack_trace,
    };
    proof {
        assert(frame_views(r.stack_trace@) =~= frames_json(*t).map_values(
            |f: JsonValue| frame_of(f),
        ));
    }
    r
}

proof fn lemma_insert_pos_bounds(s: Seq<ThreadInfoView>, x: ThreadInfoView, i: int)
    requires
        0 <= i <= s.len(),
    ensures
        i <= insert_pos(s, x, i) <= s.len(),
    decreases s.len() - i,
{
    if i < s.len() && !thread_before(x, s[i]) {
        lemma_insert_pos_bounds(s, x, i + 1);
    }
}

/// Sort keys kept beside each thread of a sorted list.
pub open spec fn keys_match(sorted: Seq<ThreadInfo>, ranks: Seq<u8>, names: Seq<Vec<char>>) -> bool {
    &&& ranks.len() == sorted.len()
    &&& names.len() == sorted.len()
    &&& forall|k: int|
        0 <= k < sorted.len() ==> (#[trigger] ranks[k]) as nat == state_rank(sorted[k].state@)
    &&& forall|k: int| 0 <= k < sorted.len() ==> (#[trigger] names[k])@ == sorted[k].name@
}

proof fn lemma_keys_at(sorted: Seq<ThreadInfo>, ranks: Seq<u8>, names: Seq<Vec<char>>, k: int)
    requires
        keys_match(sorted, ranks, names),
        0 <= k < sorted.len(),
    ensures
        ranks[k] as nat == state_rank(sorted[k].state@),
        names[k]@ == sorted[k].name@,
{
}

/// Inserts a thread into a list in view order, after every thread that
/// does not sort after it.
fn insert_thread(sorted: &mut Vec<ThreadInfo>, ranks: &mut Vec<u8>, names: &mut Vec<Vec<char>>, t: ThreadInfo)
    requires
        keys_match(old(sorted)@, old(ranks)@, old(names)@),
    ensures
        keys_match(final(sorted)@, final(ranks)@, final(names)@),
        thread_views(final(sorted)@) == thread_views(old(sorted)@).insert(
            insert_pos(thread_views(old(sorted)@), t@, 0),
            t@,
        ),
{
    let ghost views = thread_views(sorted@);
    let r = state_rank_exec(t.state.as_str());
    let n = chars_of(t.name.as_str());
    let mut i: usize = 0;
    while i < sorted.len() && !(r < ranks[i] || (r == ranks[i] && chars_less(&n, &names[i])))
        invariant
            i <= sorted@.len(),
            views == thread_views(sorted@),
            r as nat == state_rank(t.state@),
            n@ == t.name@,
            keys_match(sorted@, ranks@, names@),
            insert_pos(views, t@, 0) == insert_pos(views, t@, i as int),
        decreases sorted@.len() - i,
    {
        proof {
            assert(views[i as int] == sorted@[i as int]@);
        }
        i += 1;
    }
    proof {
        if i < sorted@.len() {
            assert(views[i as int] == sorted@[i as int]@);
        }
        assert(insert_pos(views, t@, i as int) == i as int);
    }
    let ghost tv = t@;
    let ghost tt = t;
    let ghost s0 = sorted@;
    let ghost r0 = ranks@;
    let ghost n0 = names@;
    assert(keys_match(s0, r0, n0));
    sorted.insert(i, t);
    ranks.insert(i, r);
    names.insert(i, n);
    proof {
        assert(thread_views(sorted@) =~= views.insert(i as int, tv));
        assert forall|k: int| 0 <= k < sorted@.len() implies (#[trigger] ranks@[k]) as nat
            == state_rank(sorted@[k].state@) && names@[k]@ == sorted@[k].name@ by {
            if k < i {
                assert(sorted@[k] == s0[k]);
                assert(ranks@[k] == r0[k]);
                assert(names@[k] == n0[k]);
                lemma_keys_at(s0, r0, n0, k);
            } else if k == i {
                assert(sorted@[k] == tt);
            } else {
                assert(sorted@[k] == s0[k - 1]);
                assert(ranks@[k] == r0[k - 1]);
                assert(names@[k] == n0[k - 1]);
                lemma_keys_at(s0, r0, n0, k - 1);
            }
        }
    }
}

/// The threads of a thread dump, as the thread view lists them: sorted by
/// state (running, blocked, sleeping, waiting, other) and then by name,
/// keeping the dump's order among equal keys.
pub fn parse_thread_dump(body: &JsonValue) -> (r: Vec<ThreadInfo>)
    ensures
        thread_views(r@) == threads_spec(*body),
{
    let mut sorted: Vec<ThreadInfo> = Vec::new();
    let mut ranks: Vec<u8> = Vec::new();
    let mut names: Vec<Vec<char>> = Vec::new();
    let ghost parsed = threads_json(*body).map_values(|t: JsonValue| thread_of(t));
    if let Some(ts) = body.get("threads") {
        if let Some(items) = ts.as_array() {
            let mut i: usize = 0;
            proof {
                assert(parsed.take(0) =~= Seq::<ThreadInfoView>::empty());
                assert(thread_views(sorted@) =~= sort_threads(parsed.take(0)));
            }
            while i < items.len()
                invariant
                    i <= items.len(),
                    parsed == items@.map_values(|t: JsonValue| thread_of(t)),
                    keys_match(sorted@, ranks@, names@),
                    thread_views(sorted@) == sort_threads(parsed.take(i as int)),
                decreases items.len() - i,
            {
                let t = thread_from_json(&items[i]);
                insert_thread(&mut sorted, &mut ranks, &mut names, t);
                proof {
                    assert(parsed.take(i + 1).drop_last() =~= parsed.take(i as int));
                    assert(parsed.take(i + 1).last() == parsed[i as int]);
                }
                i += 1;
            }
            proof {
                assert(parsed.take(i as int) =~= parsed);
            }
            return sorted;
        }
    }
    proof {
        assert(parsed =~= Seq::<ThreadInfoView>::empty());
    }
    sorted
}

// ---------------------------------------------------------------------------
// The order of the thread view
// ---------------------------------------------------------------------------

proof fn lemma_chars_before_at_irreflexive(a: Seq<char>, i: int)
    requires
        0 <= i,
    ensures
        !chars_before_at(a, a, i),
    decreases a.len() - i,
{
    if i < a.len() {
        lemma_chars_before_at_irreflexive(a, i + 1);
    }
}

proof fn lemma_chars_before_at_transitive(a: Seq<char>, b: Seq<char>, c: Seq<char>, i: int)
    requires
        0 <= i,
        chars_before_at(a, b, i),
        chars_before_at(b, c, i),
    ensures
        chars_before_at(a, c, i),
    decreases a.len() - i,
{
    if i < a.len() && a[i] == b[i] && b[i] == c[i] {
        lemma_chars_before_at_transitive(a, b, c, i + 1);
    }
}

/// No string comes before itself.
pub proof fn lemma_chars_before_irreflexive(a: Seq<char>)
    ensures
        !chars_before(a, a),
{
    lemma_chars_before_at_irreflexive(a, 0);
}

/// String order is transitive.
pub proof fn lemma_chars_before_transitive(a: Seq<char>, b: Seq<char>, c: Seq<char>)
    requires
        chars_before(a, b),
        chars_before(b, c),
    ensures
        chars_before(a, c),
{
    lemma_chars_before_at_transitive(a, b, c, 0);
}

/// The threads are in the thread view's order: no thread sorts strictly
/// before one listed ahead of it.
pub open spec fn in_view_order(s: Seq<ThreadInfoView>) -> bool {
    forall|i: int, j: int| 0 <= i < j < s.len() ==> !thread_before(#[trigger] s[j], #[trigger] s[i])
}

proof fn lemma_thread_before_transitive(a: ThreadInfoView, b: ThreadInfoView, c: ThreadInfoView)
    requires
        thread_before(a, b),
        thread_before(b, c),
    ensures
        thread_before(a, c),
{
    if state_rank(a.state) == state_rank(b.state) && state_rank(b.state) == state_rank(c.state) {
        lemma_chars_before_transitive(a.name, b.name, c.name);
    }
}

proof fn lemma_insert_pos_facts(t: Seq<ThreadInfoView>, x: ThreadInfoView, i: int)
    requires
        0 <= i <= t.len(),
    ensures
        i <= insert_pos(t, x, i) <= t.len(),
        forall|k: int| i <= k < insert_pos(t, x, i) ==> !thread_before(x, #[trigger] t[k]),
        insert_pos(t, x, i) < t.len() ==> thread_before(x, t[insert_pos(t, x, i)]),
    decreases t.len() - i,
{
    if i < t.len() && !thread_before(x, t[i]) {
        lemma_insert_pos_facts(t, x, i + 1);
    }
}

proof fn lemma_insert_keeps_view_order(t: Seq<ThreadInfoView>, x: ThreadInfoView)
    requires
        in_view_order(t),
    ensures
        in_view_order(t.insert(insert_pos(t, x, 0), x)),
{
    let p = insert_pos(t, x, 0);
    lemma_insert_pos_facts(t, x, 0);
    let r = t.insert(p, x);
    assert forall|i: int, j: int| 0 <= i < j < r.len() implies !thread_before(#[trigger] r[j], #[trigger] r[i]) by {
        if j < p {
            assert(r[i] == t[i] && r[j] == t[j]);
        } else if j == p {
            assert(r[i] == t[i]);
        } else if i < p {
            assert(r[i] == t[i] && r[j] == t[j - 1]);
        } else if i == p {
            assert(r[j] == t[j - 1]);
            if thread_before(t[j - 1], x) {
                lemma_thread_before_transitive(t[j - 1], x, t[p]);
                if j - 1 == p {
                    lemma_chars_before_irreflexive(t[p].name);
                }
            }
        } else {
            assert(r[i] == t[i - 1] && r[j] == t[j - 1]);
        }
    }
}

/// The thread view lists a dump's threads running first, then blocked,
/// sleeping, waiting and the rest, each group by name; and it lists every
/// thread of the dump, each as often as the dump does.
pub proof fn law_thread_view_order(s: Seq<ThreadInfoView>)
    ensures
        in_view_order(sort_threads(s)),
        sort_threads(s).to_multiset() == s.to_multiset(),
    decreases s.len(),
{
    broadcast use vstd::seq_lib::to_multiset_build, vstd::seq_lib::to_multiset_insert;

    if s.len() > 0 {
        let rest = s.drop_last();
        law_thread_view_order(rest);
        let sorted = sort_threads(rest);
        lemma_insert_pos_facts(sorted, s.last(), 0);
        lemma_insert_keeps_view_order(sorted, s.last());
        assert(rest.push(s.last()) =~= s);
    }
}

// ---------------------------------------------------------------------------
// Thread states
// ---------------------------------------------------------------------------

/// How the thread view colours a thread state.
#[derive(Debug, Clone, Copy, PartialEq, Eq, Structural)]
pub enum StateCategory {
    Running,
    Sleeping,
    Waiting,
    Blocked,
    New,
    Terminated,
    Other,
}

/// The category of a state, by its upper-case name.
pub open spec fn state_category_spec(state: Seq<char>) -> StateCategory {
    let s = uppercase(state);
    if s == "RUNNABLE"@ {
        StateCategory::Running
    } else if s == "SLEEPING"@ || s == "TIMED_WAITING"@ {
        StateCategory::Sleeping
    } else if s == "WAITING"@ {
        StateCategory::Waiting
    } else if s == "BLOCKED"@ {
        StateCategory::Blocked
    } else if s == "NEW"@ {
        StateCategory::New
    } else if s == "TERMINATED"@ {
        StateCategory::Terminated
    } else {
        StateCategory::Other
    }
}

/// The category of a thread state.
pub fn state_category(state: &str) -> (r: StateCategory)
    ensures
        r == state_category_spec(state@),
{
    let s = to_uppercase(state);
    if str_eq(s.as_str(), "RUNNABLE") {
        StateCategory::Running
    } else if str_eq(s.as_str(), "SLEEPING") || str_eq(s.as_str(), "TIMED_WAITING") {
        StateCategory::Sleeping
    } else if str_eq(s.as_str(), "WAITING") {
        StateCategory::Waiting
    } else if str_eq(s.as_str(), "BLOCKED") {
        StateCategory::Blocked
    } else if str_eq(s.as_str(), "NEW") {
        StateCategory::New
    } else if str_eq(s.as_str(), "TERMINATED") {
        StateCategory::Terminated
    } else {
        StateCategory::Other
    }
}

/// The label the thread view shows for a state.
pub open spec fn state_label_spec(state: Seq<char>) -> Seq<char> {
    let s = uppercase(state);
    if s == "RUNNABLE"@ {
        "Running"@
    } else if s == "TIMED_WAITING"@ {
        "Sleeping"@
    } else if s == "WAITING"@ {
        "Wait"@
    } else if s == "BLOCKED"@ {
        "Blocked"@
    } else if s == "NEW"@ {
        "New"@
    } else if s == "TERMINATED"@ {
        "Dead"@
    } else {
        state
    }
}

/// The label the thread view shows for a state; unknown states are shown
/// as they are.
pub fn state_label(state: &str) -> (r: String)
    ensures
        r@ == state_label_spec(state@),
{
    let s = to_uppercase(state);
    if str_eq(s.as_str(), "RUNNABLE") {
        crate::text::owned("Running")
    } else if str_eq(s.as_str(), "TIMED_WAITING") {
        crate::text::owned("Sleeping")
    } else if str_eq(s.as_str(), "WAITING") {
        crate::text::owned("Wait")
    } else if str_eq(s.as_str(), "BLOCKED") {
        crate::text::owned("Blocked")
    } else if str_eq(s.as_str(), "NEW") {
        crate::text::owned("New")
    } else if str_eq(s.as_str(), "TERMINATED") {
        crate::text::owned("Dead")
    } else {
        crate::text::owned(state)
    }
}

/// Counts shown above the thread list.
#[derive(Debug, Clone, Copy, PartialEq, Eq, Structural)]
pub struct ThreadSummary {
    pub total: usize,
    pub running: usize,
    pub waiting: usize,
    pub timed_waiting: usize,
    pub blocked: usize,
    pub daemon: usize,
}

/// The number of threads whose upper-case state is `state`.
pub open spec fn count_state(s: Seq<ThreadInfoView>, state: Seq<char>) -> nat
    decreases s.len(),
{
    if s.len() == 0 {
        0
    } else {
        count_state(s.drop_last(), state) + if uppercase(s.last().state) == state {
            1nat
        } else {
            0nat
        }
    }
}

/// The number of daemon threads.
pub open spec fn count_daemon(s: Seq<ThreadInfoView>) -> nat
    decreases s.len(),
{
    if s.len() == 0 {
        0
    } else {
        count_daemon(s.drop_last()) + if s.last().daemon {
            1nat
        } else {
            0nat
        }
    }
}

proof fn lemma_counts_bounded(s: Seq<ThreadInfoView>, state: Seq<char>)
    ensures
        count_state(s, state) <= s.len(),
        count_daemon(s) <= s.len(),
    decreases s.len(),
{
    if s.len() > 0 {
        lemma_counts_bounded(s.drop_last(), state);
    }
}

/// The counts of threads by state and of daemon threads.
pub fn thread_summary(threads: &Vec<ThreadInfo>) -> (r: ThreadSummary)
    ensures
        r.total == threads@.len(),
        r.running == count_state(thread_views(threads@), "RUNNABLE"@),
        r.waiting == count_state(thread_views(threads@), "WAITING"@),
        r.timed_waiting == count_state(thread_views(threads@), "TIMED_WAITING"@),
        r.blocked == count_state(thread_views(threads@), "BLOCKED"@),
        r.daemon == count_daemon(thread_views(threads@)),
{
    let ghost v = thread_views(threads@);
    let mut r = ThreadSummary {
        total: threads.len(),
        running: 0,
        waiting: 0,
        timed_waiting: 0,
        blocked: 0,
        daemon: 0,
    };
    let mut i: usize = 0;
    while i < threads.len()
        invariant
            i <= threads@.len(),
            v == thread_views(threads@),
            r.total == threads@.len(),
            r.running == count_state(v.take(i as int), "RUNNABLE"@),
            r.waiting == count_state(v.take(i as int), "WAITING"@),
            r.timed_waiting == count_state(v.take(i as int), "TIMED_WAITING"@),
            r.blocked == count_state(v.take(i as int), "BLOCKED"@),
            r.daemon == count_daemon(v.take(i as int)),
        decreases threads@.len() - i,
    {
        proof {
            assert(v.take(i + 1).drop_last() =~= v.take(i as int));
            assert(v.take(i + 1).last() == threads@[i as int]@);
            lemma_counts_bounded(v.take(i as int), "RUNNABLE"@);
            lemma_counts_bounded(v.take(i as int), "WAITING"@);
            lemma_counts_bounded(v.take(i as int), "TIMED_WAITING"@);
            lemma_counts_bounded(v.take(i as int), "BLOCKED"@);
        }
        let s = to_uppercase(threads[i].state.as_str());
        if str_eq(s.as_str(), "RUNNABLE") {
            r.running = r.running + 1;
        }
        if str_eq(s.as_str(), "WAITING") {
            r.waiting = r.waiting + 1;
        }
        if str_eq(s.as_str(), "TIMED_WAITING") {
            r.timed_waiting = r.timed_waiting + 1;
        }
        if str_eq(s.as_str(), "BLOCKED") {
            r.blocked = r.blocked + 1;
        }
        if threads[i].daemon {
            r.daemon = r.daemon + 1;
        }
        i += 1;
    }
    proof {
        assert(v.take(i as int) =~= v);
    }
    r
}

// ---------------------------------------------------------------------------
// Text renderings
// ---------------------------------------------------------------------------

/// Where a frame's code is, as a JVM thread dump writes it: a native
/// method, the file and line (line left out when negative), or an unknown
/// source when the frame names no file.
pub open spec fn jvm_location(f: JsonValue) -> Seq<char> {
    if bool_or_false(json_get(f, "nativeMethod"@)) {
        "Native Method"@
    } else {
        match opt_str(json_get(f, "fileName"@)) {
            Some(file) => {
                let line = i64_or(json_get(f, "lineNumber"@), -1i64);
                if line >= 0 {
                    file + ":"@ + signed_decimal(line as int)
                } else {
                    file
                }
            },
            None => "Unknown Source"@,
        }
    }
}

/// One frame line of a JVM thread dump.
pub open spec fn jvm_frame_text(f: JsonValue) -> Seq<char> {
    "\tat "@ + str_or(json_get(f, "className"@), "Unknown"@) + "."@ + str_or(
        json_get(f, "methodName"@),
        "unknown"@,
    ) + "("@ + jvm_location(f) + ")\n"@
}

/// One thread of a JVM thread dump: its header line, its frames and an
/// empty line.
pub open spec fn jvm_thread_text(t: JsonValue) -> Seq<char> {
    jvm_thread_head(t) + concat_map(frames_json(t), |f: JsonValue| jvm_frame_text(f)) + "\n"@
}

/// A thread dump in the text format of the JVM, headed by the time it was
/// written.
pub open spec fn jvm_text_spec(body: JsonValue, now: Seq<char>) -> Seq<char> {
    now + "\nFull thread dump:\n\n"@ + concat_map(threads_json(body), |t: JsonValue| jvm_thread_text(t))
}

fn push_jvm_frame(out: &mut String, f: &JsonValue)
    ensures
        final(out)@ == old(out)@ + jvm_frame_text(*f),
{
    let ghost start = out@;
    push_str(out, "\tat ");
    let class = get_str_or(f, "className", "Unknown");
    push_str(out, class.as_str());
    push_str(out, ".");
    let method = get_str_or(f, "methodName", "unknown");
    push_str(out, method.as_str());
    push_str(out, "(");
    let ghost before_loc = out@;
    let native = match f.get("nativeMethod") {
        Some(x) => match x.as_bool() {
            Some(b) => b,
            None => false,
        },
        None => false,
    };
    if native {
        push_str(out, "Native Method");
    } else {
        match f.get("fileName") {
            Some(x) => match x.as_str() {
                Some(file) => {
                    let line = match f.get("lineNumber") {
                        Some(y) => match y.as_i64() {
                            Some(n) => n,
                            None => -1,
                        },
                        None => -1,
                    };
                    push_str(out, file.as_str());
                    if line >= 0 {
                        push_str(out, ":");
                        push_signed_decimal(out, line);
                    }
                },
                None => push_str(out, "Unknown Source"),
            },
            None => push_str(out, "Unknown Source"),
        }
    }
    proof {
        assert(out@ =~= before_loc + jvm_location(*f));
    }
    push_str(out, ")\n");
    proof {
        assert(out@ =~= start + jvm_frame_text(*f));
    }
}

/// The header line of one thread of a JVM thread dump.
pub open spec fn jvm_thread_head(t: JsonValue) -> Seq<char> {
    "\""@ + str_or(json_get(t, "threadName"@), "unknown"@) + "\" #"@ + signed_decimal(
        i64_or(json_get(t, "threadId"@), 0) as int,
    ) + (if bool_or_false(json_get(t, "daemon"@)) {
        " daemon"@
    } else {
        ""@
    }) + " java.lang.Thread.State: "@ + str_or(json_get(t, "threadState"@), "UNKNOWN"@) + "\n"@
}

/// The JVM header of a thread shows what the thread view reads from the
/// same entry: its name in quotes, `#` and its id, ` daemon` exactly when
/// it is a daemon thread, and its state.
pub proof fn law_jvm_head_shows_the_thread(t: JsonValue)
    ensures
        jvm_thread_head(t) == "\""@ + thread_of(t).name + "\" #"@ + signed_decimal(thread_of(t).id as int) + (if thread_of(
            t,
        ).daemon {
            " daemon"@
        } else {
            ""@
        }) + " java.lang.Thread.State: "@ + thread_of(t).state + "\n"@,
        thread_of(t).daemon ==> jvm_thread_head(t) == "\""@ + thread_of(t).name + "\" #"@ + signed_decimal(
            thread_of(t).id as int,
        ) + " daemon java.lang.Thread.State: "@ + thread_of(t).state + "\n"@,
        !thread_of(t).daemon ==> jvm_thread_head(t) == "\""@ + thread_of(t).name + "\" #"@ + signed_decimal(
            thread_of(t).id as int,
        ) + " java.lang.Thread.State: "@ + thread_of(t).state + "\n"@,
{
    reveal_strlit(" daemon");
    reveal_strlit(" java.lang.Thread.State: ");
    reveal_strlit(" daemon java.lang.Thread.State: ");
    reveal_strlit("");
    let pre = "\""@ + thread_of(t).name + "\" #"@ + signed_decimal(thread_of(t).id as int);
    let tail = thread_of(t).state + "\n"@;
    assert(" daemon"@ + " java.lang.Thread.State: "@ =~= " daemon java.lang.Thread.State: "@);
    if thread_of(t).daemon {
        assert(pre + " daemon"@ + " java.lang.Thread.State: "@ + tail =~= pre + " daemon java.lang.Thread.State: "@
            + tail);
    } else {
        assert(pre + ""@ =~= pre);
    }
}

/// A frame of the JVM text shows what the thread view reads from the same
/// entry: `at`, the class and method, and in brackets `Native Method` for a
/// native frame, otherwise the file with `:` and the line when the line is
/// known (`Unknown Source` when no file is named).
pub proof fn law_jvm_frame_shows_the_frame(f: JsonValue)
    ensures
        ({
            let v = frame_of(f);
            let loc = if v.native_method {
                "Native Method"@
            } else if json_get(f, "fileName"@) matches Some(JsonValue::Str(_)) {
                if v.line_number >= 0 {
                    v.file_name + ":"@ + signed_decimal(v.line_number as int)
                } else {
                    v.file_name
                }
            } else {
                "Unknown Source"@
            };
            jvm_frame_text(f) == "\tat "@ + v.class_name + "."@ + v.method_name + "("@ + loc + ")\n"@
        }),
{
}

/// A thread of the readable rendering opens with what the thread view
/// reads from the same entry (its name in quotes, `#` and its id, its
/// state) and lists its frames after that.
pub proof fn law_readable_thread_shows_the_thread(t: JsonValue)
    ensures
        ({
            let v = thread_of(t);
            readable_thread_text(t) == "\n\""@ + v.name + "\" #"@ + signed_decimal(v.id as int) + " "@ + v.state
                + "\n"@ + concat_map(frames_json(t), |f: JsonValue| readable_frame_text(f))
        }),
{
}

fn jvm_thread_head_exec(t: &JsonValue) -> (r: String)
    ensures
        r@ == jvm_thread_head(*t),
{
    let mut s = String::new();
    push_str(&mut s, "\"");
    proof {
        assert(s@ =~= "\""@);
    }
    let name = get_str_or(t, "threadName", "unknown");
    push_str(&mut s, name.as_str());
    push_str(&mut s, "\" #");
    let id = match t.get("threadId") {
        Some(x) => match x.as_i64() {
            Some(n) => n,
            None => 0,
        },
        None => 0,
    };
    let mut idtext = String::new();
    push_signed_decimal(&mut idtext, id);
    proof {
        assert(idtext@ =~= signed_decimal(id as int));
    }
    push_str(&mut s, idtext.as_str());
    let daemon = match t.get("daemon") {
        Some(x) => match x.as_bool() {
            Some(b) => b,
            None => false,
        },
        None => false,
    };
    let ghost before = s@;
    if daemon {
        push_str(&mut s, " daemon");
    } else {
        proof {
            assert(s@ =~= before + ""@) by {
                reveal_strlit("");
            }
        }
    }
    push_str(&mut s, " java.lang.Thread.State: ");
    let state = get_str_or(t, "threadState", "UNKNOWN");
    push_str(&mut s, state.as_str());
    push_str(&mut s, "\n");
    s
}

fn push_jvm_thread(out: &mut String, t: &JsonValue)
    ensures
        final(out)@ == old(out)@ + jvm_thread_text(*t),
{
    let ghost start = out@;
    let ghost g = |f: JsonValue| jvm_frame_text(f);
    let head_text = jvm_thread_head_exec(t);
    push_str(out, head_text.as_str());
    let ghost head = out@;
    let ghost frames = frames_json(*t);
    let mut done = false;
    if let Some(s) = t.get("stackTrace") {
        if let Some(fs) = s.as_array() {
            let mut i: usize = 0;
            proof {
                assert(out@ =~= head + concat_map(fs@.take(0), g));
            }
            while i < fs.len()
                invariant
                    i <= fs.len(),
                    g == (|f: JsonValue| jvm_frame_text(f)),
                    out@ == head + concat_map(fs@.take(i as int), g),
                decreases fs.len() - i,
            {
                push_jvm_frame(out, &fs[i]);
                proof {
                    lemma_concat_map_step(fs@, g, i as int);
                    assert(out@ =~= head + concat_map(fs@.take(i + 1), g));
                }
                i += 1;
            }
            proof {
                lemma_take_all(fs@);
                assert(frames == fs@);
            }
            done = true;
        }
    }
    proof {
        if !done {
            assert(frames =~= Seq::<JsonValue>::empty());
            assert(out@ =~= head + concat_map(frames, g));
        }
    }
    let ghost body = out@;
    push_str(out, "\n");
    proof {
        assert(jvm_thread_text(*t) == jvm_thread_head(*t) + concat_map(frames, g) + "\n"@);
        assert(out@ =~= start + jvm_thread_text(*t));
    }
}

/// A thread dump in the text format of the JVM, so that other tools can
/// open it; `now` is the time written at its head.
pub fn thread_dump_to_jvm_text(body: &JsonValue, now: &str) -> (r: String)
    ensures
        r@ == jvm_text_spec(*body, now@),
{
    let mut out = String::new();
    push_str(&mut out, now);
    push_str(&mut out, "\nFull thread dump:\n\n");
    let ghost head = out@;
    let ghost g = |t: JsonValue| jvm_thread_text(t);
    proof {
        assert(head =~= now@ + "\nFull thread dump:\n\n"@);
    }
    if let Some(ts) = body.get("threads") {
        if let Some(items) = ts.as_array() {
            let mut i: usize = 0;
            proof {
                assert(out@ =~= head + concat_map(items@.take(0), g));
            }
            while i < items.len()
                invariant
                    i <= items.len(),
                    g == (|t: JsonValue| jvm_thread_text(t)),
                    out@ == head + concat_map(items@.take(i as int), g),
                decreases items.len() - i,
            {
                push_jvm_thread(&mut out, &items[i]);
                proof {
                    lemma_concat_map_step(items@, g, i as int);
                    assert(out@ =~= head + concat_map(items@.take(i + 1), g));
                }
                i += 1;
            }
            proof {
                lemma_take_all(items@);
            }
            return out;
        }
    }
    proof {
        assert(out@ =~= jvm_text_spec(*body, now@));
    }
    out
}

/// One frame line of the readable rendering.
pub open spec fn readable_frame_text(f: JsonValue) -> Seq<char> {
    "    at "@ + str_or(json_get(f, "className"@), "?"@) + "."@ + str_or(
        json_get(f, "methodName"@),
        "?"@,
    ) + "("@ + signed_decimal(i64_or(json_get(f, "lineNumber"@), -1i64) as int) + ")\n"@
}

/// One thread of the readable rendering.
pub open spec fn readable_thread_text(t: JsonValue) -> Seq<char> {
    "\n\""@ + str_or(json_get(t, "threadName"@), "unknown"@) + "\" #"@ + signed_decimal(
        i64_or(json_get(t, "threadId"@), 0) as int,
    ) + " "@ + str_or(json_get(t, "threadState"@), "UNKNOWN"@) + "\n"@ + concat_map(
        frames_json(t),
        |f: JsonValue| readable_frame_text(f),
    )
}

/// `n` copies of `s`.
pub open spec fn repeat(s: Seq<char>, n: nat) -> Seq<char>
    decreases n,
{
    if n == 0 {
        Seq::empty()
    } else {
        repeat(s, (n - 1) as nat) + s
    }
}

/// A readable rendering of a thread dump: a count, a rule, and each
/// thread with its frames; a dump without a thread list is shown as
/// `fallback`.
pub open spec fn readable_text_spec(body: JsonValue, fallback: Seq<char>) -> Seq<char> {
    match json_array(json_get(body, "threads"@)) {
        Some(ts) => "Thread Dump — "@ + decimal(ts.len()) + " threads\n"@ + repeat("─"@, 60) + "\n"@
            + concat_map(ts, |t: JsonValue| readable_thread_text(t)),
        None => fallback,
    }
}

fn push_readable_frame(out: &mut String, f: &JsonValue)
    ensures
        final(out)@ == old(out)@ + readable_frame_text(*f),
{
    let ghost start = out@;
    push_str(out, "    at ");
    let class = get_str_or(f, "className", "?");
    push_str(out, class.as_str());
    push_str(out, ".");
    let method = get_str_or(f, "methodName", "?");
    push_str(out, method.as_str());
    push_str(out, "(");
    let line = match f.get("lineNumber") {
        Some(y) => match y.as_i64() {
            Some(n) => n,
            None => -1,
        },
        None => -1,
    };
    push_signed_decimal(out, line);
    push_str(out, ")\n");
    proof {
        assert(out@ =~= start + readable_frame_text(*f));
    }
}

fn push_readable_thread(out: &mut String, t: &JsonValue)
    ensures
        final(out)@ == old(out)@ + readable_thread_text(*t),
{
    let ghost start = out@;
    let ghost g = |f: JsonValue| readable_frame_text(f);
    push_str(out, "\n\"");
    let name = get_str_or(t, "threadName", "unknown");
    push_str(out, name.as_str());
    push_str(out, "\" #");
    let id = match t.get("threadId") {
        Some(x) => match x.as_i64() {
            Some(n) => n,
            None => 0,
        },
        None => 0,
    };
    push_signed_decimal(out, id);
    push_str(out, " ");
    let state = get_str_or(t, "threadState", "UNKNOWN");
    push_str(out, state.as_str());
    push_str(out, "\n");
    let ghost head = out@;
    let ghost frames = frames_json(*t);
    let mut done = false;
    if let Some(s) = t.get("stackTrace") {
        if let Some(fs) = s.as_array() {
            let mut i: usize = 0;
            proof {
                assert(out@ =~= head + concat_map(fs@.take(0), g));
            }
            while i < fs.len()
                invariant
                    i <= fs.len(),
                    g == (|f: JsonValue| readable_frame_text(f)),
                    out@ == head + concat_map(fs@.take(i as int), g),
                decreases fs.len() - i,
            {
                push_readable_frame(out, &fs[i]);
                proof {
                    lemma_concat_map_step(fs@, g, i as int);
                    assert(out@ =~= head + concat_map(fs@.take(i + 1), g));
                }
                i += 1;
            }
            proof {
                lemma_take_all(fs@);
                assert(frames == fs@);
            }
            done = true;
        }
    }
    proof {
        if !done {
            assert(frames =~= Seq::<JsonValue>::empty());
            assert(out@ =~= head + concat_map(frames, g));
        }
        assert(out@ =~= start + readable_thread_text(*t));
    }
}

/// A readable rendering of a thread dump; `fallback` is shown when the
/// body holds no thread list.
pub fn format_thread_dump(body: &JsonValue, fallback: &str) -> (r: String)
    ensures
        r@ == readable_text_spec(*body, fallback@),
{
    if let Some(ts) = body.get("threads") {
        if let Some(items) = ts.as_array() {
            let mut out = String::new();
            push_str(&mut out, "Thread Dump — ");
            push_decimal(&mut out, items.len() as u64);
            push_str(&mut out, " threads\n");
            let mut k: usize = 0;
            let ghost before_rule = out@;
            while k < 60
                invariant
                    k <= 60,
                    out@ == before_rule + repeat("─"@, k as nat),
                decreases 60 - k,
            {
                push_str(&mut out, "─");
                proof {
                    assert(repeat("─"@, (k + 1) as nat) == repeat("─"@, k as nat) + "─"@);
                    assert(out@ =~= before_rule + repeat("─"@, (k + 1) as nat));
                }
                k += 1;
            }
            push_str(&mut out, "\n");
            let ghost head = out@;
            let ghost g = |t: JsonValue| readable_thread_text(t);
            let mut i: usize = 0;
            proof {
                assert(out@ =~= head + concat_map(items@.take(0), g));
            }
            while i < items.len()
                invariant
                    i <= items.len(),
                    g == (|t: JsonValue| readable_thread_text(t)),
                    out@ == head + concat_map(items@.take(i as int), g),
                decreases items.len() - i,
            {
                push_readable_thread(&mut out, &items[i]);
                proof {
                    lemma_concat_map_step(items@, g, i as int);
                    assert(out@ =~= head + concat_map(items@.take(i + 1), g));
                }
                i += 1;
            }
            proof {
                lemma_take_all(items@);
                assert(out@ =~= readable_text_spec(*body, fallback@));
            }
            return out;
        }
    }
    crate::text::owned(fallback)
}

/// serde_json's pretty-printed form (`to_string_pretty`) of the document a
/// text holds; `None` when the text is not JSON.
pub uninterp spec fn pretty_json(text: Seq<char>) -> Option<Seq<char>>;

/// Calls `serde_json::from_str` for a `serde_json::Value` and then
/// `serde_json::to_string_pretty` on it; the result, `None` when either
/// fails, is named `pretty_json`.
#[verifier::external_body]
fn pretty_json_text(text: &str) -> (r: Option<String>)
    ensures
        match r {
            Some(p) => pretty_json(text@) == Some(p@),
            None => pretty_json(text@) is None,
        },
{
    serde_json::from_str::<serde_json::Value>(text).ok().and_then(|v| serde_json::to_string_pretty(&v).ok())
}

/// The pretty-printed document, or a note that it could not be formatted.
pub open spec fn pretty_or_note(text: Seq<char>) -> Seq<char> {
    match pretty_json(text) {
        Some(p) => p,
        None => "Could not format thread dump"@,
    }
}

/// A readable rendering of a thread dump's JSON text: the count, a rule
/// and each thread with its frames when the document holds a thread list;
/// otherwise the document pretty-printed.
pub fn format_thread_dump_json(text: &str) -> (r: String)
    ensures
        r@ == match parsed_json(text@) {
            Some(v) => readable_text_spec(v, pretty_or_note(text@)),
            None => pretty_or_note(text@),
        },
{
    let pretty = match pretty_json_text(text) {
        Some(p) => p,
        None => crate::text::owned("Could not format thread dump"),
    };
    match parse_json(text) {
        Some(v) => format_thread_dump(&v, pretty.as_str()),
        None => pretty,
    }
}

/// Where a parsed frame's code is, as the thread detail shows it: a native
/// method, the file and line (line left out when negative), or an unknown
/// source when the file name is empty.
pub open spec fn detail_location(f: StackFrameView) -> Seq<char> {
    if f.native_method {
        "Native Method"@
    } else if f.file_name.len() > 0 {
        if f.line_number >= 0 {
            f.file_name + ":"@ + signed_decimal(f.line_number as int)
        } else {
            f.file_name
        }
    } else {
        "Unknown Source"@
    }
}

/// One frame line of the thread detail.
pub open spec fn detail_frame_text(f: StackFrameView) -> Seq<char> {
    "  at "@ + f.class_name + "."@ + f.method_name + "("@ + detail_location(f) + ")\n"@
}

/// The title of the detail of a thread.
pub open spec fn thread_title_spec(t: ThreadInfoView) -> Seq<char> {
    "\""@ + t.name + "\" #"@ + signed_decimal(t.id as int) + " "@ + t.state
}

/// The detail of a thread: its name, id, state and daemon flag, and its
/// stack trace.
pub open spec fn thread_detail_spec(t: ThreadInfoView) -> Seq<char> {
    "Thread: "@ + t.name + "\nID:     "@ + signed_decimal(t.id as int) + "\nState:  "@ + t.state
        + "\nDaemon: "@ + (if t.daemon {
        "yes"@
    } else {
        "no"@
    }) + "\n\n"@ + if t.stack_trace.len() == 0 {
        "(no stack trace)"@
    } else {
        "Stack Trace:\n"@ + concat_map(t.stack_trace, |f: StackFrameView| detail_frame_text(f))
    }
}

/// The title of the detail of a thread.
pub fn thread_title(t: &ThreadInfo) -> (r: String)
    ensures
        r@ == thread_title_spec(t@),
{
    let mut out = String::new();
    push_str(&mut out, "\"");
    push_str(&mut out, t.name.as_str());
    push_str(&mut out, "\" #");
    push_signed_decimal(&mut out, t.id);
    push_str(&mut out, " ");
    push_str(&mut out, t.state.as_str());
    proof {
        assert(out@ =~= thread_title_spec(t@));
    }
    out
}

fn push_detail_frame(out: &mut String, f: &StackFrame)
    ensures
        final(out)@ == old(out)@ + detail_frame_text(f@),
{
    let ghost start = out@;
    push_str(out, "  at ");
    push_str(out, f.class_name.as_str());
    push_str(out, ".");
    push_str(out, f.method_name.as_str());
    push_str(out, "(");
    if f.native_method {
        push_str(out, "Native Method");
    } else if !f.file_name.as_str().is_empty() {
        push_str(out, f.file_name.as_str());
        if f.line_number >= 0 {
            push_str(out, ":");
            push_signed_decimal(out, f.line_number);
        }
    } else {
        push_str(out, "Unknown Source");
    }
    push_str(out, ")\n");
    proof {
        assert(out@ =~= start + detail_frame_text(f@));
    }
}

/// The detail of a thread as the thread view shows it.
pub fn thread_detail(t: &ThreadInfo) -> (r: String)
    ensures
        r@ == thread_detail_spec(t@),
{
    let mut out = String::new();
    push_str(&mut out, "Thread: ");
    push_str(&mut out, t.name.as_str());
    push_str(&mut out, "\nID:     ");
    push_signed_decimal(&mut out, t.id);
    push_str(&mut out, "\nState:  ");
    push_str(&mut out, t.state.as_str());
    push_str(&mut out, "\nDaemon: ");
    if t.daemon {
        push_str(&mut out, "yes");
    } else {
        push_str(&mut out, "no");
    }
    push_str(&mut out, "\n\n");
    let ghost head = out@;
    let ghost frames = frame_views(t.stack_trace@);
    let ghost g = |f: StackFrameView| detail_frame_text(f);
    if t.stack_trace.len() == 0 {
        push_str(&mut out, "(no stack trace)");
    } else {
        push_str(&mut out, "Stack Trace:\n");
        let ghost head2 = out@;
        let mut i: usize = 0;
        proof {
            assert(out@ =~= head2 + concat_map(frames.take(0), g));
        }
        while i < t.stack_trace.len()
            invariant
                i <= t.stack_trace@.len(),
                frames == frame_views(t.stack_trace@),
                g == (|f: StackFrameView| detail_frame_text(f)),
                out@ == head2 + concat_map(frames.take(i as int), g),
            decreases t.stack_trace@.len() - i,
        {
            push_detail_frame(&mut out, &t.stack_trace[i]);
            proof {
                lemma_concat_map_step(frames, g, i as int);
                assert(frames[i as int] == t.stack_trace@[i as int]@);
                assert(out@ =~= head2 + concat_map(frames.take(i + 1), g));
            }
            i += 1;
        }
        proof {
            lemma_take_all(frames);
        }
    }
    proof {
        assert(out@ =~= thread_detail_spec(t@));
    }
    out
}

} // verus!
