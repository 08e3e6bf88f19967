//! The decisions of the step-by-step `new` command: choosing an option,
//! typing a text, picking dependencies from a filtered list, confirming,
//! and the summary shown before generating.

use vstd::prelude::*;
use vstd::string::StringSliceAdditionalSpecFns;

use crate::app_state::indices_where;
use crate::display::{truncate_spec, truncate_str};
use crate::initializr::{position_of_option, position_or_first};
use crate::input::Key;
use crate::model::{
    option_views, InitializrDependencyGroup, InitializrOption, InitializrOptionView,
    NewProjectParams,
};
use crate::text::{
    contains_seq, decimal, lowercase, owned, pop_char, push_char, push_decimal, push_str,
    str_contains, to_lowercase, without_last,
};

verus! {

/// Where a prompt is after a key.
#[derive(Debug, Clone, Copy, PartialEq, Eq, Structural)]
pub enum PromptStep {
    /// Still asking.
    Asking,
    /// Answered.
    Answered,
    /// Ctrl-C: the whole command stops.
    Interrupted,
}

// ---------------------------------------------------------------------------
// Choosing an option
// ---------------------------------------------------------------------------

/// Where the choice starts: the default option, or the first.
pub fn select_start(options: &Vec<InitializrOption>, default: &str) -> (r: usize)
    ensures
        r == position_or_first(option_views(options@), default@),
{
    position_of_option(options, default)
}

/// What a key does to a choice among `len` options: left (or `h`) and
/// right (or `l`) move, wrapping around; Enter answers; Ctrl-C interrupts.
pub open spec fn select_key_spec(selected: usize, len: usize, key: Key, ctrl: bool) -> (usize, PromptStep) {
    match key {
        Key::Left | Key::Char('h') => (
            if selected == 0 {
                (len - 1) as usize
            } else {
                (selected - 1) as usize
            },
            PromptStep::Asking,
        ),
        Key::Right | Key::Char('l') => (((selected + 1) % (len as int)) as usize, PromptStep::Asking),
        Key::Enter => (selected, PromptStep::Answered),
        Key::Char('c') => if ctrl {
            (selected, PromptStep::Interrupted)
        } else {
            (selected, PromptStep::Asking)
        },
        _ => (selected, PromptStep::Asking),
    }
}

/// Handles a key of an option choice.
pub fn select_key(selected: usize, len: usize, key: Key, ctrl: bool) -> (r: (usize, PromptStep))
    requires
        len > 0,
    ensures
        r == select_key_spec(selected, len, key, ctrl),
{
    match key {
        Key::Left | Key::Char('h') => (
            if selected == 0 {
                len - 1
            } else {
                selected - 1
            },
            PromptStep::Asking,
        ),
        Key::Right | Key::Char('l') => {
            proof {
                vstd::arithmetic::div_mod::lemma_add_mod_noop(selected as int, 1, len as int);
                if len > 1 {
                    vstd::arithmetic::div_mod::lemma_small_mod(1, len as nat);
                }
                vstd::arithmetic::div_mod::lemma_mod_pos_bound(selected as int, len as int);
            }
            (((selected % len) + 1) % len, PromptStep::Asking)
        },
        Key::Enter => (selected, PromptStep::Answered),
        Key::Char('c') => if ctrl {
            (selected, PromptStep::Interrupted)
        } else {
            (selected, PromptStep::Asking)
        },
        _ => (selected, PromptStep::Asking),
    }
}

/// The id and the name of the chosen option; with no options, the default
/// for both.
pub fn select_result(options: &Vec<InitializrOption>, default: &str, selected: usize) -> (r: (String, String))
    requires
        options@.len() > 0 ==> selected < options@.len(),
    ensures
        options@.len() == 0 ==> r.0@ == default@ && r.1@ == default@,
        options@.len() > 0 ==> r.0@ == options@[selected as int].id@ && r.1@
            == options@[selected as int].name@,
{
    if options.len() == 0 {
        (owned(default), owned(default))
    } else {
        (options[selected].id.clone(), options[selected].name.clone())
    }
}

// ---------------------------------------------------------------------------
// Typing a text
// ---------------------------------------------------------------------------

/// What a key does to a typed text: Enter answers, Backspace deletes the
/// last character, Ctrl-C interrupts, Ctrl-U clears, and other characters
/// are typed.
pub open spec fn text_key_spec(value: Seq<char>, key: Key, ctrl: bool) -> (Seq<char>, PromptStep) {
    match key {
        Key::Enter => (value, PromptStep::Answered),
        Key::Backspace => (without_last(value), PromptStep::Asking),
        Key::Char(c) => if c == 'c' && ctrl {
            (value, PromptStep::Interrupted)
        } else if c == 'u' && ctrl {
            (Seq::empty(), PromptStep::Asking)
        } else {
            (value.push(c), PromptStep::Asking)
        },
        _ => (value, PromptStep::Asking),
    }
}

/// Handles a key of a text prompt.
pub fn text_key(value: &mut String, key: Key, ctrl: bool) -> (r: PromptStep)
    ensures
        (final(value)@, r) == text_key_spec(old(value)@, key, ctrl),
{
    match key {
        Key::Enter => PromptStep::Answered,
        Key::Backspace => {
            pop_char(value);
            PromptStep::Asking
        },
        Key::Char(c) => if c == 'c' && ctrl {
            PromptStep::Interrupted
        } else if c == 'u' && ctrl {
            *value = String::new();
            PromptStep::Asking
        } else {
            push_char(value, c);
            PromptStep::Asking
        },
        _ => PromptStep::Asking,
    }
}

// ---------------------------------------------------------------------------
// Confirming
// ---------------------------------------------------------------------------

/// What a key does to a yes/no question: Enter or `y` say yes, `n` or Esc
/// say no, Ctrl-C interrupts, anything else is ignored.
pub open spec fn confirm_key_spec(key: Key, ctrl: bool) -> (bool, PromptStep) {
    match key {
        Key::Enter | Key::Char('y') | Key::Char('Y') => (true, PromptStep::Answered),
        Key::Char('n') | Key::Char('N') | Key::Esc => (false, PromptStep::Answered),
        Key::Char('c') => if ctrl {
            (false, PromptStep::Interrupted)
        } else {
            (false, PromptStep::Asking)
        },
        _ => (false, PromptStep::Asking),
    }
}

/// Handles a key of a yes/no question; the answer counts when answered.
pub fn confirm_key(key: Key, ctrl: bool) -> (r: (bool, PromptStep))
    ensures
        r == confirm_key_spec(key, ctrl),
{
    match key {
        Key::Enter | Key::Char('y') | Key::Char('Y') => (true, PromptStep::Answered),
        Key::Char('n') | Key::Char('N') | Key::Esc => (false, PromptStep::Answered),
        Key::Char('c') => if ctrl {
            (false, PromptStep::Interrupted)
        } else {
            (false, PromptStep::Asking)
        },
        _ => (false, PromptStep::Asking),
    }
}

// ---------------------------------------------------------------------------
// Picking dependencies
// ---------------------------------------------------------------------------

/// A dependency offered by the picker, with its group's name.
#[derive(Debug)]
pub struct PickerEntry {
    pub group: String,
    pub id: String,
    pub name: String,
    pub description: String,
}

/// The state of the dependency picker.
#[derive(Debug)]
pub struct DependencyPicker {
    pub entries: Vec<PickerEntry>,
    pub selected: Vec<bool>,
    pub cursor: usize,
    pub filter: String,
    pub filter_active: bool,
}

/// The number of entries the picker shows at once.
pub const PAGE_SIZE: usize = 12;

/// The picker's entries: every dependency of every group, in order.
pub open spec fn entries_of(groups: Seq<InitializrDependencyGroup>) -> Seq<(Seq<char>, Seq<char>, Seq<char>, Seq<char>)>
    decreases groups.len(),
{
    if groups.len() == 0 {
        Seq::empty()
    } else {
        let g = groups.last();
        entries_of(groups.drop_last()) + g.values@.map_values(
            |d: crate::model::InitializrDependency| (g.name@, d.id@, d.name@, d.description@),
        )
    }
}

/// The views of the picker's entries: group, id, name, description.
pub open spec fn entry_views(s: Seq<PickerEntry>) -> Seq<(Seq<char>, Seq<char>, Seq<char>, Seq<char>)> {
    s.map_values(|e: PickerEntry| (e.group@, e.id@, e.name@, e.description@))
}

/// The well-formedness of a picker: a selection mark per entry.
pub open spec fn picker_wf(p: DependencyPicker) -> bool {
    p.selected@.len() == p.entries@.len()
}

/// Whether an entry passes the filter: the filter is empty, or its
/// lower-case form occurs in the entry's lower-case name, id, description
/// or group.
pub open spec fn entry_passes(e: PickerEntry, filter: Seq<char>) -> bool {
    let f = lowercase(filter);
    filter.len() == 0 || contains_seq(lowercase(e.name@), f) || contains_seq(lowercase(e.id@), f)
        || contains_seq(lowercase(e.description@), f) || contains_seq(lowercase(e.group@), f)
}

/// The positions of the entries the filter shows.
pub open spec fn picker_filtered(p: DependencyPicker) -> Seq<usize> {
    indices_where(p.entries.len() as int, |i: int| entry_passes(p.entries@[i], p.filter@))
}

/// The cursor kept within the shown entries (when there are any).
pub open spec fn clamped_cursor(p: DependencyPicker) -> usize {
    let n = picker_filtered(p).len();
    if n > 0 && p.cursor > n - 1 {
        (n - 1) as usize
    } else {
        p.cursor
    }
}

/// What a key does to the picker (after the cursor is kept within the
/// shown entries): Ctrl-C interrupts; while the filter is typed, Esc
/// clears and leaves it, Enter leaves it, and Backspace and characters edit
/// it (the cursor back on the first entry); otherwise the arrows and
/// `j`/`k` move, Space toggles the entry under the cursor, `/` starts a new
/// filter, and Enter or Esc finish.
pub open spec fn picker_key_spec(p: DependencyPicker, key: Key, ctrl: bool, n: DependencyPicker, r: PromptStep) -> bool {
    let c = clamped_cursor(p);
    let shown = picker_filtered(p);
    if key == Key::Char('c') && ctrl {
        r == PromptStep::Interrupted && n == DependencyPicker { cursor: c, ..p }
    } else if p.filter_active {
        r == PromptStep::Asking && match key {
            Key::Esc => n == DependencyPicker { filter: n.filter, filter_active: false, cursor: 0, ..p }
                && n.filter@.len() == 0,
            Key::Enter => n == DependencyPicker { filter_active: false, cursor: c, ..p },
            Key::Backspace => n == DependencyPicker { filter: n.filter, cursor: 0, ..p } && n.filter@
                == without_last(p.filter@),
            Key::Char(ch) => n == DependencyPicker { filter: n.filter, cursor: 0, ..p } && n.filter@
                == p.filter@.push(ch),
            _ => n == DependencyPicker { cursor: c, ..p },
        }
    } else {
        match key {
            Key::Char('j') | Key::Down => r == PromptStep::Asking && n == DependencyPicker {
                cursor: if shown.len() > 0 && c + 1 < shown.len() {
                    (c + 1) as usize
                } else {
                    c
                },
                ..p
            },
            Key::Char('k') | Key::Up => r == PromptStep::Asking && n == DependencyPicker {
                cursor: if c == 0 {
                    0
                } else {
                    (c - 1) as usize
                },
                ..p
            },
            Key::Char(' ') => r == PromptStep::Asking && if shown.len() > 0 {
                let di = shown[c as int] as int;
                n == DependencyPicker { cursor: c, selected: n.selected, ..p } && n.selected@
                    == p.selected@.update(di, !p.selected@[di])
            } else {
                n == DependencyPicker { cursor: c, ..p }
            },
            Key::Char('/') => r == PromptStep::Asking && n == DependencyPicker {
                cursor: c,
                filter_active: true,
                filter: n.filter,
                ..p
            } && n.filter@.len() == 0,
            Key::Enter | Key::Esc => r == PromptStep::Answered && n == DependencyPicker { cursor: c, ..p },
            _ => r == PromptStep::Asking && n == DependencyPicker { cursor: c, ..p },
        }
    }
}

/// The first `n` shown positions... the window of shown entries drawn
/// around the cursor: up to a page, the cursor near its middle, and no
/// empty rows past the end when the list fills a page.
pub open spec fn window_spec(shown: int, cursor: int, page: int) -> (int, int) {
    let start = if shown == 0 {
        0
    } else {
        let a = if cursor > page / 2 {
            cursor - page / 2
        } else {
            0
        };
        let b = if shown > page {
            shown - page
        } else {
            0
        };
        if a < b {
            a
        } else {
            b
        }
    };
    let end = if start + page < shown {
        start + page
    } else {
        shown
    };
    (start, end)
}

/// The window of shown entries drawn around the cursor.
pub fn visible_window(shown: usize, cursor: usize, page: usize) -> (r: (usize, usize))
    ensures
        (r.0 as int, r.1 as int) == window_spec(shown as int, cursor as int, page as int),
{
    let start = if shown == 0 {
        0
    } else {
        let a = if cursor > page / 2 {
            cursor - page / 2
        } else {
            0
        };
        let b = if shown > page {
            shown - page
        } else {
            0
        };
        if a < b {
            a
        } else {
            b
        }
    };
    let end = if start < shown && page < shown - start {
        start + page
    } else {
        shown
    };
    (start, end)
}

fn entry_passes_exec(e: &PickerEntry, f: &str, filter_empty: bool) -> (r: bool)
    ensures
        filter_empty ==> r,
        !filter_empty ==> r == (contains_seq(lowercase(e.name@), f@) || contains_seq(
            lowercase(e.id@),
            f@,
        ) || contains_seq(lowercase(e.description@), f@) || contains_seq(lowercase(e.group@), f@)),
{
    if filter_empty {
        return true;
    }
    let name = to_lowercase(e.name.as_str());
    let id = to_lowercase(e.id.as_str());
    let desc = to_lowercase(e.description.as_str());
    let group = to_lowercase(e.group.as_str());
    str_contains(name.as_str(), f) || str_contains(id.as_str(), f) || str_contains(desc.as_str(), f)
        || str_contains(group.as_str(), f)
}

/// The number of `true` marks.
pub open spec fn count_true(s: Seq<bool>) -> nat
    decreases s.len(),
{
    if s.len() == 0 {
        0
    } else {
        count_true(s.drop_last()) + if s.last() {
            1nat
        } else {
            0nat
        }
    }
}

impl DependencyPicker {
    /// A picker over every dependency of the groups, none selected, the
    /// cursor on the first, no filter.
    pub fn new(groups: &Vec<InitializrDependencyGroup>) -> (r: Self)
        ensures
            entry_views(r.entries@) == entries_of(groups@),
            picker_wf(r),
            forall|i: int| 0 <= i < r.selected@.len() ==> !r.selected@[i],
            r.cursor == 0,
            r.filter@.len() == 0,
            !r.filter_active,
    {
        let mut entries: Vec<PickerEntry> = Vec::new();
        let mut gi: usize = 0;
        while gi < groups.len()
            invariant
                gi <= groups@.len(),
                entry_views(entries@) == entries_of(groups@.take(gi as int)),
            decreases groups@.len() - gi,
        {
            let g = &groups[gi];
            let ghost before = entry_views(entries@);
            let mut di: usize = 0;
            while di < g.values.len()
                invariant
                    di <= g.values@.len(),
                    g == groups@[gi as int],
                    entry_views(entries@) == before + g.values@.take(di as int).map_values(
                        |d: crate::model::InitializrDependency| (g.name@, d.id@, d.name@, d.description@),
                    ),
                decreases g.values@.len() - di,
            {
                let d = &g.values[di];
                let ghost old_entries = entries@;
                entries.push(
                    PickerEntry {
                        group: g.name.clone(),
                        id: d.id.clone(),
                        name: d.name.clone(),
                        description: d.description.clone(),
                    },
                );
                proof {
                    assert(entry_views(entries@) =~= entry_views(old_entries).push(
                        (g.name@, d.id@, d.name@, d.description@),
                    ));
                    assert(g.values@.take(di + 1).map_values(
                        |d: crate::model::InitializrDependency| (g.name@, d.id@, d.name@, d.description@),
                    ) =~= g.values@.take(di as int).map_values(
                        |d: crate::model::InitializrDependency| (g.name@, d.id@, d.name@, d.description@),
                    ).push((g.name@, d.id@, d.name@, d.description@)));
                    assert(entry_views(entries@) =~= before + g.values@.take(di + 1).map_values(
                        |d: crate::model::InitializrDependency| (g.name@, d.id@, d.name@, d.description@),
                    ));
                }
                di += 1;
            }
            proof {
                assert(g.values@.take(di as int) =~= g.values@);
                assert(groups@.take(gi + 1).drop_last() =~= groups@.take(gi as int));
                assert(groups@.take(gi + 1).last() == g);
            }
            gi += 1;
        }
        proof {
            assert(groups@.take(gi as int) =~= groups@);
        }
        let mut selected: Vec<bool> = Vec::new();
        let mut k: usize = 0;
        while k < entries.len()
            invariant
                k <= entries@.len(),
                selected@.len() == k,
                forall|i: int| 0 <= i < k ==> !selected@[i],
            decreases entries@.len() - k,
        {
            selected.push(false);
            k += 1;
        }
        DependencyPicker { entries, selected, cursor: 0, filter: String::new(), filter_active: false }
    }

    /// The positions of the entries the filter shows.
    pub fn filtered(&self) -> (r: Vec<usize>)
        ensures
            r@ == picker_filtered(*self),
            self.filter@.len() == 0 ==> r@ == Seq::new(self.entries@.len(), |i: int| i as usize),
    {
        let f = to_lowercase(self.filter.as_str());
        let empty = self.filter.as_str().is_empty();
        let ghost keep = |i: int| entry_passes(self.entries@[i], self.filter@);
        let mut out: Vec<usize> = Vec::new();
        let mut i: usize = 0;
        while i < self.entries.len()
            invariant
                i <= self.entries@.len(),
                f@ == lowercase(self.filter@),
                empty == (self.filter@.len() == 0),
                keep == (|i: int| entry_passes(self.entries@[i], self.filter@)),
                out@ == indices_where(i as int, keep),
            decreases self.entries@.len() - i,
        {
            if entry_passes_exec(&self.entries[i], f.as_str(), empty) {
                out.push(i);
            }
            i += 1;
        }
        proof {
            if empty {
                crate::app_state::lemma_indices_where_all(self.entries@.len() as int, keep);
            }
        }
        out
    }

    /// Keeps the cursor within the shown entries and returns them.
    pub fn clamp(&mut self) -> (r: Vec<usize>)
        ensures
            *final(self) == (DependencyPicker { cursor: clamped_cursor(*old(self)), ..*old(self) }),
            r@ == picker_filtered(*old(self)),
    {
        let shown = self.filtered();
        if shown.len() > 0 && self.cursor > shown.len() - 1 {
            self.cursor = shown.len() - 1;
        }
        shown
    }

    /// The number of selected entries.
    pub fn selected_count(&self) -> (r: usize)
        ensures
            r == count_true(self.selected@),
    {
        let mut n: usize = 0;
        let mut i: usize = 0;
        while i < self.selected.len()
            invariant
                i <= self.selected@.len(),
                n == count_true(self.selected@.take(i as int)),
                n <= i,
            decreases self.selected@.len() - i,
        {
            proof {
                assert(self.selected@.take(i + 1).drop_last() =~= self.selected@.take(i as int));
                assert(self.selected@.take(i + 1).last() == self.selected@[i as int]);
            }
            if self.selected[i] {
                n += 1;
            }
            i += 1;
        }
        proof {
            assert(self.selected@.take(i as int) =~= self.selected@);
        }
        n
    }

    /// Handles a key.
    pub fn key(&mut self, key: Key, ctrl: bool) -> (r: PromptStep)
        requires
            picker_wf(*old(self)),
        ensures
            picker_wf(*final(self)),
            picker_key_spec(*old(self), key, ctrl, *final(self), r),
    {
        let shown = self.clamp();
        let ghost clamped = *self;
        proof {
            crate::app_state::lemma_indices_where(
                self.entries.len() as int,
                |i: int| entry_passes(self.entries@[i], self.filter@),
            );
        }
        if key == Key::Char('c') && ctrl {
            return PromptStep::Interrupted;
        }
        if self.filter_active {
            match key {
                Key::Esc => {
                    self.filter = String::new();
                    self.filter_active = false;
                    self.cursor = 0;
                },
                Key::Enter => {
                    self.filter_active = false;
                },
                Key::Backspace => {
                    pop_char(&mut self.filter);
                    self.cursor = 0;
                },
                Key::Char(ch) => {
                    push_char(&mut self.filter, ch);
                    self.cursor = 0;
                },
                _ => {},
            }
            return PromptStep::Asking;
        }
        match key {
            Key::Char('j') | Key::Down => {
                if shown.len() > 0 && self.cursor < shown.len() - 1 {
                    self.cursor = self.cursor + 1;
                }
                PromptStep::Asking
            },
            Key::Char('k') | Key::Up => {
                if self.cursor > 0 {
                    self.cursor = self.cursor - 1;
                }
                PromptStep::Asking
            },
            Key::Char(' ') => {
                if shown.len() > 0 {
                    let di = shown[self.cursor];
                    let v = self.selected[di];
                    self.selected.set(di, !v);
                }
                PromptStep::Asking
            },
            Key::Char('/') => {
                self.filter_active = true;
                self.filter = String::new();
                PromptStep::Asking
            },
            Key::Enter | Key::Esc => PromptStep::Answered,
            _ => PromptStep::Asking,
        }
    }
}

// ---------------------------------------------------------------------------
// Results and summaries
// ---------------------------------------------------------------------------

/// The selected entries' field (`pick` 1 for ids, 2 for names), in order.
pub open spec fn picked(entries: Seq<PickerEntry>, selected: Seq<bool>, names: bool) -> Seq<Seq<char>>
    decreases entries.len(),
{
    if entries.len() == 0 || selected.len() != entries.len() {
        Seq::empty()
    } else {
        let rest = picked(entries.drop_last(), selected.drop_last(), names);
        if selected.last() {
            rest.push(
                if names {
                    entries.last().name@
                } else {
                    entries.last().id@
                },
            )
        } else {
            rest
        }
    }
}

impl DependencyPicker {
    /// The ids (or names) of the selected entries, in the list's order.
    pub fn picked(&self, names: bool) -> (r: Vec<String>)
        requires
            picker_wf(*self),
        ensures
            r@.map_values(|s: String| s@) == picked(self.entries@, self.selected@, names),
    {
        let mut out: Vec<String> = Vec::new();
        let mut i: usize = 0;
        while i < self.entries.len()
            invariant
                i <= self.entries@.len(),
                picker_wf(*self),
                out@.map_values(|s: String| s@) == picked(
                    self.entries@.take(i as int),
                    self.selected@.take(i as int),
                    names,
                ),
            decreases self.entries@.len() - i,
        {
            proof {
                assert(self.entries@.take(i + 1).drop_last() =~= self.entries@.take(i as int));
                assert(self.selected@.take(i + 1).drop_last() =~= self.selected@.take(i as int));
            }
            if self.selected[i] {
                let e = &self.entries[i];
                let v = if names {
                    e.name.clone()
                } else {
                    e.id.clone()
                };
                let ghost before = out@;
                out.push(v);
                proof {
                    assert(out@.map_values(|s: String| s@) =~= before.map_values(|s: String| s@).push(
                        v@,
                    ));
                }
            }
            i += 1;
        }
        proof {
            assert(self.entries@.take(i as int) =~= self.entries@);
            assert(self.selected@.take(i as int) =~= self.selected@);
        }
        out
    }
}

/// Texts joined with `, `.
pub open spec fn join_comma(s: Seq<Seq<char>>) -> Seq<char>
    decreases s.len(),
{
    if s.len() == 0 {
        Seq::empty()
    } else if s.len() == 1 {
        s[0]
    } else {
        join_comma(s.drop_last()) + ", "@ + s.last()
    }
}

/// Texts joined with `, `.
pub fn join(parts: &Vec<String>, from: usize, to: usize) -> (r: String)
    requires
        from <= to <= parts@.len(),
    ensures
        r@ == join_comma(parts@.subrange(from as int, to as int).map_values(|s: String| s@)),
{
    let mut out = String::new();
    let mut i = from;
    while i < to
        invariant
            from <= i <= to <= parts@.len(),
            out@ == join_comma(parts@.subrange(from as int, i as int).map_values(|s: String| s@)),
        decreases to - i,
    {
        let ghost prev = parts@.subrange(from as int, i as int).map_values(|s: String| s@);
        let ghost next = parts@.subrange(from as int, i + 1).map_values(|s: String| s@);
        proof {
            assert(next.drop_last() =~= prev);
            assert(next.last() == parts@[i as int]@);
        }
        if i > from {
            push_str(&mut out, ", ");
        }
        push_str(&mut out, parts[i].as_str());
        proof {
            if i == from {
                assert(out@ =~= next[0]);
            }
        }
        i += 1;
    }
    out
}

/// How the chosen dependencies' names are listed once picked: `(none)`,
/// the names joined, or the first five and how many more.
pub open spec fn picked_display_spec(names: Seq<Seq<char>>) -> Seq<char> {
    if names.len() == 0 {
        "(none)"@
    } else if names.len() <= 5 {
        join_comma(names)
    } else {
        join_comma(names.take(5)) + ", +"@ + decimal((names.len() - 5) as nat) + " more"@
    }
}

/// How the chosen dependencies' names are listed once picked.
pub fn picked_display(names: &Vec<String>) -> (r: String)
    ensures
        r@ == picked_display_spec(names@.map_values(|s: String| s@)),
{
    let n = names.len();
    if n == 0 {
        return owned("(none)");
    }
    if n <= 5 {
        let r = join(names, 0, n);
        proof {
            assert(names@.subrange(0, n as int) =~= names@);
        }
        return r;
    }
    let mut r = join(names, 0, 5);
    push_str(&mut r, ", +");
    push_decimal(&mut r, (n - 5) as u64);
    push_str(&mut r, " more");
    proof {
        assert(names@.subrange(0, 5).map_values(|s: String| s@) =~= names@.map_values(
            |s: String| s@,
        ).take(5));
    }
    r
}

/// How the summary lists the dependencies: `(none)` or the ids joined.
pub open spec fn summary_deps_spec(ids: Seq<Seq<char>>) -> Seq<char> {
    if ids.len() == 0 {
        "(none)"@
    } else {
        join_comma(ids)
    }
}

/// How the summary lists the dependencies.
pub fn summary_deps(ids: &Vec<String>) -> (r: String)
    ensures
        r@ == summary_deps_spec(ids@.map_values(|s: String| s@)),
{
    if ids.len() == 0 {
        owned("(none)")
    } else {
        let r = join(ids, 0, ids.len());
        proof {
            assert(ids@.subrange(0, ids@.len() as int) =~= ids@);
        }
        r
    }
}

/// A label padded with spaces to 16 characters (as `{:<16}` does).
pub open spec fn padded_spec(label: Seq<char>, width: nat) -> Seq<char> {
    if label.len() >= width {
        label
    } else {
        label + Seq::new((width - label.len()) as nat, |i: int| ' ')
    }
}

/// A label padded with spaces to `width` characters.
pub fn padded(label: &str, width: usize) -> (r: String)
    ensures
        r@ == padded_spec(label@, width as nat),
{
    let mut out = owned(label);
    let n = label.unicode_len();
    if n < width {
        let mut k = n;
        while k < width
            invariant
                n <= k <= width,
                n == label@.len(),
                out@ == label@ + Seq::new((k - n) as nat, |i: int| ' '),
            decreases width - k,
        {
            push_char(&mut out, ' ');
            proof {
                assert(out@ =~= label@ + Seq::new((k + 1 - n) as nat, |i: int| ' '));
            }
            k += 1;
        }
    }
    out
}

/// The parameters the `new` command generates with: the chosen ids, the
/// typed texts, version `0.0.1-SNAPSHOT`, the picked ids and the output
/// directory.
pub fn cli_params(
    choices: (String, String, String, String, String),
    texts: (String, String, String, String, String),
    dependencies: Vec<String>,
    output_dir: String,
) -> (r: NewProjectParams)
    ensures
        r.boot_version == choices.0 && r.language == choices.1 && r.packaging == choices.2,
        r.java_version == choices.3 && r.project_type == choices.4,
        r.group_id == texts.0 && r.artifact_id == texts.1 && r.name == texts.2,
        r.description == texts.3 && r.package_name == texts.4,
        r.version@ == "0.0.1-SNAPSHOT"@,
        r.dependencies == dependencies,
        r.output_dir == output_dir,
{
    NewProjectParams {
        boot_version: choices.0,
        language: choices.1,
        packaging: choices.2,
        java_version: choices.3,
        project_type: choices.4,
        group_id: texts.0,
        artifact_id: texts.1,
        version: owned("0.0.1-SNAPSHOT"),
        name: texts.2,
        description: texts.3,
        package_name: texts.4,
        dependencies,
        output_dir,
    }
}

/// A picker line's group and description as drawn: the group cut to 14
/// bytes and the description to 45, each cut marked with `…`.
pub fn dep_line_texts(group: &str, description: &str) -> (r: (String, String))
    requires
        group.spec_bytes().len() > 14 ==> vstd::utf8::is_char_boundary(group.spec_bytes(), 13),
        description.spec_bytes().len() > 45 ==> vstd::utf8::is_char_boundary(
            description.spec_bytes(),
            44,
        ),
    ensures
        r.0@ == truncate_spec(group@, 14),
        r.1@ == truncate_spec(description@, 45),
{
    (truncate_str(group, 14), truncate_str(description, 45))
}

} // verus!
