//! The keys of the new-project wizard: editing the project's fields,
//! choosing dependencies, choosing where to write it, and starting the
//! generation.

use vstd::prelude::*;

use crate::app_state::{wizard_default_spec, NewProjectWizardState, WizardStep};
use crate::generator::key_views;
use crate::initializr::{flat_dep_count, flat_dep_id_at, flat_dep_is_selectable, flat_entries, FlatDepEntry};
use crate::input::Key;
use crate::model::{option_views, InitializrMetadata, InitializrOption, InitializrOptionView, NewProjectParams};
use crate::prompts::{join, join_comma};
use crate::text::{decimal, owned, pop_char, push_char, push_decimal, push_str, str_eq, without_last};

verus! {

/// What the wizard asks of the front end after a key.
#[derive(Debug)]
pub enum WizardAction {
    /// Nothing beyond the wizard's own state.
    Stay,
    /// Close the wizard and return to the main view.
    Exit,
    /// Generate a project with these parameters.
    Generate(NewProjectParams),
}

// ---------------------------------------------------------------------------
// The dependency list
// ---------------------------------------------------------------------------

/// Whether entry `i` of the flat dependency list is a dependency.
pub open spec fn selectable(meta: InitializrMetadata, filter: Seq<char>, i: int) -> bool {
    0 <= i < flat_entries(meta@.dependency_groups, filter).len() && flat_entries(
        meta@.dependency_groups,
        filter,
    )[i] is Dep
}

/// The number of entries of the flat dependency list.
pub open spec fn flat_count(meta: InitializrMetadata, filter: Seq<char>) -> int {
    flat_entries(meta@.dependency_groups, filter).len() as int
}

/// The first dependency entry at or after `i` and before `n`, or `n`.
pub open spec fn first_selectable_from(meta: InitializrMetadata, filter: Seq<char>, i: int, n: int) -> int
    decreases n - i,
{
    if i >= n {
        n
    } else if selectable(meta, filter, i) {
        i
    } else {
        first_selectable_from(meta, filter, i + 1, n)
    }
}

/// The first dependency entry of the list, or 0 when it has none.
pub open spec fn first_selectable(meta: InitializrMetadata, filter: Seq<char>) -> int {
    let n = flat_count(meta, filter);
    let k = first_selectable_from(meta, filter, 0, n);
    if k < n {
        k
    } else {
        0
    }
}

/// The next dependency entry after `idx`, if there is one.
pub open spec fn next_selectable(meta: InitializrMetadata, filter: Seq<char>, idx: int) -> Option<int> {
    let n = flat_count(meta, filter);
    let k = first_selectable_from(meta, filter, idx + 1, n);
    if k < n {
        Some(k)
    } else {
        None
    }
}

/// The last dependency entry before `j`, if there is one.
pub open spec fn last_selectable_below(meta: InitializrMetadata, filter: Seq<char>, j: int) -> Option<int>
    decreases j,
{
    if j <= 0 {
        None
    } else if selectable(meta, filter, j - 1) {
        Some(j - 1)
    } else {
        last_selectable_below(meta, filter, j - 1)
    }
}

/// The id of the dependency at entry `idx`, if that entry is one.
pub open spec fn flat_id_at(meta: InitializrMetadata, filter: Seq<char>, idx: int) -> Option<Seq<char>> {
    if selectable(meta, filter, idx) {
        match flat_entries(meta@.dependency_groups, filter)[idx] {
            FlatDepEntry::Dep(g, j) => Some(meta@.dependency_groups[g as int].values[j as int].id),
            FlatDepEntry::GroupHeader(_) => None,
        }
    } else {
        None
    }
}

/// The first position of `id` in `s` from `i` on.
pub open spec fn id_position(s: Seq<Seq<char>>, id: Seq<char>, i: int) -> Option<int>
    decreases s.len() - i,
{
    if i < 0 || i >= s.len() {
        None
    } else if s[i] == id {
        Some(i)
    } else {
        id_position(s, id, i + 1)
    }
}

/// The selection with `id` toggled: removed where it first occurs, or
/// added at the end.
pub open spec fn toggled(s: Seq<Seq<char>>, id: Seq<char>) -> Seq<Seq<char>> {
    match id_position(s, id, 0) {
        Some(p) => s.remove(p),
        None => s.push(id),
    }
}

proof fn lemma_id_position(s: Seq<Seq<char>>, id: Seq<char>, i: int)
    requires
        0 <= i,
    ensures
        id_position(s, id, i) matches Some(p) ==> i <= p < s.len() && s[p] == id,
        id_position(s, id, i) is None ==> forall|k: int| i <= k < s.len() ==> s[k] != id,
    decreases s.len() - i,
{
    if i < s.len() && s[i] != id {
        lemma_id_position(s, id, i + 1);
    }
}

/// Toggling a dependency flips whether it is selected, leaves every other
/// dependency as it was, and keeps the selection free of repeats.
pub proof fn law_toggle_flips_selection(s: Seq<Seq<char>>, id: Seq<char>)
    requires
        s.no_duplicates(),
    ensures
        toggled(s, id).no_duplicates(),
        toggled(s, id).contains(id) <==> !s.contains(id),
        forall|x: Seq<char>| x != id ==> (toggled(s, id).contains(x) <==> s.contains(x)),
{
    lemma_id_position(s, id, 0);
    match id_position(s, id, 0) {
        Some(p) => {
            let r = s.remove(p);
            assert forall|x: Seq<char>| x != id implies (r.contains(x) <==> s.contains(x)) by {
                if s.contains(x) {
                    let k = choose|k: int| 0 <= k < s.len() && s[k] == x;
                    if k < p {
                        assert(r[k] == x);
                    } else {
                        assert(k != p);
                        assert(r[k - 1] == x);
                    }
                }
                if r.contains(x) {
                    let k = choose|k: int| 0 <= k < r.len() && r[k] == x;
                    if k < p {
                        assert(s[k] == x);
                    } else {
                        assert(s[k + 1] == x);
                    }
                }
            }
            if r.contains(id) {
                let k = choose|k: int| 0 <= k < r.len() && r[k] == id;
                if k < p {
                    assert(s[k] == id);
                } else {
                    assert(s[k + 1] == id);
                }
            }
        },
        None => {
            let r = s.push(id);
            assert(r[s.len() as int] == id);
            assert forall|x: Seq<char>| x != id implies (r.contains(x) <==> s.contains(x)) by {
                if s.contains(x) {
                    let k = choose|k: int| 0 <= k < s.len() && s[k] == x;
                    assert(r[k] == x);
                }
                if r.contains(x) {
                    let k = choose|k: int| 0 <= k < r.len() && r[k] == x;
                    assert(s[k] == x);
                }
            }
        },
    }
}

// ---------------------------------------------------------------------------
// The first step's fields
// ---------------------------------------------------------------------------

/// The number of choices of a list, counting an empty list as one.
pub open spec fn choice_count(len: nat) -> int {
    if len == 0 {
        1
    } else {
        len as int
    }
}

/// A choice moved one back, wrapping to the last.
pub open spec fn cycle_back(i: usize, len: nat) -> usize {
    if i == 0 {
        (choice_count(len) - 1) as usize
    } else {
        (i - 1) as usize
    }
}

/// A choice moved one on, wrapping to the first.
pub open spec fn cycle_forward(i: usize, len: nat) -> usize {
    ((i + 1) % choice_count(len)) as usize
}

/// The focused choice's position after moving it back or on.
pub open spec fn choice_after(w: NewProjectWizardState, meta: InitializrMetadata, forward: bool) -> usize {
    let (i, len) = if w.active_field == 0 {
        (w.boot_version_idx, meta.boot_versions@.len())
    } else if w.active_field == 1 {
        (w.language_idx, meta.languages@.len())
    } else if w.active_field == 2 {
        (w.packaging_idx, meta.packagings@.len())
    } else if w.active_field == 3 {
        (w.java_version_idx, meta.java_versions@.len())
    } else {
        (w.project_type_idx, meta.project_types@.len())
    };
    if forward {
        cycle_forward(i, len)
    } else {
        cycle_back(i, len)
    }
}

/// The wizard with the focused choice (fields 0 to 4) set to `v`.
pub open spec fn with_choice(w: NewProjectWizardState, v: usize) -> NewProjectWizardState {
    if w.active_field == 0 {
        NewProjectWizardState { boot_version_idx: v, ..w }
    } else if w.active_field == 1 {
        NewProjectWizardState { language_idx: v, ..w }
    } else if w.active_field == 2 {
        NewProjectWizardState { packaging_idx: v, ..w }
    } else if w.active_field == 3 {
        NewProjectWizardState { java_version_idx: v, ..w }
    } else if w.active_field == 4 {
        NewProjectWizardState { project_type_idx: v, ..w }
    } else {
        w
    }
}

/// The wizard with the focused choice (fields 0 to 4) moved back or on.
pub open spec fn choice_moved(
    w: NewProjectWizardState,
    meta: InitializrMetadata,
    forward: bool,
) -> NewProjectWizardState {
    with_choice(w, choice_after(w, meta, forward))
}

/// `n` is `o` with the focused text field (fields 5 to 9: group, artifact,
/// name, description, package) edited by `f`; other fields edit nothing.
pub open spec fn text_edited(
    o: NewProjectWizardState,
    n: NewProjectWizardState,
    f: spec_fn(Seq<char>) -> Seq<char>,
) -> bool {
    if o.active_field == 5 {
        n == NewProjectWizardState { group_id: n.group_id, ..o } && n.group_id@ == f(o.group_id@)
    } else if o.active_field == 6 {
        n == NewProjectWizardState { artifact_id: n.artifact_id, ..o } && n.artifact_id@ == f(
            o.artifact_id@,
        )
    } else if o.active_field == 7 {
        n == NewProjectWizardState { name: n.name, ..o } && n.name@ == f(o.name@)
    } else if o.active_field == 8 {
        n == NewProjectWizardState { description: n.description, ..o } && n.description@ == f(
            o.description@,
        )
    } else if o.active_field == 9 {
        n == NewProjectWizardState { package_name: n.package_name, ..o } && n.package_name@ == f(
            o.package_name@,
        )
    } else {
        n == o
    }
}

/// What a key does on the first step, with the metadata loaded.
pub open spec fn info_key(o: NewProjectWizardState, key: Key, n: NewProjectWizardState, a: WizardAction) -> bool {
    let meta = o.metadata->0;
    let select = o.active_field <= 4;
    match key {
        Key::Esc => a is Exit && wizard_default_spec(n),
        Key::Tab | Key::Down => a is Stay && n == NewProjectWizardState {
            active_field: ((o.active_field + 1) % 10) as usize,
            ..o
        },
        Key::BackTab | Key::Up => a is Stay && n == NewProjectWizardState {
            active_field: if o.active_field == 0 {
                9
            } else {
                (o.active_field - 1) as usize
            },
            ..o
        },
        Key::Left => a is Stay && n == (if select {
            choice_moved(o, meta, false)
        } else {
            o
        }),
        Key::Right => a is Stay && n == (if select {
            choice_moved(o, meta, true)
        } else {
            o
        }),
        Key::Backspace => a is Stay && if select {
            n == o
        } else {
            text_edited(o, n, |t: Seq<char>| without_last(t))
        },
        Key::Char(c) => a is Stay && if select {
            n == o
        } else {
            text_edited(o, n, |t: Seq<char>| t.push(c))
        },
        Key::Enter => a is Stay && n == NewProjectWizardState {
            step: WizardStep::Dependencies,
            dep_group_idx: 0,
            dep_item_idx: 0,
            ..o
        },
        _ => a is Stay && n == o,
    }
}

/// What a key does on the dependencies step while the filter is edited:
/// Esc clears and leaves the filter, Enter leaves it, Backspace and
/// characters edit it; then the cursor goes to the first dependency the
/// filter shows.
pub open spec fn filter_key(o: NewProjectWizardState, key: Key, n: NewProjectWizardState) -> bool {
    let meta = o.metadata->0;
    let (text, active) = match key {
        Key::Esc => (Seq::<char>::empty(), false),
        Key::Enter => (o.dep_filter@, false),
        Key::Backspace => (without_last(o.dep_filter@), true),
        Key::Char(c) => (o.dep_filter@.push(c), true),
        _ => (o.dep_filter@, true),
    };
    &&& n == NewProjectWizardState {
        dep_filter: n.dep_filter,
        dep_filter_active: active,
        dep_item_idx: n.dep_item_idx,
        ..o
    }
    &&& n.dep_filter@ == text
    &&& n.dep_item_idx == first_selectable(meta, text)
}

/// What a key does on the dependencies step otherwise.
pub open spec fn deps_key(o: NewProjectWizardState, key: Key, n: NewProjectWizardState) -> bool {
    let meta = o.metadata->0;
    let f = o.dep_filter@;
    match key {
        Key::Esc => n == NewProjectWizardState { step: WizardStep::ProjectInfo, ..o },
        Key::Char('/') => n == NewProjectWizardState {
            dep_filter_active: true,
            dep_filter: n.dep_filter,
            ..o
        } && n.dep_filter@.len() == 0,
        Key::Char('j') | Key::Down => n == NewProjectWizardState {
            dep_item_idx: match next_selectable(meta, f, o.dep_item_idx as int) {
                Some(k) => k as usize,
                None => o.dep_item_idx,
            },
            ..o
        },
        Key::Char('k') | Key::Up => n == NewProjectWizardState {
            dep_item_idx: match last_selectable_below(meta, f, o.dep_item_idx as int) {
                Some(k) => k as usize,
                None => o.dep_item_idx,
            },
            ..o
        },
        Key::Char(' ') => match flat_id_at(meta, f, o.dep_item_idx as int) {
            Some(id) => n == NewProjectWizardState { selected_deps: n.selected_deps, ..o }
                && key_views(n.selected_deps@) == toggled(key_views(o.selected_deps@), id),
            None => n == o,
        },
        Key::Enter => n == NewProjectWizardState { step: WizardStep::Confirm, ..o },
        _ => n == o,
    }
}

/// The id of the option at position `i`, or empty past the end.
pub open spec fn option_id_at(opts: Seq<InitializrOptionView>, i: int) -> Seq<char> {
    if 0 <= i < opts.len() {
        opts[i].id
    } else {
        Seq::empty()
    }
}

/// The parameters the wizard generates a project with: the ids of the
/// chosen options (empty for a choice past its list), the typed texts,
/// version `0.0.1-SNAPSHOT`, the selected dependencies and the output
/// directory.
pub open spec fn params_spec(p: NewProjectParams, w: NewProjectWizardState, meta: InitializrMetadata) -> bool {
    &&& p.boot_version@ == option_id_at(meta@.boot_versions, w.boot_version_idx as int)
    &&& p.language@ == option_id_at(meta@.languages, w.language_idx as int)
    &&& p.packaging@ == option_id_at(meta@.packagings, w.packaging_idx as int)
    &&& p.java_version@ == option_id_at(meta@.java_versions, w.java_version_idx as int)
    &&& p.project_type@ == option_id_at(meta@.project_types, w.project_type_idx as int)
    &&& p.group_id@ == w.group_id@
    &&& p.artifact_id@ == w.artifact_id@
    &&& p.version@ == "0.0.1-SNAPSHOT"@
    &&& p.name@ == w.name@
    &&& p.description@ == w.description@
    &&& p.package_name@ == w.package_name@
    &&& key_views(p.dependencies@) == key_views(w.selected_deps@)
    &&& p.output_dir@ == w.output_dir@
}

/// What a key does on the confirmation step.
pub open spec fn confirm_key(o: NewProjectWizardState, key: Key, n: NewProjectWizardState, a: WizardAction) -> bool {
    match key {
        Key::Esc => a is Stay && n == NewProjectWizardState { step: WizardStep::Dependencies, ..o },
        Key::Char(c) => a is Stay && n == NewProjectWizardState { output_dir: n.output_dir, ..o }
            && n.output_dir@ == o.output_dir@.push(c),
        Key::Backspace => a is Stay && n == NewProjectWizardState { output_dir: n.output_dir, ..o }
            && n.output_dir@ == without_last(o.output_dir@),
        Key::Enter => match o.metadata {
            Some(meta) => (a matches WizardAction::Generate(p) && params_spec(p, o, meta)) && n
                == NewProjectWizardState {
                step: WizardStep::Generating,
                gen_progress: n.gen_progress,
                gen_done: false,
                ..o
            } && n.gen_progress@ == "Generating project..."@,
            None => a is Stay && n == o,
        },
        _ => a is Stay && n == o,
    }
}

/// What a key does to the wizard: on the first step, Esc closes it (and
/// resets it unless the metadata merely failed to load), and nothing else
/// acts until the metadata is there; on the dependencies step nothing acts
/// without metadata; once generation is done, Esc or Enter closes and
/// resets it.
pub open spec fn wizard_key_spec(
    o: NewProjectWizardState,
    key: Key,
    n: NewProjectWizardState,
    a: WizardAction,
) -> bool {
    match o.step {
        WizardStep::ProjectInfo => if o.loading_metadata {
            if key == Key::Esc {
                a is Exit && wizard_default_spec(n)
            } else {
                a is Stay && n == o
            }
        } else if o.metadata is None {
            (if key == Key::Esc {
                a is Exit
            } else {
                a is Stay
            }) && n == o
        } else {
            info_key(o, key, n, a)
        },
        WizardStep::Dependencies => if o.metadata is None {
            a is Stay && n == o
        } else if o.dep_filter_active {
            a is Stay && filter_key(o, key, n)
        } else {
            a is Stay && deps_key(o, key, n)
        },
        WizardStep::Confirm => confirm_key(o, key, n, a),
        WizardStep::Generating => if (key == Key::Esc || key == Key::Enter) && o.gen_done {
            a is Exit && wizard_default_spec(n)
        } else {
            a is Stay && n == o
        },
    }
}

/// On the project step, a typed character goes to the end of the text
/// field the cursor is on (positions 5 to 9: group, artifact, name,
/// description, package) and nothing else changes; Backspace right after
/// takes it away again.
pub proof fn law_typing_edits_the_active_text_field(
    o: NewProjectWizardState,
    c: char,
    n: NewProjectWizardState,
    a: WizardAction,
    m: NewProjectWizardState,
    b: WizardAction,
)
    requires
        o.step == WizardStep::ProjectInfo,
        !o.loading_metadata,
        (o.metadata is Some),
        5 <= o.active_field <= 9,
        wizard_key_spec(o, Key::Char(c), n, a),
        wizard_key_spec(n, Key::Backspace, m, b),
    ensures
        (a is Stay),
        o.active_field == 5 ==> n == (NewProjectWizardState { group_id: n.group_id, ..o }) && n.group_id@
            == o.group_id@.push(c),
        o.active_field == 6 ==> n == (NewProjectWizardState { artifact_id: n.artifact_id, ..o })
            && n.artifact_id@ == o.artifact_id@.push(c),
        o.active_field == 7 ==> n == (NewProjectWizardState { name: n.name, ..o }) && n.name@ == o.name@.push(c),
        o.active_field == 8 ==> n == (NewProjectWizardState { description: n.description, ..o })
            && n.description@ == o.description@.push(c),
        o.active_field == 9 ==> n == (NewProjectWizardState { package_name: n.package_name, ..o })
            && n.package_name@ == o.package_name@.push(c),
        m.group_id@ == o.group_id@,
        m.artifact_id@ == o.artifact_id@,
        m.name@ == o.name@,
        m.description@ == o.description@,
        m.package_name@ == o.package_name@,
        m == (NewProjectWizardState {
            group_id: m.group_id,
            artifact_id: m.artifact_id,
            name: m.name,
            description: m.description,
            package_name: m.package_name,
            ..o
        }),
{
    assert(o.group_id@.push(c).drop_last() =~= o.group_id@);
    assert(o.artifact_id@.push(c).drop_last() =~= o.artifact_id@);
    assert(o.name@.push(c).drop_last() =~= o.name@);
    assert(o.description@.push(c).drop_last() =~= o.description@);
    assert(o.package_name@.push(c).drop_last() =~= o.package_name@);
}

/// Enter on the confirmation step, once the metadata is there, generates
/// the project the wizard shows: the texts as they were typed (group,
/// artifact, name, description, package, output directory), version
/// `0.0.1-SNAPSHOT`, the selected dependencies in order, and for each
/// option the id at its chosen position (empty past the list); the wizard
/// moves on to the generating step.
pub proof fn law_confirm_generates_what_was_typed(
    o: NewProjectWizardState,
    n: NewProjectWizardState,
    a: WizardAction,
    meta: InitializrMetadata,
)
    requires
        wizard_key_spec(o, Key::Enter, n, a),
        o.step == WizardStep::Confirm,
        o.metadata == Some(meta),
    ensures
        a matches WizardAction::Generate(p) && {
            &&& p.group_id@ == o.group_id@
            &&& p.artifact_id@ == o.artifact_id@
            &&& p.name@ == o.name@
            &&& p.description@ == o.description@
            &&& p.package_name@ == o.package_name@
            &&& p.output_dir@ == o.output_dir@
            &&& p.version@ == "0.0.1-SNAPSHOT"@
            &&& p.dependencies@.len() == o.selected_deps@.len()
            &&& forall|k: int| 0 <= k < p.dependencies@.len() ==> (#[trigger] p.dependencies@[k])@ == o.selected_deps@[k]@
            &&& (o.boot_version_idx < meta@.boot_versions.len() ==> p.boot_version@
                == meta@.boot_versions[o.boot_version_idx as int].id)
            &&& (o.language_idx < meta@.languages.len() ==> p.language@ == meta@.languages[o.language_idx as int].id)
            &&& (o.packaging_idx < meta@.packagings.len() ==> p.packaging@
                == meta@.packagings[o.packaging_idx as int].id)
            &&& (o.java_version_idx < meta@.java_versions.len() ==> p.java_version@
                == meta@.java_versions[o.java_version_idx as int].id)
            &&& (o.project_type_idx < meta@.project_types.len() ==> p.project_type@
                == meta@.project_types[o.project_type_idx as int].id)
        },
        n.step == WizardStep::Generating,
{
    if let WizardAction::Generate(p) = a {
        assert(params_spec(p, o, meta));
        assert(key_views(p.dependencies@).len() == p.dependencies@.len());
        assert(key_views(o.selected_deps@).len() == o.selected_deps@.len());
        assert forall|k: int| 0 <= k < p.dependencies@.len() implies (#[trigger] p.dependencies@[k])@
            == o.selected_deps@[k]@ by {
            assert(key_views(p.dependencies@)[k] == key_views(o.selected_deps@)[k]);
        }
    }
}

/// No key of the wizard selects a dependency twice: a selection free of
/// repeats stays so.
pub proof fn law_selection_stays_without_repeats(
    o: NewProjectWizardState,
    key: Key,
    n: NewProjectWizardState,
    a: WizardAction,
)
    requires
        key_views(o.selected_deps@).no_duplicates(),
        wizard_key_spec(o, key, n, a),
    ensures
        key_views(n.selected_deps@).no_duplicates(),
{
    if wizard_default_spec(n) {
        assert(key_views(n.selected_deps@) =~= Seq::<Seq<char>>::empty());
    } else if n.selected_deps != o.selected_deps {
        let meta = o.metadata->0;
        let id = flat_id_at(meta, o.dep_filter@, o.dep_item_idx as int)->0;
        law_toggle_flips_selection(key_views(o.selected_deps@), id);
    }
}

// ---------------------------------------------------------------------------
// Executable pieces
// ---------------------------------------------------------------------------

fn option_id(opts: &Vec<InitializrOption>, i: usize) -> (r: String)
    ensures
        r@ == option_id_at(option_views(opts@), i as int),
{
    if i < opts.len() {
        opts[i].id.clone()
    } else {
        String::new()
    }
}

fn clone_strings(v: &Vec<String>) -> (r: Vec<String>)
    ensures
        r@ == v@,
{
    let mut out: Vec<String> = Vec::new();
    let mut i: usize = 0;
    while i < v.len()
        invariant
            i <= v.len(),
            out@ == v@.take(i as int),
        decreases v.len() - i,
    {
        out.push(v[i].clone());
        proof {
            assert(out@ =~= v@.take(i + 1));
        }
        i += 1;
    }
    proof {
        assert(v@.take(i as int) =~= v@);
    }
    out
}

fn first_selectable_exec(meta: &InitializrMetadata, filter: &str) -> (r: usize)
    ensures
        r == first_selectable(*meta, filter@),
{
    let count = flat_dep_count(meta, filter);
    let mut i: usize = 0;
    while i < count
        invariant
            i <= count,
            count == flat_count(*meta, filter@),
            first_selectable_from(*meta, filter@, 0, count as int) == first_selectable_from(
                *meta,
                filter@,
                i as int,
                count as int,
            ),
        decreases count - i,
    {
        if flat_dep_is_selectable(meta, filter, i) {
            return i;
        }
        i += 1;
    }
    0
}

fn cycle_back_exec(i: usize, len: usize) -> (r: usize)
    ensures
        r == cycle_back(i, len as nat),
{
    if i == 0 {
        if len == 0 {
            0
        } else {
            len - 1
        }
    } else {
        i - 1
    }
}

fn cycle_forward_exec(i: usize, len: usize) -> (r: usize)
    ensures
        r == cycle_forward(i, len as nat),
{
    let m = if len == 0 {
        1
    } else {
        len
    };
    proof {
        vstd::arithmetic::div_mod::lemma_add_mod_noop(i as int, 1, m as int);
        if m > 1 {
            vstd::arithmetic::div_mod::lemma_small_mod(1, m as nat);
        }
        vstd::arithmetic::div_mod::lemma_mod_pos_bound(i as int, m as int);
    }
    ((i % m) + 1) % m
}

fn toggle_dep(selected: &mut Vec<String>, id: String)
    ensures
        key_views(final(selected)@) == toggled(key_views(old(selected)@), id@),
{
    let ghost ks = key_views(selected@);
    let mut i: usize = 0;
    while i < selected.len()
        invariant
            i <= selected@.len(),
            selected@ == old(selected)@,
            ks == key_views(selected@),
            id_position(ks, id@, 0) == id_position(ks, id@, i as int),
        decreases selected@.len() - i,
    {
        if str_eq(selected[i].as_str(), id.as_str()) {
            proof {
                assert(ks[i as int] == id@);
                assert(id_position(ks, id@, i as int) == Some(i as int));
            }
            selected.remove(i);
            proof {
                assert(key_views(selected@) =~= ks.remove(i as int));
            }
            return ;
        }
        i += 1;
    }
    selected.push(id);
    proof {
        assert(key_views(selected@) =~= ks.push(id@));
    }
}

fn edit_text_field(w: &mut NewProjectWizardState, ch: Option<char>)
    requires
        old(w).active_field > 4,
    ensures
        match ch {
            Some(c) => text_edited(*old(w), *final(w), |t: Seq<char>| t.push(c)),
            None => text_edited(*old(w), *final(w), |t: Seq<char>| without_last(t)),
        },
{
    let field = w.active_field;
    if field == 5 {
        match ch {
            Some(c) => push_char(&mut w.group_id, c),
            None => pop_char(&mut w.group_id),
        }
    } else if field == 6 {
        match ch {
            Some(c) => push_char(&mut w.artifact_id, c),
            None => pop_char(&mut w.artifact_id),
        }
    } else if field == 7 {
        match ch {
            Some(c) => push_char(&mut w.name, c),
            None => pop_char(&mut w.name),
        }
    } else if field == 8 {
        match ch {
            Some(c) => push_char(&mut w.description, c),
            None => pop_char(&mut w.description),
        }
    } else if field == 9 {
        match ch {
            Some(c) => push_char(&mut w.package_name, c),
            None => pop_char(&mut w.package_name),
        }
    }
}

fn choice_after_exec(w: &NewProjectWizardState, meta: &InitializrMetadata, forward: bool) -> (r: usize)
    ensures
        r == choice_after(*w, *meta, forward),
{
    let (i, len) = if w.active_field == 0 {
        (w.boot_version_idx, meta.boot_versions.len())
    } else if w.active_field == 1 {
        (w.language_idx, meta.languages.len())
    } else if w.active_field == 2 {
        (w.packaging_idx, meta.packagings.len())
    } else if w.active_field == 3 {
        (w.java_version_idx, meta.java_versions.len())
    } else {
        (w.project_type_idx, meta.project_types.len())
    };
    if forward {
        cycle_forward_exec(i, len)
    } else {
        cycle_back_exec(i, len)
    }
}

fn set_choice(w: &mut NewProjectWizardState, v: usize)
    ensures
        *final(w) == with_choice(*old(w), v),
{
    let field = w.active_field;
    if field == 0 {
        w.boot_version_idx = v;
    } else if field == 1 {
        w.language_idx = v;
    } else if field == 2 {
        w.packaging_idx = v;
    } else if field == 3 {
        w.java_version_idx = v;
    } else if field == 4 {
        w.project_type_idx = v;
    }
}

fn next_selectable_exec(meta: &InitializrMetadata, filter: &str, idx: usize) -> (r: Option<usize>)
    ensures
        match r {
            Some(k) => next_selectable(*meta, filter@, idx as int) == Some(k as int),
            None => next_selectable(*meta, filter@, idx as int) is None,
        },
{
    let count = flat_dep_count(meta, filter);
    if idx >= count {
        return None;
    }
    let mut next = idx + 1;
    while next < count && !flat_dep_is_selectable(meta, filter, next)
        invariant
            idx < next <= count,
            count == flat_count(*meta, filter@),
            first_selectable_from(*meta, filter@, idx + 1, count as int) == first_selectable_from(
                *meta,
                filter@,
                next as int,
                count as int,
            ),
        decreases count - next,
    {
        next += 1;
    }
    if next < count {
        Some(next)
    } else {
        None
    }
}

fn previous_selectable_exec(meta: &InitializrMetadata, filter: &str, idx: usize) -> (r: Option<usize>)
    ensures
        match r {
            Some(k) => last_selectable_below(*meta, filter@, idx as int) == Some(k as int),
            None => last_selectable_below(*meta, filter@, idx as int) is None,
        },
{
    if idx == 0 {
        return None;
    }
    let mut prev = idx - 1;
    while prev > 0 && !flat_dep_is_selectable(meta, filter, prev)
        invariant
            prev < idx,
            last_selectable_below(*meta, filter@, idx as int) == last_selectable_below(
                *meta,
                filter@,
                prev + 1,
            ),
        decreases prev,
    {
        prev -= 1;
    }
    if flat_dep_is_selectable(meta, filter, prev) {
        proof {
            assert(selectable(*meta, filter@, prev as int));
            assert(last_selectable_below(*meta, filter@, prev + 1) == Some(prev as int));
        }
        Some(prev)
    } else {
        proof {
            assert(last_selectable_below(*meta, filter@, 0) is None);
        }
        None
    }
}

/// Handles a key in the new-project wizard and says what the front end
/// has to do next.
pub fn handle_new_project_key(w: &mut NewProjectWizardState, key: Key) -> (a: WizardAction)
    ensures
        wizard_key_spec(*old(w), key, *final(w), a),
{
    match w.step {
        WizardStep::ProjectInfo => {
            if w.loading_metadata {
                if key == Key::Esc {
                    *w = NewProjectWizardState::default();
                    return WizardAction::Exit;
                }
                return WizardAction::Stay;
            }
            if w.metadata.is_none() {
                if key == Key::Esc {
                    return WizardAction::Exit;
                }
                return WizardAction::Stay;
            }
            let select = w.active_field <= 4;
            match key {
                Key::Esc => {
                    *w = NewProjectWizardState::default();
                    WizardAction::Exit
                },
                Key::Tab | Key::Down => {
                    proof {
                        vstd::arithmetic::div_mod::lemma_add_mod_noop(w.active_field as int, 1, 10);
                    }
                    w.active_field = ((w.active_field % 10) + 1) % 10;
                    WizardAction::Stay
                },
                Key::BackTab | Key::Up => {
                    w.active_field = if w.active_field == 0 {
                        9
                    } else {
                        w.active_field - 1
                    };
                    WizardAction::Stay
                },
                Key::Left | Key::Right => {
                    if select {
                        let forward = key == Key::Right;
                        let v = match &w.metadata {
                            Some(m) => choice_after_exec(w, m, forward),
                            None => 0,
                        };
                        set_choice(w, v);
                    }
                    WizardAction::Stay
                },
                Key::Backspace => {
                    if !select {
                        edit_text_field(w, None);
                    }
                    WizardAction::Stay
                },
                Key::Char(c) => {
                    if !select {
                        edit_text_field(w, Some(c));
                    }
                    WizardAction::Stay
                },
                Key::Enter => {
                    w.step = WizardStep::Dependencies;
                    w.dep_group_idx = 0;
                    w.dep_item_idx = 0;
                    WizardAction::Stay
                },
                _ => WizardAction::Stay,
            }
        },
        WizardStep::Dependencies => {
            if w.metadata.is_none() {
                return WizardAction::Stay;
            }
            if w.dep_filter_active {
                match key {
                    Key::Esc => {
                        w.dep_filter_active = false;
                        w.dep_filter = String::new();
                    },
                    Key::Enter => {
                        w.dep_filter_active = false;
                    },
                    Key::Backspace => {
                        pop_char(&mut w.dep_filter);
                    },
                    Key::Char(c) => {
                        push_char(&mut w.dep_filter, c);
                    },
                    _ => {},
                }
                let first = match &w.metadata {
                    Some(m) => first_selectable_exec(m, w.dep_filter.as_str()),
                    None => 0,
                };
                w.dep_item_idx = first;
                return WizardAction::Stay;
            }
            match key {
                Key::Esc => {
                    w.step = WizardStep::ProjectInfo;
                },
                Key::Char('/') => {
                    w.dep_filter_active = true;
                    w.dep_filter = String::new();
                },
                Key::Char('j') | Key::Down => {
                    let next = match &w.metadata {
                        Some(m) => next_selectable_exec(m, w.dep_filter.as_str(), w.dep_item_idx),
                        None => None,
                    };
                    if let Some(k) = next {
                        w.dep_item_idx = k;
                    }
                },
                Key::Char('k') | Key::Up => {
                    let prev = match &w.metadata {
                        Some(m) => previous_selectable_exec(m, w.dep_filter.as_str(), w.dep_item_idx),
                        None => None,
                    };
                    if let Some(k) = prev {
                        w.dep_item_idx = k;
                    }
                },
                Key::Char(' ') => {
                    let id = match &w.metadata {
                        Some(m) => flat_dep_id_at(m, w.dep_filter.as_str(), w.dep_item_idx),
                        None => None,
                    };
                    if let Some(id) = id {
                        toggle_dep(&mut w.selected_deps, id);
                    }
                },
                Key::Enter => {
                    w.step = WizardStep::Confirm;
                },
                _ => {},
            }
            WizardAction::Stay
        },
        WizardStep::Confirm => {
            match key {
                Key::Esc => {
                    w.step = WizardStep::Dependencies;
                    WizardAction::Stay
                },
                Key::Char(c) => {
                    push_char(&mut w.output_dir, c);
                    WizardAction::Stay
                },
                Key::Backspace => {
                    pop_char(&mut w.output_dir);
                    WizardAction::Stay
                },
                Key::Enter => {
                    let params = match &w.metadata {
                        Some(meta) => NewProjectParams {
                            boot_version: option_id(&meta.boot_versions, w.boot_version_idx),
                            language: option_id(&meta.languages, w.language_idx),
                            packaging: option_id(&meta.packagings, w.packaging_idx),
                            java_version: option_id(&meta.java_versions, w.java_version_idx),
                            project_type: option_id(&meta.project_types, w.project_type_idx),
                            group_id: w.group_id.clone(),
                            artifact_id: w.artifact_id.clone(),
                            version: owned("0.0.1-SNAPSHOT"),
                            name: w.name.clone(),
                            description: w.description.clone(),
                            package_name: w.package_name.clone(),
                            dependencies: clone_strings(&w.selected_deps),
                            output_dir: w.output_dir.clone(),
                        },
                        None => {
                            return WizardAction::Stay;
                        },
                    };
                    w.step = WizardStep::Generating;
                    w.gen_progress = owned("Generating project...");
                    w.gen_done = false;
                    WizardAction::Generate(params)
                },
                _ => WizardAction::Stay,
            }
        },
        WizardStep::Generating => {
            if (key == Key::Esc || key == Key::Enter) && w.gen_done {
                *w = NewProjectWizardState::default();
                WizardAction::Exit
            } else {
                WizardAction::Stay
            }
        },
    }
}

// ---------------------------------------------------------------------------
// What the wizard shows
// ---------------------------------------------------------------------------

/// The name shown for the option at position `i`: its name, or `?` past
/// the end of the list.
pub open spec fn option_name_spec(opts: Seq<InitializrOptionView>, i: int) -> Seq<char> {
    if 0 <= i < opts.len() {
        opts[i].name
    } else {
        "?"@
    }
}

/// The name shown for the option at position `i`.
pub fn option_name_at(opts: &Vec<InitializrOption>, i: usize) -> (r: String)
    ensures
        r@ == option_name_spec(option_views(opts@), i as int),
{
    if i < opts.len() {
        opts[i].name.clone()
    } else {
        owned("?")
    }
}

/// Whether the dependency is selected.
pub fn is_dependency_selected(selected: &Vec<String>, id: &str) -> (r: bool)
    ensures
        r == key_views(selected@).contains(id@),
{
    let mut i: usize = 0;
    while i < selected.len()
        invariant
            i <= selected@.len(),
            forall|k: int| 0 <= k < i ==> selected@[k]@ != id@,
        decreases selected@.len() - i,
    {
        if str_eq(selected[i].as_str(), id) {
            proof {
                assert(key_views(selected@)[i as int] == id@);
            }
            return true;
        }
        i += 1;
    }
    proof {
        if key_views(selected@).contains(id@) {
            let k = choose|k: int| 0 <= k < key_views(selected@).len() && key_views(selected@)[k] == id@;
            assert(selected@[k]@ == id@);
        }
    }
    false
}

/// How the dependencies step lists the selection: the first eight ids
/// joined, and how many more there are.
pub open spec fn selection_line_spec(ids: Seq<Seq<char>>) -> Seq<char> {
    if ids.len() <= 8 {
        join_comma(ids)
    } else {
        join_comma(ids.take(8)) + " +"@ + decimal((ids.len() - 8) as nat) + " more"@
    }
}

/// How the dependencies step lists the selection.
pub fn selection_line(ids: &Vec<String>) -> (r: String)
    ensures
        r@ == selection_line_spec(key_views(ids@)),
{
    let n = ids.len();
    if n <= 8 {
        let r = join(ids, 0, n);
        proof {
            assert(ids@.subrange(0, n as int) =~= ids@);
        }
        return r;
    }
    let mut r = join(ids, 0, 8);
    push_str(&mut r, " +");
    push_decimal(&mut r, (n - 8) as u64);
    push_str(&mut r, " more");
    proof {
        assert(ids@.subrange(0, 8).map_values(|s: String| s@) =~= key_views(ids@).take(8));
    }
    r
}

} // verus!
