//! The Spring Initializr metadata: reading it, and the dependency list the
//! new-project wizard shows.

use vstd::prelude::*;

use crate::json::{get_str_or, json_array, json_get, opt_get, parse_json, parsed_json, str_or, JsonValue};
use crate::model::{
    dependency_views, group_views, option_views, InitializrDependency, InitializrDependencyGroup,
    InitializrDependencyView, InitializrMetadata, InitializrOption, InitializrOptionView,
};
use crate::text::{contains_seq, lowercase, owned, push_str, str_contains, str_eq, to_lowercase};

verus! {

// ---------------------------------------------------------------------------
// Reading the metadata
// ---------------------------------------------------------------------------

/// The option one entry of a section's `values` describes.
pub open spec fn option_of(v: JsonValue) -> InitializrOptionView {
    InitializrOptionView {
        id: str_or(json_get(v, "id"@), ""@),
        name: str_or(json_get(v, "name"@), ""@),
    }
}

/// The options of a section (`bootVersion`, `language`, ...).
pub open spec fn options_spec(body: JsonValue, key: Seq<char>) -> Seq<InitializrOptionView> {
    match json_array(opt_get(json_get(body, key), "values"@)) {
        Some(vs) => vs.map_values(|v: JsonValue| option_of(v)),
        None => Seq::empty(),
    }
}

/// The default of a section, or empty.
pub open spec fn default_spec(body: JsonValue, key: Seq<char>) -> Seq<char> {
    str_or(opt_get(json_get(body, key), "default"@), ""@)
}

/// The dependency one entry of a group's `values` describes.
pub open spec fn dependency_of(d: JsonValue) -> InitializrDependencyView {
    InitializrDependencyView {
        id: str_or(json_get(d, "id"@), ""@),
        name: str_or(json_get(d, "name"@), ""@),
        description: str_or(json_get(d, "description"@), ""@),
    }
}

/// The dependency group one entry of `dependencies.values` describes.
pub open spec fn group_of(g: JsonValue) -> crate::model::InitializrDependencyGroupView {
    crate::model::InitializrDependencyGroupView {
        name: str_or(json_get(g, "name"@), ""@),
        values: match json_array(json_get(g, "values"@)) {
            Some(ds) => ds.map_values(|d: JsonValue| dependency_of(d)),
            None => Seq::empty(),
        },
    }
}

/// The dependency groups of the metadata.
pub open spec fn groups_spec(body: JsonValue) -> Seq<crate::model::InitializrDependencyGroupView> {
    match json_array(opt_get(json_get(body, "dependencies"@), "values"@)) {
        Some(gs) => gs.map_values(|g: JsonValue| group_of(g)),
        None => Seq::empty(),
    }
}

/// The metadata a document describes; missing parts are empty.
pub open spec fn metadata_spec(body: JsonValue) -> crate::model::InitializrMetadataView {
    crate::model::InitializrMetadataView {
        boot_versions: options_spec(body, "bootVersion"@),
        boot_version_default: default_spec(body, "bootVersion"@),
        languages: options_spec(body, "language"@),
        language_default: default_spec(body, "language"@),
        packagings: options_spec(body, "packaging"@),
        packaging_default: default_spec(body, "packaging"@),
        java_versions: options_spec(body, "javaVersion"@),
        java_version_default: default_spec(body, "javaVersion"@),
        project_types: options_spec(body, "type"@),
        project_type_default: default_spec(body, "type"@),
        dependency_groups: groups_spec(body),
        group_id_default: default_spec(body, "groupId"@),
        artifact_id_default: default_spec(body, "artifactId"@),
        version_default: default_spec(body, "version"@),
        name_default: default_spec(body, "name"@),
        description_default: default_spec(body, "description"@),
        package_name_default: default_spec(body, "packageName"@),
    }
}

fn section_default(body: &JsonValue, key: &str) -> (r: String)
    ensures
        r@ == default_spec(*body, key@),
{
    match body.get(key) {
        Some(section) => get_str_or(section, "default", ""),
        None => owned(""),
    }
}

fn section_options(body: &JsonValue, key: &str) -> (r: Vec<InitializrOption>)
    ensures
        option_views(r@) == options_spec(*body, key@),
{
    let mut out: Vec<InitializrOption> = Vec::new();
    if let Some(section) = body.get(key) {
        if let Some(v) = section.get("values") {
            if let Some(vs) = v.as_array() {
                let mut i: usize = 0;
                while i < vs.len()
                    invariant
                        i <= vs.len(),
                        out@.len() == i,
                        forall|k: int| 0 <= k < i ==> (#[trigger] out@[k])@ == option_of(vs@[k]),
                    decreases vs.len() - i,
                {
                    out.push(
                        InitializrOption {
                            id: get_str_or(&vs[i], "id", ""),
                            name: get_str_or(&vs[i], "name", ""),
                        },
                    );
                    i += 1;
                }
                proof {
                    assert(option_views(out@) =~= options_spec(*body, key@));
                }
                return out;
            }
        }
    }
    proof {
        assert(option_views(out@) =~= options_spec(*body, key@));
    }
    out
}

fn group_from_json(g: &JsonValue) -> (r: InitializrDependencyGroup)
    ensures
        r@ == group_of(*g),
{
    let mut values: Vec<InitializrDependency> = Vec::new();
    if let Some(v) = g.get("values") {
        if let Some(ds) = v.as_array() {
            let mut i: usize = 0;
            while i < ds.len()
                invariant
                    i <= ds.len(),
                    values@.len() == i,
                    forall|k: int| 0 <= k < i ==> (#[trigger] values@[k])@ == dependency_of(ds@[k]),
                decreases ds.len() - i,
            {
                values.push(
                    InitializrDependency {
                        id: get_str_or(&ds[i], "id", ""),
                        name: get_str_or(&ds[i], "name", ""),
                        description: get_str_or(&ds[i], "description", ""),
                    },
                );
                i += 1;
            }
        }
    }
    let r = InitializrDependencyGroup { name: get_str_or(g, "name", ""), values };
    proof {
        assert(dependency_views(r.values@) =~= group_of(*g).values);
    }
    r
}

fn dependency_groups(body: &JsonValue) -> (r: Vec<InitializrDependencyGroup>)
    ensures
        group_views(r@) == groups_spec(*body),
{
    let mut out: Vec<InitializrDependencyGroup> = Vec::new();
    if let Some(d) = body.get("dependencies") {
        if let Some(v) = d.get("values") {
            if let Some(gs) = v.as_array() {
                let mut i: usize = 0;
                while i < gs.len()
                    invariant
                        i <= gs.len(),
                        out@.len() == i,
                        forall|k: int| 0 <= k < i ==> (#[trigger] out@[k])@ == group_of(gs@[k]),
                    decreases gs.len() - i,
                {
                    out.push(group_from_json(&gs[i]));
                    i += 1;
                }
                proof {
                    assert(group_views(out@) =~= groups_spec(*body));
                }
                return out;
            }
        }
    }
    proof {
        assert(group_views(out@) =~= groups_spec(*body));
    }
    out
}

/// The Initializr metadata a document describes: the options and default
/// of each select section, the dependency groups, and the defaults of the
/// text fields.  Missing parts read as empty.
pub fn parse_initializr_metadata(body: &JsonValue) -> (r: InitializrMetadata)
    ensures
        r@ == metadata_spec(*body),
{
    InitializrMetadata {
        boot_versions: section_options(body, "bootVersion"),
        boot_version_default: section_default(body, "bootVersion"),
        languages: section_options(body, "language"),
        language_default: section_default(body, "language"),
        packagings: section_options(body, "packaging"),
        packaging_default: section_default(body, "packaging"),
        java_versions: section_options(body, "javaVersion"),
        java_version_default: section_default(body, "javaVersion"),
        project_types: section_options(body, "type"),
        project_type_default: section_default(body, "type"),
        dependency_groups: dependency_groups(body),
        group_id_default: section_default(body, "groupId"),
        artifact_id_default: section_default(body, "artifactId"),
        version_default: section_default(body, "version"),
        name_default: section_default(body, "name"),
        description_default: section_default(body, "description"),
        package_name_default: section_default(body, "packageName"),
    }
}

// ---------------------------------------------------------------------------
// Positions of options
// ---------------------------------------------------------------------------

/// The position of the first option with the id, searching from `i`.
pub open spec fn option_position(opts: Seq<InitializrOptionView>, id: Seq<char>, i: int) -> Option<
    int,
>
    decreases opts.len() - i,
{
    if i < 0 || i >= opts.len() {
        None
    } else if opts[i].id == id {
        Some(i)
    } else {
        option_position(opts, id, i + 1)
    }
}

/// The position of the option with the id, or the first position.
pub open spec fn position_or_first(opts: Seq<InitializrOptionView>, id: Seq<char>) -> int {
    match option_position(opts, id, 0) {
        Some(i) => i,
        None => 0,
    }
}

pub proof fn lemma_option_position(opts: Seq<InitializrOptionView>, id: Seq<char>, i: int)
    ensures
        option_position(opts, id, i) matches Some(k) ==> i <= k < opts.len() && opts[k].id == id,
        option_position(opts, id, i) is None && 0 <= i ==> forall|k: int|
            i <= k < opts.len() ==> opts[k].id != id,
    decreases opts.len() - i,
{
    if 0 <= i < opts.len() && opts[i].id != id {
        lemma_option_position(opts, id, i + 1);
    }
}

/// The position of the option with the id, or 0 when none has it.
pub fn position_of_option(opts: &Vec<InitializrOption>, id: &str) -> (r: usize)
    ensures
        r == position_or_first(option_views(opts@), id@),
{
    let ghost v = option_views(opts@);
    let mut i: usize = 0;
    while i < opts.len()
        invariant
            i <= opts.len(),
            v == option_views(opts@),
            option_position(v, id@, 0) == option_position(v, id@, i as int),
        decreases opts.len() - i,
    {
        if str_eq(opts[i].id.as_str(), id) {
            return i;
        }
        i += 1;
    }
    0
}

/// Reads the Initializr metadata from the text of its file: the metadata
/// the decoded document describes, or an error when the text is not JSON.
pub fn metadata_from_text(data: &str) -> (r: Result<InitializrMetadata, String>)
    ensures
        match parsed_json(data@) {
            Some(v) => r matches Ok(m) && m@ == metadata_spec(v),
            None => r matches Err(e) && e@ == "failed to parse local metadata JSON"@,
        },
{
    match parse_json(data) {
        Some(v) => Ok(parse_initializr_metadata(&v)),
        None => Err(owned("failed to parse local metadata JSON")),
    }
}

// ---------------------------------------------------------------------------
// The dependency list of the wizard
// ---------------------------------------------------------------------------

/// An entry of the flat dependency list: a group header, or a dependency
/// given by its group and its position in the group.
#[derive(Debug, Clone, Copy, PartialEq, Eq, Structural)]
pub enum FlatDepEntry {
    GroupHeader(usize),
    Dep(usize, usize),
}

/// A dependency passes the filter: the filter is empty, or its lower-case
/// form occurs in the lower-case name, id or description.
pub open spec fn dep_matches(d: InitializrDependencyView, filter: Seq<char>) -> bool {
    let f = lowercase(filter);
    filter.len() == 0 || contains_seq(lowercase(d.name), f) || contains_seq(lowercase(d.id), f)
        || contains_seq(lowercase(d.description), f)
}

/// The entries of the first `n` dependencies of group `gi` that pass the
/// filter.
pub open spec fn matching_deps(deps: Seq<InitializrDependencyView>, filter: Seq<char>, gi: int, n: int) -> Seq<
    FlatDepEntry,
>
    decreases n,
{
    if n <= 0 {
        Seq::empty()
    } else {
        let rest = matching_deps(deps, filter, gi, n - 1);
        if dep_matches(deps[n - 1], filter) {
            rest.push(FlatDepEntry::Dep(gi as usize, (n - 1) as usize))
        } else {
            rest
        }
    }
}

/// The block of group `gi`: its header and its passing dependencies, or
/// nothing when none passes.
pub open spec fn group_block(
    groups: Seq<crate::model::InitializrDependencyGroupView>,
    filter: Seq<char>,
    gi: int,
) -> Seq<FlatDepEntry> {
    let m = matching_deps(groups[gi].values, filter, gi, groups[gi].values.len() as int);
    if m.len() > 0 {
        seq![FlatDepEntry::GroupHeader(gi as usize)] + m
    } else {
        Seq::empty()
    }
}

/// The blocks of the first `n` groups.
pub open spec fn flat_entries_upto(
    groups: Seq<crate::model::InitializrDependencyGroupView>,
    filter: Seq<char>,
    n: int,
) -> Seq<FlatDepEntry>
    decreases n,
{
    if n <= 0 {
        Seq::empty()
    } else {
        flat_entries_upto(groups, filter, n - 1) + group_block(groups, filter, n - 1)
    }
}

/// The flat dependency list for a filter.
pub open spec fn flat_entries(
    groups: Seq<crate::model::InitializrDependencyGroupView>,
    filter: Seq<char>,
) -> Seq<FlatDepEntry> {
    flat_entries_upto(groups, filter, groups.len() as int)
}

fn dep_passes(d: &InitializrDependency, filter: &str, lower_filter: &str) -> (r: bool)
    requires
        lower_filter@ == lowercase(filter@),
    ensures
        r == dep_matches(d@, filter@),
{
    if filter.is_empty() {
        return true;
    }
    let n = to_lowercase(d.name.as_str());
    let i = to_lowercase(d.id.as_str());
    let ds = to_lowercase(d.description.as_str());
    str_contains(n.as_str(), lower_filter) || str_contains(i.as_str(), lower_filter)
        || str_contains(ds.as_str(), lower_filter)
}

/// The list the wizard shows: for each group with a dependency passing the
/// filter, its header followed by those dependencies.
pub fn flatten_all_deps_for_render(meta: &InitializrMetadata, filter: &str) -> (r: Vec<FlatDepEntry>)
    ensures
        r@ == flat_entries(meta@.dependency_groups, filter@),
{
    let ghost groups = meta@.dependency_groups;
    let f = to_lowercase(filter);
    let mut out: Vec<FlatDepEntry> = Vec::new();
    let mut gi: usize = 0;
    while gi < meta.dependency_groups.len()
        invariant
            gi <= meta.dependency_groups@.len(),
            groups == meta@.dependency_groups,
            f@ == lowercase(filter@),
            out@ == flat_entries_upto(groups, filter@, gi as int),
        decreases meta.dependency_groups@.len() - gi,
    {
        let group = &meta.dependency_groups[gi];
        let ghost deps = groups[gi as int].values;
        let mut block: Vec<FlatDepEntry> = Vec::new();
        let mut j: usize = 0;
        while j < group.values.len()
            invariant
                j <= group.values@.len(),
                deps == dependency_views(group.values@),
                f@ == lowercase(filter@),
                block@ == matching_deps(deps, filter@, gi as int, j as int),
            decreases group.values@.len() - j,
        {
            if dep_passes(&group.values[j], filter, f.as_str()) {
                block.push(FlatDepEntry::Dep(gi, j));
            }
            j += 1;
        }
        if block.len() > 0 {
            out.push(FlatDepEntry::GroupHeader(gi));
            let mut k: usize = 0;
            let ghost before = out@;
            while k < block.len()
                invariant
                    k <= block@.len(),
                    out@ == before + block@.take(k as int),
                decreases block@.len() - k,
            {
                out.push(block[k]);
                proof {
                    assert(block@.take(k + 1) =~= block@.take(k as int).push(block@[k as int]));
                }
                k += 1;
            }
            proof {
                assert(block@.take(k as int) =~= block@);
                assert(out@ =~= flat_entries_upto(groups, filter@, gi as int) + (seq![
                    FlatDepEntry::GroupHeader(gi),
                ] + block@));
            }
        }
        proof {
            assert(flat_entries_upto(groups, filter@, gi + 1) == flat_entries_upto(
                groups,
                filter@,
                gi as int,
            ) + group_block(groups, filter@, gi as int));
            if block.len() == 0 {
                assert(out@ =~= flat_entries_upto(groups, filter@, gi + 1));
            }
        }
        gi += 1;
    }
    out
}

/// Whether the entry at `idx` of the flat list is a dependency (not a
/// header, not past the end).
pub fn flat_dep_is_selectable(meta: &InitializrMetadata, filter: &str, idx: usize) -> (r: bool)
    ensures
        r == (0 <= idx < flat_entries(meta@.dependency_groups, filter@).len()
            && flat_entries(meta@.dependency_groups, filter@)[idx as int] is Dep),
{
    let flat = flatten_all_deps_for_render(meta, filter);
    if idx < flat.len() {
        match flat[idx] {
            FlatDepEntry::Dep(_, _) => true,
            FlatDepEntry::GroupHeader(_) => false,
        }
    } else {
        false
    }
}

pub proof fn lemma_flat_entries_valid(
    groups: Seq<crate::model::InitializrDependencyGroupView>,
    filter: Seq<char>,
    n: int,
)
    requires
        n <= groups.len(),
        groups.len() <= usize::MAX,
    ensures
        forall|k: int|
            0 <= k < flat_entries_upto(groups, filter, n).len() ==> match #[trigger] flat_entries_upto(
                groups,
                filter,
                n,
            )[k] {
                FlatDepEntry::Dep(g, j) => g < groups.len() && j < groups[g as int].values.len(),
                FlatDepEntry::GroupHeader(g) => g < groups.len(),
            },
    decreases n,
{
    if n > 0 {
        lemma_flat_entries_valid(groups, filter, n - 1);
        let gi = n - 1;
        lemma_matching_deps_valid(groups[gi].values, filter, gi, groups[gi].values.len() as int);
        let prev = flat_entries_upto(groups, filter, n - 1);
        let blk = group_block(groups, filter, gi);
        assert forall|k: int| 0 <= k < flat_entries_upto(groups, filter, n).len() implies match
            #[trigger] flat_entries_upto(groups, filter, n)[k] {
            FlatDepEntry::Dep(g, j) => g < groups.len() && j < groups[g as int].values.len(),
            FlatDepEntry::GroupHeader(g) => g < groups.len(),
        } by {
            if k < prev.len() {
                assert(flat_entries_upto(groups, filter, n)[k] == prev[k]);
            } else {
                assert(flat_entries_upto(groups, filter, n)[k] == blk[k - prev.len()]);
                let m = matching_deps(groups[gi].values, filter, gi, groups[gi].values.len() as int);
                if k - prev.len() > 0 {
                    assert(blk[k - prev.len()] == m[k - prev.len() - 1]);
                }
            }
        }
    }
}

proof fn lemma_matching_deps_valid(deps: Seq<InitializrDependencyView>, filter: Seq<char>, gi: int, n: int)
    requires
        0 <= gi,
        gi <= usize::MAX,
        n <= deps.len(),
    ensures
        forall|k: int|
            0 <= k < matching_deps(deps, filter, gi, n).len() ==> match #[trigger] matching_deps(
                deps,
                filter,
                gi,
                n,
            )[k] {
                FlatDepEntry::Dep(g, j) => g == gi && j < deps.len(),
                FlatDepEntry::GroupHeader(_) => false,
            },
    decreases n,
{
    if n > 0 {
        lemma_matching_deps_valid(deps, filter, gi, n - 1);
    }
}

/// The ids of the dependencies of a list of entries, in order (headers
/// contribute nothing).
pub open spec fn entry_ids(
    groups: Seq<crate::model::InitializrDependencyGroupView>,
    entries: Seq<FlatDepEntry>,
) -> Seq<Seq<char>>
    decreases entries.len(),
{
    if entries.len() == 0 {
        Seq::empty()
    } else {
        let rest = entry_ids(groups, entries.drop_last());
        match entries.last() {
            FlatDepEntry::Dep(g, j) => rest.push(groups[g as int].values[j as int].id),
            FlatDepEntry::GroupHeader(_) => rest,
        }
    }
}

/// The ids of the first `n` dependencies that pass the filter, in order.
pub open spec fn passing_ids(deps: Seq<InitializrDependencyView>, filter: Seq<char>, n: int) -> Seq<Seq<char>>
    decreases n,
{
    if n <= 0 {
        Seq::empty()
    } else {
        let rest = passing_ids(deps, filter, n - 1);
        if dep_matches(deps[n - 1], filter) {
            rest.push(deps[n - 1].id)
        } else {
            rest
        }
    }
}

/// The ids of the passing dependencies of the first `n` groups, group by
/// group.
pub open spec fn grouped_ids(
    groups: Seq<crate::model::InitializrDependencyGroupView>,
    filter: Seq<char>,
    n: int,
) -> Seq<Seq<char>>
    decreases n,
{
    if n <= 0 {
        Seq::empty()
    } else {
        grouped_ids(groups, filter, n - 1) + passing_ids(
            groups[n - 1].values,
            filter,
            groups[n - 1].values.len() as int,
        )
    }
}

/// The position of the first dependency from `from` on that passes the
/// filter, or the number of dependencies when none does.
pub open spec fn first_passing(deps: Seq<InitializrDependencyView>, filter: Seq<char>, from: int) -> int
    decreases deps.len() - from,
{
    if from < 0 || from >= deps.len() {
        deps.len() as int
    } else if dep_matches(deps[from], filter) {
        from
    } else {
        first_passing(deps, filter, from + 1)
    }
}

/// Where a header of the flat list stands: the header of group `h` sits
/// where that group's block starts, and the entry after it is the group's
/// first passing dependency.
pub open spec fn header_placed(
    groups: Seq<crate::model::InitializrDependencyGroupView>,
    filter: Seq<char>,
    k: int,
) -> bool {
    let e = flat_entries(groups, filter);
    match e[k] {
        FlatDepEntry::GroupHeader(h) => {
            &&& h < groups.len()
            &&& k == flat_entries_upto(groups, filter, h as int).len()
            &&& k + 1 < e.len()
            &&& first_passing(groups[h as int].values, filter, 0) < groups[h as int].values.len()
            &&& e[k + 1] == FlatDepEntry::Dep(h, first_passing(groups[h as int].values, filter, 0) as usize)
        },
        FlatDepEntry::Dep(_, _) => true,
    }
}

proof fn lemma_entry_ids_concat(
    groups: Seq<crate::model::InitializrDependencyGroupView>,
    a: Seq<FlatDepEntry>,
    b: Seq<FlatDepEntry>,
)
    ensures
        entry_ids(groups, a + b) == entry_ids(groups, a) + entry_ids(groups, b),
    decreases b.len(),
{
    if b.len() == 0 {
        assert(a + b =~= a);
        assert(entry_ids(groups, b) =~= Seq::<Seq<char>>::empty());
        assert(entry_ids(groups, a) + entry_ids(groups, b) =~= entry_ids(groups, a));
    } else {
        lemma_entry_ids_concat(groups, a, b.drop_last());
        assert((a + b).drop_last() =~= a + b.drop_last());
        assert((a + b).last() == b.last());
        let ra = entry_ids(groups, a);
        let rb = entry_ids(groups, b.drop_last());
        match b.last() {
            FlatDepEntry::Dep(g, j) => {
                assert((ra + rb).push(groups[g as int].values[j as int].id) =~= ra + rb.push(
                    groups[g as int].values[j as int].id,
                ));
            },
            FlatDepEntry::GroupHeader(_) => {},
        }
    }
}

proof fn lemma_matching_ids(
    groups: Seq<crate::model::InitializrDependencyGroupView>,
    filter: Seq<char>,
    gi: int,
    n: int,
)
    requires
        0 <= gi < groups.len(),
        groups.len() <= usize::MAX,
        groups[gi].values.len() <= usize::MAX,
        n <= groups[gi].values.len(),
    ensures
        entry_ids(groups, matching_deps(groups[gi].values, filter, gi, n)) == passing_ids(
            groups[gi].values,
            filter,
            n,
        ),
    decreases n,
{
    if n > 0 {
        lemma_matching_ids(groups, filter, gi, n - 1);
        let m = matching_deps(groups[gi].values, filter, gi, n);
        if dep_matches(groups[gi].values[n - 1], filter) {
            assert(m.drop_last() =~= matching_deps(groups[gi].values, filter, gi, n - 1));
        }
    }
}

proof fn lemma_first_passing_at(deps: Seq<InitializrDependencyView>, filter: Seq<char>, from: int, j: int)
    requires
        0 <= from <= j < deps.len(),
        dep_matches(deps[j], filter),
        forall|i: int| from <= i < j ==> !dep_matches(#[trigger] deps[i], filter),
    ensures
        first_passing(deps, filter, from) == j,
    decreases j - from,
{
    if from < j {
        lemma_first_passing_at(deps, filter, from + 1, j);
    }
}

proof fn lemma_matching_first(deps: Seq<InitializrDependencyView>, filter: Seq<char>, gi: int, n: int)
    requires
        0 <= gi <= usize::MAX,
        n <= deps.len() <= usize::MAX,
        matching_deps(deps, filter, gi, n).len() > 0,
    ensures
        first_passing(deps, filter, 0) < n,
        dep_matches(deps[first_passing(deps, filter, 0)], filter),
        matching_deps(deps, filter, gi, n)[0] == FlatDepEntry::Dep(
            gi as usize,
            first_passing(deps, filter, 0) as usize,
        ),
    decreases n,
{
    let prev = matching_deps(deps, filter, gi, n - 1);
    if prev.len() > 0 {
        lemma_matching_first(deps, filter, gi, n - 1);
    } else {
        assert forall|i: int| 0 <= i < n - 1 implies !dep_matches(#[trigger] deps[i], filter) by {
            lemma_matching_empty(deps, filter, gi, n - 1, i);
        }
        lemma_first_passing_at(deps, filter, 0, n - 1);
    }
}

proof fn lemma_matching_empty(deps: Seq<InitializrDependencyView>, filter: Seq<char>, gi: int, n: int, i: int)
    requires
        matching_deps(deps, filter, gi, n).len() == 0,
        0 <= i < n,
    ensures
        !dep_matches(deps[i], filter),
    decreases n,
{
    if i < n - 1 {
        lemma_matching_empty(deps, filter, gi, n - 1, i);
    }
}

proof fn lemma_matching_nonempty(deps: Seq<InitializrDependencyView>, filter: Seq<char>, gi: int, n: int, j: int)
    requires
        0 <= j < n,
        dep_matches(deps[j], filter),
    ensures
        matching_deps(deps, filter, gi, n).len() > 0,
    decreases n,
{
    if j < n - 1 {
        lemma_matching_nonempty(deps, filter, gi, n - 1, j);
    }
}

proof fn lemma_upto_monotonic(
    groups: Seq<crate::model::InitializrDependencyGroupView>,
    filter: Seq<char>,
    a: int,
    b: int,
)
    requires
        0 <= a <= b,
    ensures
        flat_entries_upto(groups, filter, a).len() <= flat_entries_upto(groups, filter, b).len(),
        forall|k: int|
            0 <= k < flat_entries_upto(groups, filter, a).len() ==> #[trigger] flat_entries_upto(
                groups,
                filter,
                b,
            )[k] == flat_entries_upto(groups, filter, a)[k],
    decreases b - a,
{
    if a < b {
        lemma_upto_monotonic(groups, filter, a, b - 1);
        let prev = flat_entries_upto(groups, filter, b - 1);
        assert forall|k: int| 0 <= k < flat_entries_upto(groups, filter, a).len() implies #[trigger] flat_entries_upto(
            groups,
            filter,
            b,
        )[k] == flat_entries_upto(groups, filter, a)[k] by {
            assert(flat_entries_upto(groups, filter, b)[k] == prev[k]);
        }
    }
}

proof fn lemma_headers_placed(groups: Seq<crate::model::InitializrDependencyGroupView>, filter: Seq<char>, n: int)
    requires
        0 <= n <= groups.len(),
        groups.len() <= usize::MAX,
        forall|g: int| 0 <= g < groups.len() ==> #[trigger] groups[g].values.len() <= usize::MAX,
    ensures
        forall|k: int|
            0 <= k < flat_entries_upto(groups, filter, n).len() ==> match #[trigger] flat_entries_upto(
                groups,
                filter,
                n,
            )[k] {
                FlatDepEntry::GroupHeader(h) => {
                    &&& h < n
                    &&& k == flat_entries_upto(groups, filter, h as int).len()
                    &&& k + 1 < flat_entries_upto(groups, filter, h + 1).len()
                    &&& first_passing(groups[h as int].values, filter, 0) < groups[h as int].values.len()
                    &&& flat_entries_upto(groups, filter, h + 1)[k + 1] == FlatDepEntry::Dep(
                        h,
                        first_passing(groups[h as int].values, filter, 0) as usize,
                    )
                },
                FlatDepEntry::Dep(_, _) => true,
            },
    decreases n,
{
    if n > 0 {
        lemma_headers_placed(groups, filter, n - 1);
        let gi = n - 1;
        let prev = flat_entries_upto(groups, filter, gi);
        let cur = flat_entries_upto(groups, filter, n);
        let deps = groups[gi].values;
        let m = matching_deps(deps, filter, gi, deps.len() as int);
        assert(deps.len() <= usize::MAX);
        lemma_matching_deps_valid(deps, filter, gi, deps.len() as int);
        assert forall|k: int| 0 <= k < cur.len() implies match #[trigger] cur[k] {
            FlatDepEntry::GroupHeader(h) => {
                &&& h < n
                &&& k == flat_entries_upto(groups, filter, h as int).len()
                &&& k + 1 < flat_entries_upto(groups, filter, h + 1).len()
                &&& first_passing(groups[h as int].values, filter, 0) < groups[h as int].values.len()
                &&& flat_entries_upto(groups, filter, h + 1)[k + 1] == FlatDepEntry::Dep(
                    h,
                    first_passing(groups[h as int].values, filter, 0) as usize,
                )
            },
            FlatDepEntry::Dep(_, _) => true,
        } by {
            if k < prev.len() {
                assert(cur[k] == prev[k]);
            } else {
                let blk = group_block(groups, filter, gi);
                assert(cur[k] == blk[k - prev.len()]);
                if m.len() > 0 {
                    if k - prev.len() > 0 {
                        assert(blk[k - prev.len()] == m[k - prev.len() - 1]);
                    } else {
                        lemma_matching_first(deps, filter, gi, deps.len() as int);
                        assert(cur[k + 1] == blk[1]);
                    }
                }
            }
        }
    }
}

proof fn lemma_grouped_ids(groups: Seq<crate::model::InitializrDependencyGroupView>, filter: Seq<char>, n: int)
    requires
        0 <= n <= groups.len(),
        groups.len() <= usize::MAX,
        forall|g: int| 0 <= g < groups.len() ==> #[trigger] groups[g].values.len() <= usize::MAX,
    ensures
        entry_ids(groups, flat_entries_upto(groups, filter, n)) == grouped_ids(groups, filter, n),
    decreases n,
{
    if n > 0 {
        let gi = n - 1;
        lemma_grouped_ids(groups, filter, gi);
        let deps = groups[gi].values;
        assert(deps.len() <= usize::MAX);
        let m = matching_deps(deps, filter, gi, deps.len() as int);
        let blk = group_block(groups, filter, gi);
        lemma_entry_ids_concat(groups, flat_entries_upto(groups, filter, gi), blk);
        lemma_matching_ids(groups, filter, gi, deps.len() as int);
        if m.len() > 0 {
            let hd = seq![FlatDepEntry::GroupHeader(gi as usize)];
            lemma_entry_ids_concat(groups, hd, m);
            assert(hd.drop_last() =~= Seq::<FlatDepEntry>::empty());
            assert(entry_ids(groups, hd.drop_last()) =~= Seq::<Seq<char>>::empty());
            assert(entry_ids(groups, hd) =~= Seq::<Seq<char>>::empty());
            assert(entry_ids(groups, hd) + entry_ids(groups, m) =~= entry_ids(groups, m));
        } else {
            assert(entry_ids(groups, blk) =~= Seq::<Seq<char>>::empty());
            assert(passing_ids(deps, filter, deps.len() as int).len() == 0) by {
                lemma_passing_len(deps, filter, gi, deps.len() as int);
            }
            assert(passing_ids(deps, filter, deps.len() as int) =~= Seq::<Seq<char>>::empty());
        }
        assert(grouped_ids(groups, filter, n) == grouped_ids(groups, filter, gi) + passing_ids(
            deps,
            filter,
            deps.len() as int,
        ));
        assert(entry_ids(groups, flat_entries_upto(groups, filter, gi)) + entry_ids(groups, blk)
            =~= grouped_ids(groups, filter, n));
    }
}

proof fn lemma_passing_len(deps: Seq<InitializrDependencyView>, filter: Seq<char>, gi: int, n: int)
    ensures
        passing_ids(deps, filter, n).len() == matching_deps(deps, filter, gi, n).len(),
    decreases n,
{
    if n > 0 {
        lemma_passing_len(deps, filter, gi, n - 1);
    }
}

/// The shape of the wizard's dependency list (what `flat_dep_id_at` reads
/// position by position, up to `flat_dep_count`): its dependencies' ids are
/// the ids of the dependencies that pass the filter, group after group and
/// in each group's order; each header stands just before its group's first
/// passing dependency, at the start of that group's block, so a group has
/// one header at most; and every group with a passing dependency has one.
pub proof fn law_flat_list_shape(groups: Seq<crate::model::InitializrDependencyGroupView>, filter: Seq<char>)
    requires
        groups.len() <= usize::MAX,
        forall|g: int| 0 <= g < groups.len() ==> #[trigger] groups[g].values.len() <= usize::MAX,
    ensures
        entry_ids(groups, flat_entries(groups, filter)) == grouped_ids(groups, filter, groups.len() as int),
        forall|k: int|
            0 <= k < flat_entries(groups, filter).len() ==> #[trigger] header_placed(groups, filter, k),
        forall|g: int, j: int|
            0 <= g < groups.len() && 0 <= j < groups[g].values.len() && dep_matches(
                #[trigger] groups[g].values[j],
                filter,
            ) ==> flat_entries_upto(groups, filter, g).len() < flat_entries(groups, filter).len()
                && flat_entries(groups, filter)[flat_entries_upto(groups, filter, g).len() as int]
                == FlatDepEntry::GroupHeader(g as usize),
{
    let n = groups.len() as int;
    let e = flat_entries(groups, filter);
    lemma_grouped_ids(groups, filter, n);
    lemma_headers_placed(groups, filter, n);
    assert forall|k: int| 0 <= k < e.len() implies #[trigger] header_placed(groups, filter, k) by {
        match e[k] {
            FlatDepEntry::GroupHeader(h) => {
                lemma_upto_monotonic(groups, filter, h + 1, n);
                assert(e[k + 1] == flat_entries_upto(groups, filter, h + 1)[k + 1]);
            },
            FlatDepEntry::Dep(_, _) => {},
        }
    }
    assert forall|g: int, j: int|
        0 <= g < groups.len() && 0 <= j < groups[g].values.len() && dep_matches(
            #[trigger] groups[g].values[j],
            filter,
        ) implies flat_entries_upto(groups, filter, g).len() < e.len() && e[flat_entries_upto(
        groups,
        filter,
        g,
    ).len() as int] == FlatDepEntry::GroupHeader(g as usize) by {
        let deps = groups[g].values;
        lemma_matching_nonempty(deps, filter, g, deps.len() as int, j);
        let prev = flat_entries_upto(groups, filter, g);
        let next = flat_entries_upto(groups, filter, g + 1);
        assert(next[prev.len() as int] == group_block(groups, filter, g)[0]);
        lemma_upto_monotonic(groups, filter, g + 1, n);
        assert(e[prev.len() as int] == next[prev.len() as int]);
    }
}

/// The id of the dependency at `idx` of the flat list, if that entry is a
/// dependency.
pub fn flat_dep_id_at(meta: &InitializrMetadata, filter: &str, idx: usize) -> (r: Option<String>)
    ensures
        match r {
            Some(id) => 0 <= idx < flat_entries(meta@.dependency_groups, filter@).len() && (match flat_entries(
                meta@.dependency_groups,
                filter@,
            )[idx as int] {
                FlatDepEntry::Dep(g, j) => id@ == meta@.dependency_groups[g as int].values[j as int].id,
                FlatDepEntry::GroupHeader(_) => false,
            }),
            None => !(0 <= idx < flat_entries(meta@.dependency_groups, filter@).len() && flat_entries(
                meta@.dependency_groups,
                filter@,
            )[idx as int] is Dep),
        },
{
    let flat = flatten_all_deps_for_render(meta, filter);
    let ng = meta.dependency_groups.len();
    proof {
        assert(meta@.dependency_groups.len() == ng);
        lemma_flat_entries_valid(
            meta@.dependency_groups,
            filter@,
            meta@.dependency_groups.len() as int,
        );
    }
    if idx < flat.len() {
        match flat[idx] {
            FlatDepEntry::Dep(g, j) => {
                proof {
                    assert(flat@[idx as int] == FlatDepEntry::Dep(g, j));
                }
                let id = meta.dependency_groups[g].values[j].id.clone();
                proof {
                    assert(meta@.dependency_groups[g as int] == meta.dependency_groups@[g as int]@);
                    assert(meta@.dependency_groups[g as int].values[j as int]
                        == meta.dependency_groups@[g as int].values@[j as int]@);
                }
                Some(id)
            },
            FlatDepEntry::GroupHeader(_) => None,
        }
    } else {
        None
    }
}

/// The number of entries of the flat list.
pub fn flat_dep_count(meta: &InitializrMetadata, filter: &str) -> (r: usize)
    ensures
        r == flat_entries(meta@.dependency_groups, filter@).len(),
{
    flatten_all_deps_for_render(meta, filter).len()
}

} // verus!
