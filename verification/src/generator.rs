//! Planning a new Spring Boot project: naming, the Spring Boot version to
//! build against, the dependencies resolved from the catalog, and the
//! directories and files to write.

use vstd::prelude::*;

use crate::actuator::{concat_map, lemma_concat_map_step, lemma_take_all};
use crate::model::NewProjectParams;
use crate::text::{
    char_to_uppercase, chars_of, contains_seq, ends_with_seq, last_index_of, lowercase, owned,
    push_char, push_str, rfind_char, starts_with_seq, str_contains, str_ends_with, str_eq,
    str_strip_suffix, string_from_range, to_lowercase, uppercase_char,
};

verus! {

// ---------------------------------------------------------------------------
// Class names
// ---------------------------------------------------------------------------

/// A separator between the words of a project name.
pub open spec fn is_name_separator(c: char) -> bool {
    c == '-' || c == '_' || c == ' '
}

/// The parts of `s` between separators, empty parts included (as
/// `str::split` yields them).
pub open spec fn split_parts(s: Seq<char>) -> Seq<Seq<char>>
    decreases s.len(),
{
    if s.len() == 0 {
        seq![Seq::<char>::empty()]
    } else {
        let p = split_parts(s.drop_last());
        if is_name_separator(s.last()) {
            p.push(Seq::empty())
        } else {
            p.update(p.len() - 1, p.last().push(s.last()))
        }
    }
}

proof fn lemma_split_parts_nonempty(s: Seq<char>)
    ensures
        split_parts(s).len() >= 1,
    decreases s.len(),
{
    if s.len() > 0 {
        lemma_split_parts_nonempty(s.drop_last());
    }
}

/// A word with its first character in upper case and the rest in lower
/// case; an empty part contributes nothing.
pub open spec fn capitalize(p: Seq<char>) -> Seq<char> {
    if p.len() == 0 {
        Seq::empty()
    } else {
        uppercase_char(p[0]) + lowercase(p.drop_first())
    }
}

/// `s` in PascalCase: the non-empty parts between `-`, `_` and spaces,
/// each capitalized, joined.
pub open spec fn pascal_case_spec(s: Seq<char>) -> Seq<char> {
    concat_map(split_parts(s), |p: Seq<char>| capitalize(p))
}

fn push_capitalized(out: &mut String, part: &Vec<char>)
    ensures
        final(out)@ == old(out)@ + capitalize(part@),
        part@.len() > 0 ==> final(out)@.len() > old(out)@.len(),
{
    if part.len() == 0 {
        proof {
            assert(out@ =~= old(out)@ + capitalize(part@));
        }
        return ;
    }
    let first = char_to_uppercase(part[0]);
    let rest = string_from_range(part, 1, part.len());
    let lower = to_lowercase(rest.as_str());
    push_str(out, first.as_str());
    push_str(out, lower.as_str());
    proof {
        assert(part@.subrange(1, part@.len() as int) =~= part@.drop_first());
        assert(out@ =~= old(out)@ + capitalize(part@));
    }
}

/// `s` in PascalCase (`my-demo_app name` becomes `MyDemoAppName`); it is
/// empty exactly when every character of `s` is a separator.
pub fn to_pascal_case(s: &str) -> (r: String)
    ensures
        r@ == pascal_case_spec(s@),
        r@.len() == 0 <==> forall|j: int| 0 <= j < s@.len() ==> is_name_separator(#[trigger] s@[j]),
{
    let v = chars_of(s);
    let ghost g = |p: Seq<char>| capitalize(p);
    let mut out = String::new();
    let mut cur: Vec<char> = Vec::new();
    let mut i: usize = 0;
    proof {
        assert(v@.take(0) =~= Seq::<char>::empty());
        assert(split_parts(v@.take(0)).drop_last() =~= Seq::<Seq<char>>::empty());
        assert(out@ =~= concat_map(split_parts(v@.take(0)).drop_last(), g));
    }
    while i < v.len()
        invariant
            i <= v.len(),
            g == (|p: Seq<char>| capitalize(p)),
            split_parts(v@.take(i as int)).len() >= 1,
            out@ == concat_map(split_parts(v@.take(i as int)).drop_last(), g),
            cur@ == split_parts(v@.take(i as int)).last(),
            v@ == s@,
            (out@.len() == 0 && cur@.len() == 0) <==> forall|j: int|
                0 <= j < i ==> is_name_separator(#[trigger] v@[j]),
        decreases v.len() - i,
    {
        let ghost p = split_parts(v@.take(i as int));
        proof {
            assert(v@.take(i + 1).drop_last() =~= v@.take(i as int));
            assert(v@.take(i + 1).last() == v@[i as int]);
            lemma_split_parts_nonempty(v@.take(i as int));
        }
        let c = v[i];
        if c == '-' || c == '_' || c == ' ' {
            push_capitalized(&mut out, &cur);
            cur = Vec::new();
            proof {
                let q = split_parts(v@.take(i + 1));
                assert(q == p.push(Seq::<char>::empty()));
                assert(q.drop_last() =~= p);
                assert(p =~= p.drop_last().push(p.last()));
                assert(concat_map(p, g) == concat_map(p.drop_last(), g) + g(p.last()));
                assert(cur@ =~= q.last());
            }
        } else {
            cur.push(c);
            proof {
                let q = split_parts(v@.take(i + 1));
                assert(q == p.update(p.len() - 1, p.last().push(c)));
                assert(q.drop_last() =~= p.drop_last());
            }
        }
        i += 1;
    }
    push_capitalized(&mut out, &cur);
    proof {
        assert(v@.take(i as int) =~= s@);
        let p = split_parts(s@);
        assert(p =~= p.drop_last().push(p.last()));
        assert(concat_map(p, g) == concat_map(p.drop_last(), g) + g(p.last()));
    }
    out
}

/// The class name of a project: its name in PascalCase (the artifact id
/// when the name is empty), or `Application` when that is empty.
pub open spec fn application_name_spec(name: Seq<char>, artifact_id: Seq<char>) -> Seq<char> {
    let raw = if name.len() == 0 {
        artifact_id
    } else {
        name
    };
    let p = pascal_case_spec(raw);
    if p.len() == 0 {
        "Application"@
    } else {
        p
    }
}

/// The class name of a project.
pub fn application_name(name: &str, artifact_id: &str) -> (r: String)
    ensures
        r@ == application_name_spec(name@, artifact_id@),
{
    let raw = if name.is_empty() {
        artifact_id
    } else {
        name
    };
    let p = to_pascal_case(raw);
    if p.as_str().is_empty() {
        owned("Application")
    } else {
        p
    }
}

// ---------------------------------------------------------------------------
// Spring Boot versions
// ---------------------------------------------------------------------------

/// The version a build file names for an Initializr boot version: a
/// `.RELEASE` suffix is dropped, a version ending in `-SNAPSHOT` stays as
/// it is (`.BUILD-SNAPSHOT` ones included), and a milestone or release
/// candidate after the last dot (`.M1`, `.RC1`) is joined with a hyphen.
pub open spec fn normalize_boot_version_spec(raw: Seq<char>) -> Seq<char> {
    if ends_with_seq(raw, ".RELEASE"@) {
        raw.subrange(0, raw.len() - ".RELEASE"@.len())
    } else if ends_with_seq(raw, "-SNAPSHOT"@) {
        raw
    } else {
        match last_index_of(raw, '.') {
            Some(d) => {
                let suffix = raw.subrange(d + 1, raw.len() as int);
                if starts_with_seq(suffix, "M"@) || starts_with_seq(suffix, "RC"@) {
                    raw.subrange(0, d) + "-"@ + suffix
                } else {
                    raw
                }
            },
            None => raw,
        }
    }
}

/// The version a build file names for an Initializr boot version.
pub fn normalize_boot_version(raw: &str) -> (r: String)
    ensures
        r@ == normalize_boot_version_spec(raw@),
{
    if let Some(base) = str_strip_suffix(raw, ".RELEASE") {
        return base;
    }
    if str_ends_with(raw, "-SNAPSHOT") {
        return owned(raw);
    }
    let v = chars_of(raw);
    if let Some(dot) = rfind_char(&v, '.') {
        proof {
            crate::text::lemma_last_index_of(v@, '.');
        }
        let suffix = string_from_range(&v, dot + 1, v.len());
        if crate::text::str_starts_with(suffix.as_str(), "M") || crate::text::str_starts_with(
            suffix.as_str(),
            "RC",
        ) {
            let mut r = string_from_range(&v, 0, dot);
            push_str(&mut r, "-");
            push_str(&mut r, suffix.as_str());
            return r;
        }
    }
    owned(raw)
}

// ---------------------------------------------------------------------------
// The dependency catalog
// ---------------------------------------------------------------------------

/// A dependency of the catalog: its coordinates, and optionally its scope,
/// version, BOM and repository keys.
#[derive(Debug)]
pub struct RawDep {
    pub group_id: String,
    pub artifact_id: String,
    pub scope: Option<String>,
    pub version: Option<String>,
    pub bom: Option<String>,
    pub repository: Option<String>,
}

/// A bill of materials of the catalog.
#[derive(Debug)]
pub struct RawBom {
    pub group_id: String,
    pub artifact_id: String,
    pub version: String,
}

/// A repository of the catalog.
#[derive(Debug)]
pub struct RawRepo {
    pub name: String,
    pub url: String,
    pub snapshot_enabled: bool,
}

/// The catalog of dependencies, BOMs and repositories, each keyed by id;
/// within each of the three, no key occurs twice.
#[derive(Debug)]
pub struct DepCatalog {
    dependencies: Vec<(String, RawDep)>,
    boms: Vec<(String, RawBom)>,
    repositories: Vec<(String, RawRepo)>,
}

/// No key occurs twice among the entries.
pub open spec fn keys_unique<T>(entries: Seq<(String, T)>) -> bool {
    forall|i: int, j: int|
        0 <= i < entries.len() && 0 <= j < entries.len() && i != j ==> #[trigger] entries[i].0@
            != #[trigger] entries[j].0@
}

/// The entries after keying `v` by `key`: the entry with the key gets the
/// new value, or the pair is added at the end when no entry has the key.
pub open spec fn insert_entry<T>(entries: Seq<(String, T)>, key: String, v: T) -> Seq<(String, T)> {
    match key_position(entries, key@, 0) {
        Some(i) => entries.update(i, (key, v)),
        None => entries.push((key, v)),
    }
}

impl DepCatalog {
    #[verifier::type_invariant]
    spec fn keys_are_unique(self) -> bool {
        &&& keys_unique(self.dependencies@)
        &&& keys_unique(self.boms@)
        &&& keys_unique(self.repositories@)
    }

    /// The dependencies, each with its key.
    pub closed spec fn dependency_entries(self) -> Seq<(String, RawDep)> {
        self.dependencies@
    }

    /// The BOMs, each with its key.
    pub closed spec fn bom_entries(self) -> Seq<(String, RawBom)> {
        self.boms@
    }

    /// The repositories, each with its key.
    pub closed spec fn repository_entries(self) -> Seq<(String, RawRepo)> {
        self.repositories@
    }

    /// An empty catalog.
    pub fn new() -> (r: Self)
        ensures
            r.dependency_entries() == Seq::<(String, RawDep)>::empty(),
            r.bom_entries() == Seq::<(String, RawBom)>::empty(),
            r.repository_entries() == Seq::<(String, RawRepo)>::empty(),
    {
        DepCatalog { dependencies: Vec::new(), boms: Vec::new(), repositories: Vec::new() }
    }

    /// Keys a dependency by `key`, replacing the one the key had.
    pub fn insert_dependency(&mut self, key: String, dep: RawDep)
        ensures
            final(self).dependency_entries() == insert_entry(old(self).dependency_entries(), key, dep),
            keys_unique(final(self).dependency_entries()),
            final(self).bom_entries() == old(self).bom_entries(),
            final(self).repository_entries() == old(self).repository_entries(),
    {
        proof {
            use_type_invariant(&*self);
        }
        let mut entries: Vec<(String, RawDep)> = Vec::new();
        std::mem::swap(&mut entries, &mut self.dependencies);
        let ghost before = entries@;
        proof {
            lemma_insert_keeps_unique(before, key, dep);
            lemma_key_position_first(before, key@, 0);
        }
        match position_of_key(&entries, key.as_str()) {
            Some(i) => {
                entries.set(i, (key, dep));
            },
            None => {
                entries.push((key, dep));
            },
        }
        self.dependencies = entries;
    }

    /// Keys a BOM by `key`, replacing the one the key had.
    pub fn insert_bom(&mut self, key: String, bom: RawBom)
        ensures
            final(self).bom_entries() == insert_entry(old(self).bom_entries(), key, bom),
            keys_unique(final(self).bom_entries()),
            final(self).dependency_entries() == old(self).dependency_entries(),
            final(self).repository_entries() == old(self).repository_entries(),
    {
        proof {
            use_type_invariant(&*self);
        }
        let mut entries: Vec<(String, RawBom)> = Vec::new();
        std::mem::swap(&mut entries, &mut self.boms);
        let ghost before = entries@;
        proof {
            lemma_insert_keeps_unique(before, key, bom);
            lemma_key_position_first(before, key@, 0);
        }
        match position_of_key(&entries, key.as_str()) {
            Some(i) => {
                entries.set(i, (key, bom));
            },
            None => {
                entries.push((key, bom));
            },
        }
        self.boms = entries;
    }

    /// Keys a repository by `key`, replacing the one the key had.
    pub fn insert_repository(&mut self, key: String, repo: RawRepo)
        ensures
            final(self).repository_entries() == insert_entry(old(self).repository_entries(), key, repo),
            keys_unique(final(self).repository_entries()),
            final(self).dependency_entries() == old(self).dependency_entries(),
            final(self).bom_entries() == old(self).bom_entries(),
    {
        proof {
            use_type_invariant(&*self);
        }
        let mut entries: Vec<(String, RawRepo)> = Vec::new();
        std::mem::swap(&mut entries, &mut self.repositories);
        let ghost before = entries@;
        proof {
            lemma_insert_keeps_unique(before, key, repo);
            lemma_key_position_first(before, key@, 0);
        }
        match position_of_key(&entries, key.as_str()) {
            Some(i) => {
                entries.set(i, (key, repo));
            },
            None => {
                entries.push((key, repo));
            },
        }
        self.repositories = entries;
    }
}

/// The position of the first entry with the key, searching from `i`.
pub open spec fn key_position<T>(entries: Seq<(String, T)>, key: Seq<char>, i: int) -> Option<int>
    decreases entries.len() - i,
{
    if i < 0 || i >= entries.len() {
        None
    } else if entries[i].0@ == key {
        Some(i)
    } else {
        key_position(entries, key, i + 1)
    }
}

/// The entry with the key.
pub open spec fn find_key<T>(entries: Seq<(String, T)>, key: Seq<char>) -> Option<T> {
    match key_position(entries, key, 0) {
        Some(i) => Some(entries[i].1),
        None => None,
    }
}

proof fn lemma_key_position<T>(entries: Seq<(String, T)>, key: Seq<char>, i: int)
    ensures
        key_position(entries, key, i) matches Some(k) ==> i <= k < entries.len() && entries[k].0@
            == key,
    decreases entries.len() - i,
{
    if 0 <= i < entries.len() && entries[i].0@ != key {
        lemma_key_position(entries, key, i + 1);
    }
}

proof fn lemma_key_position_first<T>(entries: Seq<(String, T)>, key: Seq<char>, from: int)
    requires
        0 <= from,
    ensures
        match key_position(entries, key, from) {
            Some(p) => from <= p < entries.len() && entries[p].0@ == key && forall|j: int|
                from <= j < p ==> (#[trigger] entries[j]).0@ != key,
            None => forall|j: int| from <= j < entries.len() ==> (#[trigger] entries[j]).0@ != key,
        },
    decreases entries.len() - from,
{
    if from < entries.len() && entries[from].0@ != key {
        lemma_key_position_first(entries, key, from + 1);
    }
}

proof fn lemma_key_at<T>(entries: Seq<(String, T)>, key: Seq<char>, from: int, i: int)
    requires
        0 <= from <= i < entries.len(),
        entries[i].0@ == key,
        forall|j: int| from <= j < i ==> (#[trigger] entries[j]).0@ != key,
    ensures
        key_position(entries, key, from) == Some(i),
    decreases i - from,
{
    if from < i {
        lemma_key_at(entries, key, from + 1, i);
    }
}

proof fn lemma_same_keys<T>(a: Seq<(String, T)>, b: Seq<(String, T)>, key: Seq<char>, from: int)
    requires
        0 <= from,
        a.len() == b.len(),
        forall|j: int| 0 <= j < a.len() ==> (#[trigger] a[j]).0@ == b[j].0@,
    ensures
        key_position(a, key, from) == key_position(b, key, from),
    decreases a.len() - from,
{
    if from < a.len() {
        lemma_same_keys(a, b, key, from + 1);
    }
}

proof fn lemma_pushed_key<T>(a: Seq<(String, T)>, x: (String, T), key: Seq<char>, from: int)
    requires
        0 <= from,
        x.0@ != key,
    ensures
        key_position(a.push(x), key, from) == key_position(a, key, from),
    decreases a.len() + 1 - from,
{
    if from <= a.len() {
        lemma_pushed_key(a, x, key, from + 1);
    }
}

proof fn lemma_insert_keeps_unique<T>(entries: Seq<(String, T)>, key: String, v: T)
    requires
        keys_unique(entries),
    ensures
        keys_unique(insert_entry(entries, key, v)),
        insert_entry(entries, key, v).len() >= entries.len(),
{
    lemma_key_position_first(entries, key@, 0);
    let r = insert_entry(entries, key, v);
    match key_position(entries, key@, 0) {
        Some(p) => {
            assert forall|j: int| 0 <= j < r.len() implies (#[trigger] r[j]).0@ == entries[j].0@ by {}
        },
        None => {
            assert forall|i: int, j: int|
                0 <= i < r.len() && 0 <= j < r.len() && i != j implies #[trigger] r[i].0@ != #[trigger] r[j].0@ by {
                if i < entries.len() && j < entries.len() {
                    assert(r[i] == entries[i] && r[j] == entries[j]);
                } else if i < entries.len() {
                    assert(r[i] == entries[i]);
                } else {
                    assert(r[j] == entries[j]);
                }
            }
        },
    }
}

/// A keyed write reads back: after keying `v` by `key` in entries where no
/// key occurs twice, the key finds `v` and every other key finds what it
/// found before.
pub proof fn law_insert_then_find<T>(entries: Seq<(String, T)>, key: String, v: T, other: Seq<char>)
    requires
        keys_unique(entries),
    ensures
        find_key(insert_entry(entries, key, v), key@) == Some(v),
        other != key@ ==> find_key(insert_entry(entries, key, v), other) == find_key(entries, other),
{
    lemma_key_position_first(entries, key@, 0);
    let r = insert_entry(entries, key, v);
    match key_position(entries, key@, 0) {
        Some(p) => {
            lemma_key_at(r, key@, 0, p);
            if other != key@ {
                assert forall|j: int| 0 <= j < r.len() implies (#[trigger] r[j]).0@ == entries[j].0@ by {}
                lemma_same_keys(r, entries, other, 0);
                lemma_key_position_first(entries, other, 0);
            }
        },
        None => {
            assert forall|j: int| 0 <= j < entries.len() implies (#[trigger] r[j]).0@ != key@ by {
                assert(r[j] == entries[j]);
            }
            lemma_key_at(r, key@, 0, entries.len() as int);
            if other != key@ {
                lemma_pushed_key(entries, (key, v), other, 0);
                lemma_key_position_first(entries, other, 0);
                match key_position(entries, other, 0) {
                    Some(q) => { assert(r[q] == entries[q]); },
                    None => {},
                }
            }
        },
    }
}

/// The position of the entry with the key.
pub fn position_of_key<T>(entries: &Vec<(String, T)>, key: &str) -> (r: Option<usize>)
    ensures
        r matches Some(i) ==> key_position(entries@, key@, 0) == Some(i as int),
        r is None ==> key_position(entries@, key@, 0) is None,
{
    let mut i: usize = 0;
    while i < entries.len()
        invariant
            i <= entries.len(),
            key_position(entries@, key@, 0) == key_position(entries@, key@, i as int),
        decreases entries.len() - i,
    {
        if str_eq(entries[i].0.as_str(), key) {
            return Some(i);
        }
        i += 1;
    }
    None
}

/// A dependency as a build file lists it; an empty version leaves it to
/// the parent or a BOM.
#[derive(Debug)]
pub struct DepCtx {
    pub group_id: String,
    pub artifact_id: String,
    pub version: String,
}

pub struct DepCtxView {
    pub group_id: Seq<char>,
    pub artifact_id: Seq<char>,
    pub version: Seq<char>,
}

impl View for DepCtx {
    type V = DepCtxView;

    open spec fn view(&self) -> DepCtxView {
        DepCtxView { group_id: self.group_id@, artifact_id: self.artifact_id@, version: self.version@ }
    }
}

/// A BOM as a build file imports it.
#[derive(Debug)]
pub struct BomCtx {
    pub group_id: String,
    pub artifact_id: String,
    pub version: String,
}

/// A repository as a build file declares it.
#[derive(Debug)]
pub struct RepoCtx {
    pub id: String,
    pub name: String,
    pub url: String,
    pub snapshot_enabled: String,
}

/// The dependencies of a project, sorted into the build file's sections.
#[derive(Debug)]
pub struct ResolvedDeps {
    pub compile_deps: Vec<DepCtx>,
    pub runtime_deps: Vec<DepCtx>,
    pub test_deps: Vec<DepCtx>,
    pub annotation_processor_deps: Vec<DepCtx>,
    pub boms: Vec<BomCtx>,
    pub repositories: Vec<RepoCtx>,
    pub has_jpa: bool,
}

/// The section of a build file that a scope puts a dependency in.
#[derive(Debug, Clone, Copy, PartialEq, Eq, Structural)]
pub enum DepSection {
    Compile,
    Runtime,
    Test,
    AnnotationProcessor,
}

/// The section for a scope: `runtime`, `test` and `annotationProcessor`
/// have their own; anything else, or no scope, is a compile dependency.
pub open spec fn section_of(scope: Option<Seq<char>>) -> DepSection {
    match scope {
        Some(s) => if s == "runtime"@ {
            DepSection::Runtime
        } else if s == "test"@ {
            DepSection::Test
        } else if s == "annotationProcessor"@ {
            DepSection::AnnotationProcessor
        } else {
            DepSection::Compile
        },
        None => DepSection::Compile,
    }
}

/// The version a build file gives a catalog dependency: none when a BOM
/// manages it, else its own version or none.
pub open spec fn dep_version(raw: RawDep) -> Seq<char> {
    if raw.bom is Some {
        Seq::empty()
    } else {
        match raw.version {
            Some(v) => v@,
            None => Seq::empty(),
        }
    }
}

/// The build-file entry of a catalog dependency.
pub open spec fn dep_ctx_of(raw: RawDep) -> DepCtxView {
    DepCtxView { group_id: raw.group_id@, artifact_id: raw.artifact_id@, version: dep_version(raw) }
}

/// The catalog entries of the selected ids that the catalog knows, in the
/// order selected.
pub open spec fn known_deps(selected: Seq<String>, catalog: DepCatalog) -> Seq<(Seq<char>, RawDep)>
    decreases selected.len(),
{
    if selected.len() == 0 {
        Seq::empty()
    } else {
        let rest = known_deps(selected.drop_last(), catalog);
        match find_key(catalog.dependency_entries(), selected.last()@) {
            Some(raw) => rest.push((selected.last()@, raw)),
            None => rest,
        }
    }
}

/// The build-file entries of the known dependencies in one section.
pub open spec fn section_deps(known: Seq<(Seq<char>, RawDep)>, section: DepSection) -> Seq<
    DepCtxView,
>
    decreases known.len(),
{
    if known.len() == 0 {
        Seq::empty()
    } else {
        let rest = section_deps(known.drop_last(), section);
        if section_of(opt_string_view(known.last().1.scope)) == section {
            rest.push(dep_ctx_of(known.last().1))
        } else {
            rest
        }
    }
}

/// The view of an optional string.
pub open spec fn opt_string_view(o: Option<String>) -> Option<Seq<char>> {
    match o {
        Some(s) => Some(s@),
        None => None,
    }
}

/// Whether one of the known dependencies is a JPA one (its id holds `jpa`).
pub open spec fn any_jpa(known: Seq<(Seq<char>, RawDep)>) -> bool {
    exists|i: int| 0 <= i < known.len() && contains_seq(known[i].0, "jpa"@)
}

/// The keys of the BOMs the known dependencies need and the catalog has,
/// each once, in the order first needed.
pub open spec fn needed_bom_keys(known: Seq<(Seq<char>, RawDep)>, catalog: DepCatalog) -> Seq<
    Seq<char>,
>
    decreases known.len(),
{
    if known.len() == 0 {
        Seq::empty()
    } else {
        with_needed_key(needed_bom_keys(known.drop_last(), catalog), known.last().1.bom, catalog.bom_entries())
    }
}

/// The keys of the repositories the known dependencies need and the catalog
/// has, each once, in the order first needed.
pub open spec fn needed_repo_keys(known: Seq<(Seq<char>, RawDep)>, catalog: DepCatalog) -> Seq<
    Seq<char>,
>
    decreases known.len(),
{
    if known.len() == 0 {
        Seq::empty()
    } else {
        with_needed_key(
            needed_repo_keys(known.drop_last(), catalog),
            known.last().1.repository,
            catalog.repository_entries(),
        )
    }
}

/// The test dependency every project gets.
pub open spec fn starter_test_ctx() -> DepCtxView {
    DepCtxView {
        group_id: "org.springframework.boot"@,
        artifact_id: "spring-boot-starter-test"@,
        version: Seq::empty(),
    }
}

/// The views of a sequence of build-file dependency entries.
pub open spec fn dep_ctx_views(s: Seq<DepCtx>) -> Seq<DepCtxView> {
    s.map_values(|d: DepCtx| d@)
}

/// What resolving the selected dependency ids against the catalog yields:
/// each known dependency in its scope's section (ids the catalog lacks are
/// skipped), the starter test dependency after the selected test ones, the
/// BOMs and repositories they need once each, and whether any is a JPA
/// one.
pub open spec fn resolved_spec(r: ResolvedDeps, selected: Seq<String>, catalog: DepCatalog) -> bool {
    let known = known_deps(selected, catalog);
    let boms = needed_bom_keys(known, catalog);
    let repos = needed_repo_keys(known, catalog);
    &&& dep_ctx_views(r.compile_deps@) == section_deps(known, DepSection::Compile)
    &&& dep_ctx_views(r.runtime_deps@) == section_deps(known, DepSection::Runtime)
    &&& dep_ctx_views(r.test_deps@) == section_deps(known, DepSection::Test).push(
        starter_test_ctx(),
    )
    &&& dep_ctx_views(r.annotation_processor_deps@) == section_deps(
        known,
        DepSection::AnnotationProcessor,
    )
    &&& r.has_jpa == any_jpa(known)
    &&& exists|keys: Seq<String>|
        key_views(keys) == boms && #[trigger] boms_match(keys, r.boms@, catalog)
    &&& exists|keys: Seq<String>|
        key_views(keys) == repos && #[trigger] repos_match(
            keys,
            r.repositories@,
            catalog,
        )
}

fn section_exec(scope: &Option<String>) -> (r: DepSection)
    ensures
        r == section_of(opt_string_view(*scope)),
{
    match scope {
        Some(s) => if str_eq(s.as_str(), "runtime") {
            DepSection::Runtime
        } else if str_eq(s.as_str(), "test") {
            DepSection::Test
        } else if str_eq(s.as_str(), "annotationProcessor") {
            DepSection::AnnotationProcessor
        } else {
            DepSection::Compile
        },
        None => DepSection::Compile,
    }
}

fn dep_ctx_exec(raw: &RawDep) -> (r: DepCtx)
    ensures
        r@ == dep_ctx_of(*raw),
{
    let version = if raw.bom.is_some() {
        String::new()
    } else {
        match &raw.version {
            Some(v) => v.clone(),
            None => String::new(),
        }
    };
    DepCtx { group_id: raw.group_id.clone(), artifact_id: raw.artifact_id.clone(), version }
}

fn contains_key_str(keys: &Vec<String>, key: &str) -> (r: bool)
    ensures
        r == key_views(keys@).contains(key@),
{
    let ghost ks = key_views(keys@);
    let mut i: usize = 0;
    while i < keys.len()
        invariant
            i <= keys.len(),
            ks == key_views(keys@),
            forall|j: int| 0 <= j < i ==> ks[j] != key@,
        decreases keys.len() - i,
    {
        if str_eq(keys[i].as_str(), key) {
            proof {
                assert(ks[i as int] == key@);
            }
            return true;
        }
        i += 1;
    }
    false
}

/// The build-file BOM for a key is the catalog's BOM with that key.
pub open spec fn bom_matches(key: String, bom: BomCtx, catalog: DepCatalog) -> bool {
    match find_key(catalog.bom_entries(), key@) {
        Some(b) => bom.group_id@ == b.group_id@ && bom.artifact_id@ == b.artifact_id@
            && bom.version@ == b.version@,
        None => false,
    }
}

/// Each needed BOM key has its catalog BOM at the same position.
pub open spec fn boms_match(keys: Seq<String>, boms: Seq<BomCtx>, catalog: DepCatalog) -> bool {
    &&& boms.len() == keys.len()
    &&& forall|j: int| 0 <= j < keys.len() ==> #[trigger] bom_matches(keys[j], boms[j], catalog)
}

/// The build-file repository for a key is the catalog's repository with
/// that key, its snapshot flag written `true` or `false`.
pub open spec fn repo_matches(key: String, repo: RepoCtx, catalog: DepCatalog) -> bool {
    match find_key(catalog.repository_entries(), key@) {
        Some(p) => repo.id@ == key@ && repo.name@ == p.name@ && repo.url@ == p.url@
            && repo.snapshot_enabled@ == (if p.snapshot_enabled {
            "true"@
        } else {
            "false"@
        }),
        None => false,
    }
}

/// Each needed repository key has its catalog repository at the same
/// position.
pub open spec fn repos_match(keys: Seq<String>, repos: Seq<RepoCtx>, catalog: DepCatalog) -> bool {
    &&& repos.len() == keys.len()
    &&& forall|j: int| 0 <= j < keys.len() ==> #[trigger] repo_matches(keys[j], repos[j], catalog)
}

/// The keys as character sequences.
pub open spec fn key_views(keys: Seq<String>) -> Seq<Seq<char>> {
    keys.map_values(|k: String| k@)
}

/// The needed keys after one more dependency with the optional key: the key
/// is added when the catalog has it and it is not yet needed.
pub open spec fn with_needed_key<T>(keys: Seq<Seq<char>>, key: Option<String>, entries: Seq<(String, T)>) -> Seq<
    Seq<char>,
> {
    match key {
        Some(k) => if find_key(entries, k@) is Some && !keys.contains(k@) {
            keys.push(k@)
        } else {
            keys
        },
        None => keys,
    }
}

/// The optional key names `k`.
pub open spec fn names_key(key: Option<String>, k: Seq<char>) -> bool {
    key matches Some(x) && x@ == k
}

proof fn lemma_with_needed_key<T>(keys: Seq<Seq<char>>, key: Option<String>, entries: Seq<(String, T)>)
    requires
        keys.no_duplicates(),
    ensures
        with_needed_key(keys, key, entries).no_duplicates(),
        forall|k: Seq<char>| keys.contains(k) ==> with_needed_key(keys, key, entries).contains(k),
        forall|k: Seq<char>|
            #[trigger] names_key(key, k) && find_key(entries, k) is Some ==> with_needed_key(
                keys,
                key,
                entries,
            ).contains(k),
{
    let r = with_needed_key(keys, key, entries);
    if r != keys {
        let k = key->0@;
        assert(r == keys.push(k));
        assert(r[keys.len() as int] == k);
        assert forall|x: Seq<char>| keys.contains(x) implies r.contains(x) by {
            let j = choose|j: int| 0 <= j < keys.len() && keys[j] == x;
            assert(r[j] == x);
        }
    }
}

proof fn lemma_known_has(selected: Seq<String>, catalog: DepCatalog, i: int)
    requires
        0 <= i < selected.len(),
        find_key(catalog.dependency_entries(), selected[i]@) is Some,
    ensures
        known_deps(selected, catalog).contains(
            (selected[i]@, find_key(catalog.dependency_entries(), selected[i]@)->Some_0),
        ),
    decreases selected.len(),
{
    let rest = known_deps(selected.drop_last(), catalog);
    let k = known_deps(selected, catalog);
    if i == selected.len() - 1 {
        assert(k[k.len() - 1] == (selected[i]@, find_key(catalog.dependency_entries(), selected[i]@)->Some_0));
    } else {
        assert(selected.drop_last()[i] == selected[i]);
        lemma_known_has(selected.drop_last(), catalog, i);
        let j = choose|j: int|
            0 <= j < rest.len() && rest[j] == (selected[i]@, find_key(catalog.dependency_entries(), selected[i]@)->Some_0);
        assert(k[j] == rest[j]);
    }
}

proof fn lemma_known_from(selected: Seq<String>, catalog: DepCatalog, j: int) -> (i: int)
    requires
        0 <= j < known_deps(selected, catalog).len(),
    ensures
        0 <= i < selected.len(),
        known_deps(selected, catalog)[j].0 == selected[i]@,
        find_key(catalog.dependency_entries(), selected[i]@) == Some(known_deps(selected, catalog)[j].1),
    decreases selected.len(),
{
    let rest = known_deps(selected.drop_last(), catalog);
    if j < rest.len() {
        let i = lemma_known_from(selected.drop_last(), catalog, j);
        assert(selected.drop_last()[i] == selected[i]);
        i
    } else {
        selected.len() - 1
    }
}

proof fn lemma_section_has(known: Seq<(Seq<char>, RawDep)>, j: int)
    requires
        0 <= j < known.len(),
    ensures
        section_deps(known, section_of(opt_string_view(known[j].1.scope))).contains(dep_ctx_of(known[j].1)),
    decreases known.len(),
{
    let sec = section_of(opt_string_view(known[j].1.scope));
    let rest = section_deps(known.drop_last(), sec);
    let all = section_deps(known, sec);
    if j == known.len() - 1 {
        assert(all[all.len() - 1] == dep_ctx_of(known[j].1));
    } else {
        assert(known.drop_last()[j] == known[j]);
        lemma_section_has(known.drop_last(), j);
        let k = choose|k: int| 0 <= k < rest.len() && rest[k] == dep_ctx_of(known[j].1);
        assert(all[k] == rest[k]);
    }
}

/// A selected dependency that the catalog has is declared in the build
/// file's section its scope names (`runtime`, `test`, `annotationProcessor`;
/// any other scope, or none, is a compile dependency) with its group and
/// artifact, and with its own version unless a BOM manages it (then, or
/// without a version, none).
pub proof fn law_selected_dependency_is_declared(selected: Seq<String>, catalog: DepCatalog, i: int)
    requires
        0 <= i < selected.len(),
        find_key(catalog.dependency_entries(), selected[i]@) is Some,
    ensures
        ({
            let raw = find_key(catalog.dependency_entries(), selected[i]@)->Some_0;
            let section = match raw.scope {
                Some(s) => if s@ == "runtime"@ {
                    DepSection::Runtime
                } else if s@ == "test"@ {
                    DepSection::Test
                } else if s@ == "annotationProcessor"@ {
                    DepSection::AnnotationProcessor
                } else {
                    DepSection::Compile
                },
                None => DepSection::Compile,
            };
            let version = if raw.bom is Some {
                Seq::empty()
            } else {
                match raw.version {
                    Some(v) => v@,
                    None => Seq::empty(),
                }
            };
            section_deps(known_deps(selected, catalog), section).contains(
                DepCtxView { group_id: raw.group_id@, artifact_id: raw.artifact_id@, version },
            )
        }),
{
    lemma_known_has(selected, catalog, i);
    let raw = find_key(catalog.dependency_entries(), selected[i]@)->Some_0;
    let known = known_deps(selected, catalog);
    let j = choose|j: int| 0 <= j < known.len() && known[j] == (selected[i]@, raw);
    lemma_section_has(known, j);
}

/// The project uses JPA exactly when a selected dependency that the
/// catalog has carries `jpa` in its id.
pub proof fn law_jpa_when_a_jpa_dependency_is_chosen(selected: Seq<String>, catalog: DepCatalog)
    ensures
        any_jpa(known_deps(selected, catalog)) <==> exists|i: int|
            0 <= i < selected.len() && find_key(catalog.dependency_entries(), #[trigger] selected[i]@) is Some
                && contains_seq(selected[i]@, "jpa"@),
{
    let known = known_deps(selected, catalog);
    if any_jpa(known) {
        let j = choose|j: int| 0 <= j < known.len() && contains_seq(known[j].0, "jpa"@);
        let i = lemma_known_from(selected, catalog, j);
        assert(find_key(catalog.dependency_entries(), selected[i]@) is Some);
    }
    if exists|i: int|
        0 <= i < selected.len() && find_key(catalog.dependency_entries(), #[trigger] selected[i]@) is Some
            && contains_seq(selected[i]@, "jpa"@) {
        let i = choose|i: int|
            0 <= i < selected.len() && find_key(catalog.dependency_entries(), #[trigger] selected[i]@) is Some
                && contains_seq(selected[i]@, "jpa"@);
        lemma_known_has(selected, catalog, i);
        let j = choose|j: int|
            0 <= j < known.len() && known[j] == (selected[i]@, find_key(catalog.dependency_entries(), selected[i]@)->Some_0);
        assert(contains_seq(known[j].0, "jpa"@));
    }
}

/// A project declares each BOM its dependencies need once: the needed keys
/// hold no repeats, and each BOM a known dependency names and the catalog
/// has is among them.
pub proof fn law_boms_needed_once(known: Seq<(Seq<char>, RawDep)>, catalog: DepCatalog)
    ensures
        needed_bom_keys(known, catalog).no_duplicates(),
        forall|i: int, k: Seq<char>|
            0 <= i < known.len() && #[trigger] names_key(known[i].1.bom, k) && find_key(catalog.bom_entries(), k)
                is Some ==> needed_bom_keys(known, catalog).contains(k),
    decreases known.len(),
{
    if known.len() > 0 {
        let rest = known.drop_last();
        law_boms_needed_once(rest, catalog);
        lemma_with_needed_key(needed_bom_keys(rest, catalog), known.last().1.bom, catalog.bom_entries());
        assert forall|i: int, k: Seq<char>|
            0 <= i < known.len() && #[trigger] names_key(known[i].1.bom, k) && find_key(catalog.bom_entries(), k)
                is Some implies needed_bom_keys(known, catalog).contains(k) by {
            if i < known.len() - 1 {
                assert(rest[i] == known[i]);
                assert(names_key(rest[i].1.bom, k));
            }
        }
    }
}

/// A project declares each repository its dependencies need once: the
/// needed keys hold no repeats, and each repository a known dependency
/// names and the catalog has is among them.
pub proof fn law_repositories_needed_once(known: Seq<(Seq<char>, RawDep)>, catalog: DepCatalog)
    ensures
        needed_repo_keys(known, catalog).no_duplicates(),
        forall|i: int, k: Seq<char>|
            0 <= i < known.len() && #[trigger] names_key(known[i].1.repository, k) && find_key(
                catalog.repository_entries(),
                k,
            ) is Some ==> needed_repo_keys(known, catalog).contains(k),
    decreases known.len(),
{
    if known.len() > 0 {
        let rest = known.drop_last();
        law_repositories_needed_once(rest, catalog);
        lemma_with_needed_key(
            needed_repo_keys(rest, catalog),
            known.last().1.repository,
            catalog.repository_entries(),
        );
        assert forall|i: int, k: Seq<char>|
            0 <= i < known.len() && #[trigger] names_key(known[i].1.repository, k) && find_key(
                catalog.repository_entries(),
                k,
            ) is Some implies needed_repo_keys(known, catalog).contains(k) by {
            if i < known.len() - 1 {
                assert(rest[i] == known[i]);
                assert(names_key(rest[i].1.repository, k));
            }
        }
    }
}

fn add_needed_bom(keys: &mut Vec<String>, boms: &mut Vec<BomCtx>, key: &Option<String>, catalog: &DepCatalog)
    requires
        boms_match(old(keys)@, old(boms)@, *catalog),
    ensures
        boms_match(final(keys)@, final(boms)@, *catalog),
        key_views(final(keys)@) == with_needed_key(
            key_views(old(keys)@),
            *key,
            catalog.bom_entries(),
        ),
{
    let ghost old_keys = keys@;
    let ghost old_boms = boms@;
    if let Some(bom_key) = key {
        if let Some(bp) = position_of_key(&catalog.boms, bom_key.as_str()) {
            if !contains_key_str(keys, bom_key.as_str()) {
                proof {
                    lemma_key_position(catalog.bom_entries(), bom_key@, 0);
                }
                let b = &catalog.boms[bp].1;
                boms.push(
                    BomCtx {
                        group_id: b.group_id.clone(),
                        artifact_id: b.artifact_id.clone(),
                        version: b.version.clone(),
                    },
                );
                keys.push(bom_key.clone());
                proof {
                    assert(key_views(keys@) =~= key_views(old_keys).push(
                        bom_key@,
                    ));
                    assert forall|j: int| 0 <= j < keys@.len() implies #[trigger] bom_matches(keys@[j], boms@[j], *catalog) by {
                        if j < old_keys.len() {
                            assert(boms@[j] == old_boms[j]);
                            assert(keys@[j] == old_keys[j]);
                            assert(bom_matches(old_keys[j], old_boms[j], *catalog));
                        } else {
                            assert(find_key(catalog.bom_entries(), bom_key@) == Some(
                                catalog.bom_entries()[bp as int].1,
                            ));
                        }
                    }
                }
            }
        }
    }
}

fn add_needed_repo(keys: &mut Vec<String>, repos: &mut Vec<RepoCtx>, key: &Option<String>, catalog: &DepCatalog)
    requires
        repos_match(old(keys)@, old(repos)@, *catalog),
    ensures
        repos_match(final(keys)@, final(repos)@, *catalog),
        key_views(final(keys)@) == with_needed_key(
            key_views(old(keys)@),
            *key,
            catalog.repository_entries(),
        ),
{
    let ghost old_keys = keys@;
    let ghost old_repos = repos@;
    if let Some(repo_key) = key {
        if let Some(rp) = position_of_key(&catalog.repositories, repo_key.as_str()) {
            if !contains_key_str(keys, repo_key.as_str()) {
                proof {
                    lemma_key_position(catalog.repository_entries(), repo_key@, 0);
                }
                let rr = &catalog.repositories[rp].1;
                let enabled = if rr.snapshot_enabled {
                    owned("true")
                } else {
                    owned("false")
                };
                repos.push(
                    RepoCtx {
                        id: repo_key.clone(),
                        name: rr.name.clone(),
                        url: rr.url.clone(),
                        snapshot_enabled: enabled,
                    },
                );
                keys.push(repo_key.clone());
                proof {
                    assert(key_views(keys@) =~= key_views(old_keys).push(
                        repo_key@,
                    ));
                    assert forall|j: int| 0 <= j < keys@.len() implies #[trigger] repo_matches(keys@[j], repos@[j], *catalog) by {
                        if j < old_keys.len() {
                            assert(repos@[j] == old_repos[j]);
                            assert(keys@[j] == old_keys[j]);
                            assert(repo_matches(old_keys[j], old_repos[j], *catalog));
                        } else {
                            assert(find_key(catalog.repository_entries(), repo_key@) == Some(
                                catalog.repository_entries()[rp as int].1,
                            ));
                        }
                    }
                }
            }
        }
    }
}

/// The dependencies of a project: the selected ids resolved against the
/// catalog and sorted into the build file's sections, with the BOMs and
/// repositories they need.
pub fn resolve_dependencies(selected: &Vec<String>, catalog: &DepCatalog) -> (r: ResolvedDeps)
    ensures
        resolved_spec(r, selected@, *catalog),
{
    let mut compile_deps: Vec<DepCtx> = Vec::new();
    let mut runtime_deps: Vec<DepCtx> = Vec::new();
    let mut test_deps: Vec<DepCtx> = Vec::new();
    let mut annotation_processor_deps: Vec<DepCtx> = Vec::new();
    let mut bom_keys: Vec<String> = Vec::new();
    let mut boms: Vec<BomCtx> = Vec::new();
    let mut repo_keys: Vec<String> = Vec::new();
    let mut repositories: Vec<RepoCtx> = Vec::new();
    let mut has_jpa = false;
    let mut i: usize = 0;
    while i < selected.len()
        invariant
            i <= selected.len(),
            dep_ctx_views(compile_deps@) == section_deps(
                known_deps(selected@.take(i as int), *catalog),
                DepSection::Compile,
            ),
            dep_ctx_views(runtime_deps@) == section_deps(
                known_deps(selected@.take(i as int), *catalog),
                DepSection::Runtime,
            ),
            dep_ctx_views(test_deps@) == section_deps(
                known_deps(selected@.take(i as int), *catalog),
                DepSection::Test,
            ),
            dep_ctx_views(annotation_processor_deps@) == section_deps(
                known_deps(selected@.take(i as int), *catalog),
                DepSection::AnnotationProcessor,
            ),
            has_jpa == any_jpa(known_deps(selected@.take(i as int), *catalog)),
            key_views(bom_keys@) == needed_bom_keys(
                known_deps(selected@.take(i as int), *catalog),
                *catalog,
            ),
            boms_match(bom_keys@, boms@, *catalog),
            key_views(repo_keys@) == needed_repo_keys(
                known_deps(selected@.take(i as int), *catalog),
                *catalog,
            ),
            repos_match(repo_keys@, repositories@, *catalog),
        decreases selected.len() - i,
    {
        let ghost prev = known_deps(selected@.take(i as int), *catalog);
        proof {
            assert(selected@.take(i + 1).drop_last() =~= selected@.take(i as int));
            assert(selected@.take(i + 1).last() == selected@[i as int]);
        }
        let dep_id = &selected[i];
        match position_of_key(&catalog.dependencies, dep_id.as_str()) {
            Some(p) => {
                proof {
                    lemma_key_position(catalog.dependency_entries(), dep_id@, 0);
                }
                let raw = &catalog.dependencies[p].1;
                let ghost known = prev.push((dep_id@, *raw));
                proof {
                    assert(known_deps(selected@.take(i + 1), *catalog) == known);
                    assert(known.drop_last() =~= prev);
                }
                if str_contains(dep_id.as_str(), "jpa") || str_contains(dep_id.as_str(), "data-jpa") {
                    has_jpa = true;
                    proof {
                        if !contains_seq(dep_id@, "jpa"@) {
                            lemma_data_jpa_has_jpa(dep_id@);
                        }
                        assert(contains_seq(known[prev.len() as int].0, "jpa"@));
                    }
                } else {
                    proof {
                        assert(any_jpa(known) == any_jpa(prev)) by {
                            if any_jpa(known) {
                                let k = choose|k: int|
                                    0 <= k < known.len() && contains_seq(known[k].0, "jpa"@);
                                if k < prev.len() {
                                    assert(known[k] == prev[k]);
                                }
                            }
                            if any_jpa(prev) {
                                let k = choose|k: int|
                                    0 <= k < prev.len() && contains_seq(prev[k].0, "jpa"@);
                                assert(known[k] == prev[k]);
                            }
                        }
                    }
                }
                proof {
                    if any_jpa(prev) {
                        let k = choose|k: int| 0 <= k < prev.len() && contains_seq(prev[k].0, "jpa"@);
                        assert(known[k] == prev[k]);
                    }
                }
                let ctx = dep_ctx_exec(raw);
                let section = section_exec(&raw.scope);
                match section {
                    DepSection::Runtime => runtime_deps.push(ctx),
                    DepSection::Test => test_deps.push(ctx),
                    DepSection::AnnotationProcessor => annotation_processor_deps.push(ctx),
                    DepSection::Compile => compile_deps.push(ctx),
                }
                proof {
                    assert(dep_ctx_views(compile_deps@) =~= section_deps(known, DepSection::Compile));
                    assert(dep_ctx_views(runtime_deps@) =~= section_deps(known, DepSection::Runtime));
                    assert(dep_ctx_views(test_deps@) =~= section_deps(known, DepSection::Test));
                    assert(dep_ctx_views(annotation_processor_deps@) =~= section_deps(
                        known,
                        DepSection::AnnotationProcessor,
                    ));
                }
                add_needed_bom(&mut bom_keys, &mut boms, &raw.bom, catalog);
                add_needed_repo(&mut repo_keys, &mut repositories, &raw.repository, catalog);
            },
            None => {
                proof {
                    assert(known_deps(selected@.take(i + 1), *catalog) == prev);
                }
            },
        }
        i += 1;
    }
    proof {
        assert(selected@.take(i as int) =~= selected@);
    }
    let ghost before_test = dep_ctx_views(test_deps@);
    test_deps.push(
        DepCtx {
            group_id: owned("org.springframework.boot"),
            artifact_id: owned("spring-boot-starter-test"),
            version: String::new(),
        },
    );
    proof {
        assert(dep_ctx_views(test_deps@) =~= before_test.push(starter_test_ctx()));
    }
    let r = ResolvedDeps {
        compile_deps,
        runtime_deps,
        test_deps,
        annotation_processor_deps,
        boms,
        repositories,
        has_jpa,
    };
    proof {
        assert(boms_match(bom_keys@, r.boms@, *catalog));
        assert(repos_match(repo_keys@, r.repositories@, *catalog));
    }
    r
}

proof fn lemma_data_jpa_has_jpa(s: Seq<char>)
    requires
        contains_seq(s, "data-jpa"@),
    ensures
        contains_seq(s, "jpa"@),
{
    reveal_strlit("data-jpa");
    reveal_strlit("jpa");
    let i = choose|i: int| crate::text::occurs_at(s, "data-jpa"@, i);
    assert(s.subrange(i + 5, i + 8) =~= "jpa"@) by {
        assert(s.subrange(i, i + 8) == "data-jpa"@);
        assert forall|k: int| 0 <= k < 3 implies s.subrange(i + 5, i + 8)[k] == "jpa"@[k] by {
            assert(s.subrange(i, i + 8)[k + 5] == s[i + 5 + k]);
        }
    }
    assert(crate::text::occurs_at(s, "jpa"@, i + 5));
}

} // verus!

verus! {

// ---------------------------------------------------------------------------
// The project layout
// ---------------------------------------------------------------------------

/// The build tool a project is set up for.
#[derive(Debug, Clone, Copy, PartialEq, Eq, Structural)]
pub enum BuildSystem {
    Maven,
    GradleKotlin,
    GradleGroovy,
}

/// The build tool for an Initializr project type: `maven-project` is Maven,
/// `gradle-project-kotlin` is Gradle with the Kotlin DSL, anything else is
/// Gradle with Groovy.
pub open spec fn build_system_spec(project_type: Seq<char>) -> BuildSystem {
    if project_type == "maven-project"@ {
        BuildSystem::Maven
    } else if project_type == "gradle-project-kotlin"@ {
        BuildSystem::GradleKotlin
    } else {
        BuildSystem::GradleGroovy
    }
}

/// The build tool for an Initializr project type.
pub fn build_system(project_type: &str) -> (r: BuildSystem)
    ensures
        r == build_system_spec(project_type@),
{
    if str_eq(project_type, "maven-project") {
        BuildSystem::Maven
    } else if str_eq(project_type, "gradle-project-kotlin") {
        BuildSystem::GradleKotlin
    } else {
        BuildSystem::GradleGroovy
    }
}

/// The source directory under `src/main` or `src/test` for a language:
/// `kotlin` for Kotlin, `java` for anything else.
pub open spec fn lang_dir_spec(language: Seq<char>) -> Seq<char> {
    if language == "kotlin"@ {
        "kotlin"@
    } else {
        "java"@
    }
}

/// A package name as a path: each `.` becomes `/`.
pub open spec fn package_path_spec(package_name: Seq<char>) -> Seq<char> {
    package_name.map_values(|c: char| if c == '.' { '/' } else { c })
}

/// The source directory of a project: `src/<kind>/<lang>/<package path>`.
pub open spec fn source_dir_spec(kind: Seq<char>, language: Seq<char>, package_name: Seq<char>) -> Seq<
    char,
> {
    "src/"@ + kind + "/"@ + lang_dir_spec(language) + "/"@ + package_path_spec(package_name)
}

/// A file of a new project: its path within the project, the template or
/// fixed resource it comes from, and whether it is rendered as a template.
#[derive(Debug)]
pub struct PlannedFile {
    pub path: String,
    pub source: String,
    pub is_template: bool,
}

pub struct PlannedFileView {
    pub path: Seq<char>,
    pub source: Seq<char>,
    pub is_template: bool,
}

impl View for PlannedFile {
    type V = PlannedFileView;

    open spec fn view(&self) -> PlannedFileView {
        PlannedFileView { path: self.path@, source: self.source@, is_template: self.is_template }
    }
}

/// The views of planned files.
pub open spec fn file_views(s: Seq<PlannedFile>) -> Seq<PlannedFileView> {
    s.map_values(|f: PlannedFile| f@)
}

/// A rendered file whose template has the same name as the file.
pub open spec fn rendered(path: Seq<char>) -> PlannedFileView {
    PlannedFileView { path, source: path, is_template: true }
}

/// The build files of a project for its build tool.
pub open spec fn build_files_spec(build: BuildSystem) -> Seq<PlannedFileView> {
    match build {
        BuildSystem::Maven => seq![
            rendered("pom.xml"@),
            PlannedFileView {
                path: ".mvn/wrapper/maven-wrapper.properties"@,
                source: "maven-wrapper.properties"@,
                is_template: false,
            },
            PlannedFileView { path: ".gitignore"@, source: "gitignore-maven"@, is_template: false },
            PlannedFileView {
                path: ".gitattributes"@,
                source: "gitattributes-maven"@,
                is_template: false,
            },
        ],
        BuildSystem::GradleKotlin => seq![
            rendered("build.gradle.kts"@),
            rendered("settings.gradle.kts"@),
            PlannedFileView { path: ".gitignore"@, source: "gitignore-gradle"@, is_template: false },
        ],
        BuildSystem::GradleGroovy => seq![
            rendered("build.gradle"@),
            rendered("settings.gradle"@),
            PlannedFileView { path: ".gitignore"@, source: "gitignore-gradle"@, is_template: false },
        ],
    }
}

/// The application class and its test, in Kotlin or Java, named after the
/// application.
pub open spec fn source_files_spec(
    kotlin: bool,
    main_src: Seq<char>,
    test_src: Seq<char>,
    app_name: Seq<char>,
) -> Seq<PlannedFileView> {
    let ext = if kotlin {
        ".kt"@
    } else {
        ".java"@
    };
    seq![
        PlannedFileView {
            path: main_src + "/"@ + app_name + ext,
            source: "Application"@ + ext,
            is_template: true,
        },
        PlannedFileView {
            path: test_src + "/"@ + app_name + "Tests"@ + ext,
            source: "ApplicationTests"@ + ext,
            is_template: true,
        },
    ]
}

/// What generating a project writes, and where.
#[derive(Debug)]
pub struct ProjectPlan {
    /// The project directory's name, under the output directory.
    pub dir_name: String,
    /// Whether the output directory is the current one (an empty or `.`
    /// output directory).
    pub in_current_dir: bool,
    pub application_name: String,
    pub boot_version: String,
    pub build: BuildSystem,
    /// The directories to create, relative to the project directory.
    pub directories: Vec<String>,
    /// The files to write, relative to the project directory, in order.
    pub files: Vec<PlannedFile>,
}

/// The plan for a project with these parameters: the application class
/// named after the project, the build files of its build tool, the
/// application class and test in its language under its package, and
/// `application.properties`.
pub open spec fn plan_spec(plan: ProjectPlan, params: NewProjectParams) -> bool {
    let main_src = source_dir_spec("main"@, params.language@, params.package_name@);
    let test_src = source_dir_spec("test"@, params.language@, params.package_name@);
    let app_name = application_name_spec(params.name@, params.artifact_id@);
    let build = build_system_spec(params.project_type@);
    let dirs = seq![
        main_src,
        test_src,
        "src/main/resources/static"@,
        "src/main/resources/templates"@,
    ];
    &&& plan.dir_name@ == params.artifact_id@
    &&& plan.in_current_dir == (params.output_dir@.len() == 0 || params.output_dir@ == "."@)
    &&& plan.application_name@ == app_name
    &&& plan.boot_version@ == normalize_boot_version_spec(params.boot_version@)
    &&& plan.build == build
    &&& key_views(plan.directories@) == (if build == BuildSystem::Maven {
        dirs.push(".mvn/wrapper"@)
    } else {
        dirs
    })
    &&& file_views(plan.files@) == build_files_spec(build) + source_files_spec(
        params.language@ == "kotlin"@,
        main_src,
        test_src,
        app_name,
    ).push(
        PlannedFileView {
            path: "src/main/resources/application.properties"@,
            source: "application.properties"@,
            is_template: true,
        },
    )
}

fn package_path(package_name: &str) -> (r: String)
    ensures
        r@ == package_path_spec(package_name@),
{
    let v = chars_of(package_name);
    let mut out = String::new();
    let mut i: usize = 0;
    while i < v.len()
        invariant
            i <= v.len(),
            v@ == package_name@,
            out@ == package_path_spec(v@.take(i as int)),
        decreases v.len() - i,
    {
        let c = v[i];
        push_char(&mut out, if c == '.' { '/' } else { c });
        proof {
            assert(package_path_spec(v@.take(i + 1)) =~= package_path_spec(v@.take(i as int)).push(
                if c == '.' { '/' } else { c },
            ));
        }
        i += 1;
    }
    proof {
        assert(v@.take(i as int) =~= v@);
    }
    out
}

fn source_dir(kind: &str, language: &str, package_name: &str) -> (r: String)
    ensures
        r@ == source_dir_spec(kind@, language@, package_name@),
{
    let lang = if str_eq(language, "kotlin") {
        "kotlin"
    } else {
        "java"
    };
    let pkg = package_path(package_name);
    let mut out = owned("src/");
    push_str(&mut out, kind);
    push_str(&mut out, "/");
    push_str(&mut out, lang);
    push_str(&mut out, "/");
    push_str(&mut out, pkg.as_str());
    out
}

fn planned(path: String, source: &str, is_template: bool) -> (r: PlannedFile)
    ensures
        r@ == (PlannedFileView { path: path@, source: source@, is_template }),
{
    PlannedFile { path, source: owned(source), is_template }
}

fn push_file(files: &mut Vec<PlannedFile>, path: &str, source: &str, is_template: bool)
    ensures
        file_views(final(files)@) == file_views(old(files)@).push(
            PlannedFileView { path: path@, source: source@, is_template },
        ),
{
    files.push(planned(owned(path), source, is_template));
    proof {
        assert(file_views(files@) =~= file_views(old(files)@).push(
            PlannedFileView { path: path@, source: source@, is_template },
        ));
    }
}

fn push_source_file(files: &mut Vec<PlannedFile>, dir: &str, app_name: &str, suffix: &str, source: &str)
    ensures
        file_views(final(files)@) == file_views(old(files)@).push(
            PlannedFileView { path: dir@ + "/"@ + app_name@ + suffix@, source: source@, is_template: true },
        ),
{
    let mut path = owned(dir);
    push_str(&mut path, "/");
    push_str(&mut path, app_name);
    push_str(&mut path, suffix);
    files.push(planned(path, source, true));
    proof {
        assert(file_views(files@) =~= file_views(old(files)@).push(
            PlannedFileView { path: dir@ + "/"@ + app_name@ + suffix@, source: source@, is_template: true },
        ));
    }
}

/// What generating a project with these parameters writes, and where.
pub fn plan_project(params: &NewProjectParams) -> (plan: ProjectPlan)
    ensures
        plan_spec(plan, *params),
{
    let main_src = source_dir("main", params.language.as_str(), params.package_name.as_str());
    let test_src = source_dir("test", params.language.as_str(), params.package_name.as_str());
    let app_name = application_name(params.name.as_str(), params.artifact_id.as_str());
    let build = build_system(params.project_type.as_str());
    let kotlin = str_eq(params.language.as_str(), "kotlin");

    let mut directories: Vec<String> = Vec::new();
    directories.push(owned(main_src.as_str()));
    directories.push(owned(test_src.as_str()));
    directories.push(owned("src/main/resources/static"));
    directories.push(owned("src/main/resources/templates"));
    if build == BuildSystem::Maven {
        directories.push(owned(".mvn/wrapper"));
    }

    let mut files: Vec<PlannedFile> = Vec::new();
    match build {
        BuildSystem::Maven => {
            push_file(&mut files, "pom.xml", "pom.xml", true);
            push_file(
                &mut files,
                ".mvn/wrapper/maven-wrapper.properties",
                "maven-wrapper.properties",
                false,
            );
            push_file(&mut files, ".gitignore", "gitignore-maven", false);
            push_file(&mut files, ".gitattributes", "gitattributes-maven", false);
        },
        BuildSystem::GradleKotlin => {
            push_file(&mut files, "build.gradle.kts", "build.gradle.kts", true);
            push_file(&mut files, "settings.gradle.kts", "settings.gradle.kts", true);
            push_file(&mut files, ".gitignore", "gitignore-gradle", false);
        },
        BuildSystem::GradleGroovy => {
            push_file(&mut files, "build.gradle", "build.gradle", true);
            push_file(&mut files, "settings.gradle", "settings.gradle", true);
            push_file(&mut files, ".gitignore", "gitignore-gradle", false);
        },
    }
    let ghost build_part = file_views(files@);
    proof {
        assert(build_part =~= build_files_spec(build));
    }
    if kotlin {
        push_source_file(&mut files, main_src.as_str(), app_name.as_str(), ".kt", "Application.kt");
        push_source_file(&mut files, test_src.as_str(), app_name.as_str(), "Tests.kt", "ApplicationTests.kt");
    } else {
        push_source_file(&mut files, main_src.as_str(), app_name.as_str(), ".java", "Application.java");
        push_source_file(
            &mut files,
            test_src.as_str(),
            app_name.as_str(),
            "Tests.java",
            "ApplicationTests.java",
        );
    }
    push_file(&mut files, "src/main/resources/application.properties", "application.properties", true);
    let in_current_dir = params.output_dir.as_str().is_empty() || str_eq(params.output_dir.as_str(), ".");
    let plan = ProjectPlan {
        dir_name: owned(params.artifact_id.as_str()),
        in_current_dir,
        application_name: app_name,
        boot_version: normalize_boot_version(params.boot_version.as_str()),
        build,
        directories,
        files,
    };
    proof {
        reveal_strlit(".kt");
        reveal_strlit("Tests.kt");
        reveal_strlit("Tests");
        reveal_strlit(".java");
        reveal_strlit("Tests.java");
        reveal_strlit("Application.kt");
        reveal_strlit("ApplicationTests.kt");
        reveal_strlit("Application.java");
        reveal_strlit("ApplicationTests.java");
        reveal_strlit("Application");
        reveal_strlit("ApplicationTests");
        assert("Tests"@ + ".kt"@ =~= "Tests.kt"@);
        assert("Tests"@ + ".java"@ =~= "Tests.java"@);
        assert("Application"@ + ".kt"@ =~= "Application.kt"@);
        assert("Application"@ + ".java"@ =~= "Application.java"@);
        assert("ApplicationTests"@ + ".kt"@ =~= "ApplicationTests.kt"@);
        assert("ApplicationTests"@ + ".java"@ =~= "ApplicationTests.java"@);
        let dirs = seq![
            main_src@,
            test_src@,
            "src/main/resources/static"@,
            "src/main/resources/templates"@,
        ];
        assert(key_views(plan.directories@) =~= (if build == BuildSystem::Maven {
            dirs.push(".mvn/wrapper"@)
        } else {
            dirs
        }));
        let app = app_name@;
        let ext = if kotlin { ".kt"@ } else { ".java"@ };
        assert(main_src@ + "/"@ + app + ext + Seq::empty() =~= main_src@ + "/"@ + app + ext);
        assert(test_src@ + "/"@ + app + "Tests"@ + ext =~= test_src@ + "/"@ + app + ("Tests"@ + ext));
        assert(file_views(plan.files@) =~= build_files_spec(build) + source_files_spec(
            kotlin,
            main_src@,
            test_src@,
            app,
        ).push(
            PlannedFileView {
                path: "src/main/resources/application.properties"@,
                source: "application.properties"@,
                is_template: true,
            },
        ));
    }
    plan
}

} // verus!
