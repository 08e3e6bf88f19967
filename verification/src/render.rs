//! Rendering a planned project's files: the values its templates see, and
//! the text of each file, its templates rendered with minijinja.

use vstd::prelude::*;

use crate::generator::{file_views, BomCtx, DepCtx, PlannedFileView, ProjectPlan, RepoCtx, ResolvedDeps};
use crate::model::NewProjectParams;
use crate::text::{owned, push_str, str_eq};

verus! {

// ---------------------------------------------------------------------------
// The values templates see
// ---------------------------------------------------------------------------

/// Named texts as character sequences.
pub open spec fn pair_views(v: Seq<(String, String)>) -> Seq<(Seq<char>, Seq<char>)> {
    v.map_values(|p: (String, String)| (p.0@, p.1@))
}

/// Records (each a list of named texts) as character sequences.
pub open spec fn record_views(v: Seq<Vec<(String, String)>>) -> Seq<Seq<(Seq<char>, Seq<char>)>> {
    v.map_values(|r: Vec<(String, String)>| pair_views(r@))
}

/// Named lists of records as character sequences.
pub open spec fn list_views(v: Seq<(String, Vec<Vec<(String, String)>>)>) -> Seq<
    (Seq<char>, Seq<Seq<(Seq<char>, Seq<char>)>>),
> {
    v.map_values(|l: (String, Vec<Vec<(String, String)>>)| (l.0@, record_views(l.1@)))
}

/// Named flags with their names as character sequences.
pub open spec fn flag_views(v: Seq<(String, bool)>) -> Seq<(Seq<char>, bool)> {
    v.map_values(|f: (String, bool)| (f.0@, f.1))
}

/// The values a project's templates are rendered with, each by name:
/// texts, lists of records (a record being named texts), and flags.
#[derive(Debug)]
pub struct TemplateContext {
    pub texts: Vec<(String, String)>,
    pub lists: Vec<(String, Vec<Vec<(String, String)>>)>,
    pub flags: Vec<(String, bool)>,
}

/// A dependency as the build templates see it.
pub open spec fn dep_record(d: DepCtx) -> Seq<(Seq<char>, Seq<char>)> {
    seq![("group_id"@, d.group_id@), ("artifact_id"@, d.artifact_id@), ("version"@, d.version@)]
}

/// A BOM as the build templates see it.
pub open spec fn bom_record(b: BomCtx) -> Seq<(Seq<char>, Seq<char>)> {
    seq![("group_id"@, b.group_id@), ("artifact_id"@, b.artifact_id@), ("version"@, b.version@)]
}

/// A repository as the build templates see it.
pub open spec fn repo_record(r: RepoCtx) -> Seq<(Seq<char>, Seq<char>)> {
    seq![
        ("id"@, r.id@),
        ("name"@, r.name@),
        ("url"@, r.url@),
        ("snapshot_enabled"@, r.snapshot_enabled@),
    ]
}

/// The texts templates see: the project's coordinates and names, the
/// Spring Boot version to build against, the application class's name and
/// the Kotlin version (`2.2.21`).
pub open spec fn context_texts(plan: ProjectPlan, p: NewProjectParams) -> Seq<(Seq<char>, Seq<char>)> {
    seq![
        ("boot_version"@, plan.boot_version@),
        ("group_id"@, p.group_id@),
        ("artifact_id"@, p.artifact_id@),
        ("name"@, p.name@),
        ("description"@, p.description@),
        ("package_name"@, p.package_name@),
        ("java_version"@, p.java_version@),
        ("application_name"@, plan.application_name@),
        ("kotlin_version"@, "2.2.21"@),
    ]
}

/// The lists templates see: the dependencies of each section, the BOMs,
/// the repositories, and no extra properties.
pub open spec fn context_lists(d: ResolvedDeps) -> Seq<(Seq<char>, Seq<Seq<(Seq<char>, Seq<char>)>>)> {
    seq![
        ("compile_deps"@, d.compile_deps@.map_values(|x: DepCtx| dep_record(x))),
        ("runtime_deps"@, d.runtime_deps@.map_values(|x: DepCtx| dep_record(x))),
        ("test_deps"@, d.test_deps@.map_values(|x: DepCtx| dep_record(x))),
        ("annotation_processor_deps"@, d.annotation_processor_deps@.map_values(|x: DepCtx| dep_record(x))),
        ("boms"@, d.boms@.map_values(|x: BomCtx| bom_record(x))),
        ("repositories"@, d.repositories@.map_values(|x: RepoCtx| repo_record(x))),
        ("extra_properties"@, Seq::empty()),
    ]
}

/// The flags templates see: whether a JPA dependency was chosen.
pub open spec fn context_flags(d: ResolvedDeps) -> Seq<(Seq<char>, bool)> {
    seq![("has_jpa"@, d.has_jpa)]
}

fn text_pair(name: &str, value: &String) -> (r: (String, String))
    ensures
        r.0@ == name@,
        r.1@ == value@,
{
    (owned(name), value.clone())
}

fn dep_records(v: &Vec<DepCtx>) -> (r: Vec<Vec<(String, String)>>)
    ensures
        record_views(r@) == v@.map_values(|x: DepCtx| dep_record(x)),
{
    let mut out: Vec<Vec<(String, String)>> = Vec::new();
    let mut i: usize = 0;
    while i < v.len()
        invariant
            i <= v@.len(),
            out@.len() == i,
            forall|k: int| 0 <= k < i ==> pair_views((#[trigger] out@[k])@) == dep_record(v@[k]),
        decreases v@.len() - i,
    {
        let d = &v[i];
        let rec = vec![
            text_pair("group_id", &d.group_id),
            text_pair("artifact_id", &d.artifact_id),
            text_pair("version", &d.version),
        ];
        proof {
            assert(pair_views(rec@) =~= dep_record(v@[i as int]));
        }
        out.push(rec);
        i += 1;
    }
    proof {
        assert(record_views(out@) =~= v@.map_values(|x: DepCtx| dep_record(x)));
    }
    out
}

fn bom_records(v: &Vec<BomCtx>) -> (r: Vec<Vec<(String, String)>>)
    ensures
        record_views(r@) == v@.map_values(|x: BomCtx| bom_record(x)),
{
    let mut out: Vec<Vec<(String, String)>> = Vec::new();
    let mut i: usize = 0;
    while i < v.len()
        invariant
            i <= v@.len(),
            out@.len() == i,
            forall|k: int| 0 <= k < i ==> pair_views((#[trigger] out@[k])@) == bom_record(v@[k]),
        decreases v@.len() - i,
    {
        let b = &v[i];
        let rec = vec![
            text_pair("group_id", &b.group_id),
            text_pair("artifact_id", &b.artifact_id),
            text_pair("version", &b.version),
        ];
        proof {
            assert(pair_views(rec@) =~= bom_record(v@[i as int]));
        }
        out.push(rec);
        i += 1;
    }
    proof {
        assert(record_views(out@) =~= v@.map_values(|x: BomCtx| bom_record(x)));
    }
    out
}

fn repo_records(v: &Vec<RepoCtx>) -> (r: Vec<Vec<(String, String)>>)
    ensures
        record_views(r@) == v@.map_values(|x: RepoCtx| repo_record(x)),
{
    let mut out: Vec<Vec<(String, String)>> = Vec::new();
    let mut i: usize = 0;
    while i < v.len()
        invariant
            i <= v@.len(),
            out@.len() == i,
            forall|k: int| 0 <= k < i ==> pair_views((#[trigger] out@[k])@) == repo_record(v@[k]),
        decreases v@.len() - i,
    {
        let r = &v[i];
        let rec = vec![
            text_pair("id", &r.id),
            text_pair("name", &r.name),
            text_pair("url", &r.url),
            text_pair("snapshot_enabled", &r.snapshot_enabled),
        ];
        proof {
            assert(pair_views(rec@) =~= repo_record(v@[i as int]));
        }
        out.push(rec);
        i += 1;
    }
    proof {
        assert(record_views(out@) =~= v@.map_values(|x: RepoCtx| repo_record(x)));
    }
    out
}

/// The values the templates of a planned project are rendered with.
pub fn template_context(plan: &ProjectPlan, deps: &ResolvedDeps, params: &NewProjectParams) -> (r: TemplateContext)
    ensures
        pair_views(r.texts@) == context_texts(*plan, *params),
        list_views(r.lists@) == context_lists(*deps),
        flag_views(r.flags@) == context_flags(*deps),
{
    let kotlin = owned("2.2.21");
    let texts = vec![
        text_pair("boot_version", &plan.boot_version),
        text_pair("group_id", &params.group_id),
        text_pair("artifact_id", &params.artifact_id),
        text_pair("name", &params.name),
        text_pair("description", &params.description),
        text_pair("package_name", &params.package_name),
        text_pair("java_version", &params.java_version),
        text_pair("application_name", &plan.application_name),
        text_pair("kotlin_version", &kotlin),
    ];
    let lists = vec![
        (owned("compile_deps"), dep_records(&deps.compile_deps)),
        (owned("runtime_deps"), dep_records(&deps.runtime_deps)),
        (owned("test_deps"), dep_records(&deps.test_deps)),
        (owned("annotation_processor_deps"), dep_records(&deps.annotation_processor_deps)),
        (owned("boms"), bom_records(&deps.boms)),
        (owned("repositories"), repo_records(&deps.repositories)),
        (owned("extra_properties"), Vec::new()),
    ];
    let flags = vec![(owned("has_jpa"), deps.has_jpa)];
    let r = TemplateContext { texts, lists, flags };
    proof {
        assert(pair_views(r.texts@) =~= context_texts(*plan, *params));
        assert(record_views(r.lists@[6].1@) =~= Seq::<Seq<(Seq<char>, Seq<char>)>>::empty());
        assert(list_views(r.lists@) =~= context_lists(*deps));
        assert(flag_views(r.flags@) =~= context_flags(*deps));
    }
    r
}

/// The text a context holds under a name: the last pair with that name
/// (a later value under a name replaces an earlier one in the map the
/// templates read), or none.
pub open spec fn text_named(texts: Seq<(Seq<char>, Seq<char>)>, name: Seq<char>) -> Option<Seq<char>>
    decreases texts.len(),
{
    if texts.len() == 0 {
        None
    } else if texts.last().0 == name {
        Some(texts.last().1)
    } else {
        text_named(texts.drop_last(), name)
    }
}

proof fn lemma_text_named_at(texts: Seq<(Seq<char>, Seq<char>)>, name: Seq<char>, i: int)
    requires
        0 <= i < texts.len(),
        texts[i].0 == name,
        forall|j: int| i < j < texts.len() ==> (#[trigger] texts[j]).0 != name,
    ensures
        text_named(texts, name) == Some(texts[i].1),
    decreases texts.len(),
{
    if i < texts.len() - 1 {
        let t = texts.drop_last();
        assert forall|j: int| i < j < t.len() implies (#[trigger] t[j]).0 != name by {
            assert(t[j] == texts[j]);
        }
        lemma_text_named_at(t, name, i);
    }
}

proof fn lemma_text_named_none(texts: Seq<(Seq<char>, Seq<char>)>, name: Seq<char>)
    requires
        forall|j: int| 0 <= j < texts.len() ==> (#[trigger] texts[j]).0 != name,
    ensures
        text_named(texts, name) is None,
    decreases texts.len(),
{
    if texts.len() > 0 {
        let t = texts.drop_last();
        assert forall|j: int| 0 <= j < t.len() implies (#[trigger] t[j]).0 != name by {
            assert(t[j] == texts[j]);
        }
        lemma_text_named_none(t, name);
    }
}

/// The length and first character of each name of a project's texts.
proof fn lemma_text_names(plan: ProjectPlan, p: NewProjectParams)
    ensures
        context_texts(plan, p)[0] == ("boot_version"@, plan.boot_version@),
        context_texts(plan, p)[0].0.len() == 12 && context_texts(plan, p)[0].0[0] == 'b',
        context_texts(plan, p)[1] == ("group_id"@, p.group_id@),
        context_texts(plan, p)[1].0.len() == 8 && context_texts(plan, p)[1].0[0] == 'g',
        context_texts(plan, p)[2] == ("artifact_id"@, p.artifact_id@),
        context_texts(plan, p)[2].0.len() == 11 && context_texts(plan, p)[2].0[0] == 'a',
        context_texts(plan, p)[3] == ("name"@, p.name@),
        context_texts(plan, p)[3].0.len() == 4 && context_texts(plan, p)[3].0[0] == 'n',
        context_texts(plan, p)[4] == ("description"@, p.description@),
        context_texts(plan, p)[4].0.len() == 11 && context_texts(plan, p)[4].0[0] == 'd',
        context_texts(plan, p)[5] == ("package_name"@, p.package_name@),
        context_texts(plan, p)[5].0.len() == 12 && context_texts(plan, p)[5].0[0] == 'p',
        context_texts(plan, p)[6] == ("java_version"@, p.java_version@),
        context_texts(plan, p)[6].0.len() == 12 && context_texts(plan, p)[6].0[0] == 'j',
        context_texts(plan, p)[7] == ("application_name"@, plan.application_name@),
        context_texts(plan, p)[7].0.len() == 16 && context_texts(plan, p)[7].0[0] == 'a',
        context_texts(plan, p)[8] == ("kotlin_version"@, "2.2.21"@),
        context_texts(plan, p)[8].0.len() == 14 && context_texts(plan, p)[8].0[0] == 'k',
        context_texts(plan, p).len() == 9,
{
    reveal_strlit("boot_version");
    reveal_strlit("group_id");
    reveal_strlit("artifact_id");
    reveal_strlit("name");
    reveal_strlit("description");
    reveal_strlit("package_name");
    reveal_strlit("java_version");
    reveal_strlit("application_name");
    reveal_strlit("kotlin_version");
}

proof fn lemma_text_boot_version(plan: ProjectPlan, p: NewProjectParams)
    ensures
        text_named(context_texts(plan, p), "boot_version"@) == Some(plan.boot_version@),
{
    reveal_strlit("boot_version");
    lemma_text_names(plan, p);
    let t = context_texts(plan, p);
    assert forall|j: int| 0 < j < t.len() implies (#[trigger] t[j]).0 != "boot_version"@ by {
        assert(j == 1 || j == 2 || j == 3 || j == 4 || j == 5 || j == 6 || j == 7 || j == 8);
    }
    lemma_text_named_at(t, "boot_version"@, 0);
}

proof fn lemma_text_group_id(plan: ProjectPlan, p: NewProjectParams)
    ensures
        text_named(context_texts(plan, p), "group_id"@) == Some(p.group_id@),
{
    reveal_strlit("group_id");
    lemma_text_names(plan, p);
    let t = context_texts(plan, p);
    assert forall|j: int| 1 < j < t.len() implies (#[trigger] t[j]).0 != "group_id"@ by {
        assert(j == 2 || j == 3 || j == 4 || j == 5 || j == 6 || j == 7 || j == 8);
    }
    lemma_text_named_at(t, "group_id"@, 1);
}

proof fn lemma_text_artifact_id(plan: ProjectPlan, p: NewProjectParams)
    ensures
        text_named(context_texts(plan, p), "artifact_id"@) == Some(p.artifact_id@),
{
    reveal_strlit("artifact_id");
    lemma_text_names(plan, p);
    let t = context_texts(plan, p);
    assert forall|j: int| 2 < j < t.len() implies (#[trigger] t[j]).0 != "artifact_id"@ by {
        assert(j == 3 || j == 4 || j == 5 || j == 6 || j == 7 || j == 8);
    }
    lemma_text_named_at(t, "artifact_id"@, 2);
}

proof fn lemma_text_name(plan: ProjectPlan, p: NewProjectParams)
    ensures
        text_named(context_texts(plan, p), "name"@) == Some(p.name@),
{
    reveal_strlit("name");
    lemma_text_names(plan, p);
    let t = context_texts(plan, p);
    assert forall|j: int| 3 < j < t.len() implies (#[trigger] t[j]).0 != "name"@ by {
        assert(j == 4 || j == 5 || j == 6 || j == 7 || j == 8);
    }
    lemma_text_named_at(t, "name"@, 3);
}

proof fn lemma_text_description(plan: ProjectPlan, p: NewProjectParams)
    ensures
        text_named(context_texts(plan, p), "description"@) == Some(p.description@),
{
    reveal_strlit("description");
    lemma_text_names(plan, p);
    let t = context_texts(plan, p);
    assert forall|j: int| 4 < j < t.len() implies (#[trigger] t[j]).0 != "description"@ by {
        assert(j == 5 || j == 6 || j == 7 || j == 8);
    }
    lemma_text_named_at(t, "description"@, 4);
}

proof fn lemma_text_package_name(plan: ProjectPlan, p: NewProjectParams)
    ensures
        text_named(context_texts(plan, p), "package_name"@) == Some(p.package_name@),
{
    reveal_strlit("package_name");
    lemma_text_names(plan, p);
    let t = context_texts(plan, p);
    assert forall|j: int| 5 < j < t.len() implies (#[trigger] t[j]).0 != "package_name"@ by {
        assert(j == 6 || j == 7 || j == 8);
    }
    lemma_text_named_at(t, "package_name"@, 5);
}

proof fn lemma_text_java_version(plan: ProjectPlan, p: NewProjectParams)
    ensures
        text_named(context_texts(plan, p), "java_version"@) == Some(p.java_version@),
{
    reveal_strlit("java_version");
    lemma_text_names(plan, p);
    let t = context_texts(plan, p);
    assert forall|j: int| 6 < j < t.len() implies (#[trigger] t[j]).0 != "java_version"@ by {
        assert(j == 7 || j == 8);
    }
    lemma_text_named_at(t, "java_version"@, 6);
}

proof fn lemma_text_application_name(plan: ProjectPlan, p: NewProjectParams)
    ensures
        text_named(context_texts(plan, p), "application_name"@) == Some(plan.application_name@),
{
    reveal_strlit("application_name");
    lemma_text_names(plan, p);
    let t = context_texts(plan, p);
    assert forall|j: int| 7 < j < t.len() implies (#[trigger] t[j]).0 != "application_name"@ by {
        assert(j == 8);
    }
    lemma_text_named_at(t, "application_name"@, 7);
}

proof fn lemma_text_kotlin_version(plan: ProjectPlan, p: NewProjectParams)
    ensures
        text_named(context_texts(plan, p), "kotlin_version"@) == Some("2.2.21"@),
{
    reveal_strlit("kotlin_version");
    lemma_text_names(plan, p);
    let t = context_texts(plan, p);
    assert forall|j: int| 8 < j < t.len() implies (#[trigger] t[j]).0 != "kotlin_version"@ by {
        assert(false);
    }
    lemma_text_named_at(t, "kotlin_version"@, 8);
}

proof fn lemma_no_text_compile_deps(plan: ProjectPlan, p: NewProjectParams)
    ensures
        text_named(context_texts(plan, p), "compile_deps"@) is None,
{
    reveal_strlit("compile_deps");
    lemma_text_names(plan, p);
    let t = context_texts(plan, p);
    assert("compile_deps"@.len() == 12 && "compile_deps"@[0] == 'c');
    assert forall|j: int| 0 <= j < t.len() implies (#[trigger] t[j]).0 != "compile_deps"@ by {
        assert(j == 0 || j == 1 || j == 2 || j == 3 || j == 4 || j == 5 || j == 6 || j == 7 || j == 8);
    }
    lemma_text_named_none(t, "compile_deps"@);
}

proof fn lemma_no_text_runtime_deps(plan: ProjectPlan, p: NewProjectParams)
    ensures
        text_named(context_texts(plan, p), "runtime_deps"@) is None,
{
    reveal_strlit("runtime_deps");
    lemma_text_names(plan, p);
    let t = context_texts(plan, p);
    assert("runtime_deps"@.len() == 12 && "runtime_deps"@[0] == 'r');
    assert forall|j: int| 0 <= j < t.len() implies (#[trigger] t[j]).0 != "runtime_deps"@ by {
        assert(j == 0 || j == 1 || j == 2 || j == 3 || j == 4 || j == 5 || j == 6 || j == 7 || j == 8);
    }
    lemma_text_named_none(t, "runtime_deps"@);
}

proof fn lemma_no_text_test_deps(plan: ProjectPlan, p: NewProjectParams)
    ensures
        text_named(context_texts(plan, p), "test_deps"@) is None,
{
    reveal_strlit("test_deps");
    lemma_text_names(plan, p);
    let t = context_texts(plan, p);
    assert("test_deps"@.len() == 9 && "test_deps"@[0] == 't');
    assert forall|j: int| 0 <= j < t.len() implies (#[trigger] t[j]).0 != "test_deps"@ by {
        assert(j == 0 || j == 1 || j == 2 || j == 3 || j == 4 || j == 5 || j == 6 || j == 7 || j == 8);
    }
    lemma_text_named_none(t, "test_deps"@);
}

proof fn lemma_no_text_annotation_processor_deps(plan: ProjectPlan, p: NewProjectParams)
    ensures
        text_named(context_texts(plan, p), "annotation_processor_deps"@) is None,
{
    reveal_strlit("annotation_processor_deps");
    lemma_text_names(plan, p);
    let t = context_texts(plan, p);
    assert("annotation_processor_deps"@.len() == 25 && "annotation_processor_deps"@[0] == 'a');
    assert forall|j: int| 0 <= j < t.len() implies (#[trigger] t[j]).0 != "annotation_processor_deps"@ by {
        assert(j == 0 || j == 1 || j == 2 || j == 3 || j == 4 || j == 5 || j == 6 || j == 7 || j == 8);
    }
    lemma_text_named_none(t, "annotation_processor_deps"@);
}

proof fn lemma_no_text_boms(plan: ProjectPlan, p: NewProjectParams)
    ensures
        text_named(context_texts(plan, p), "boms"@) is None,
{
    reveal_strlit("boms");
    lemma_text_names(plan, p);
    let t = context_texts(plan, p);
    assert("boms"@.len() == 4 && "boms"@[0] == 'b');
    assert forall|j: int| 0 <= j < t.len() implies (#[trigger] t[j]).0 != "boms"@ by {
        assert(j == 0 || j == 1 || j == 2 || j == 3 || j == 4 || j == 5 || j == 6 || j == 7 || j == 8);
    }
    lemma_text_named_none(t, "boms"@);
}

proof fn lemma_no_text_repositories(plan: ProjectPlan, p: NewProjectParams)
    ensures
        text_named(context_texts(plan, p), "repositories"@) is None,
{
    reveal_strlit("repositories");
    lemma_text_names(plan, p);
    let t = context_texts(plan, p);
    assert("repositories"@.len() == 12 && "repositories"@[0] == 'r');
    assert forall|j: int| 0 <= j < t.len() implies (#[trigger] t[j]).0 != "repositories"@ by {
        assert(j == 0 || j == 1 || j == 2 || j == 3 || j == 4 || j == 5 || j == 6 || j == 7 || j == 8);
    }
    lemma_text_named_none(t, "repositories"@);
}

proof fn lemma_no_text_extra_properties(plan: ProjectPlan, p: NewProjectParams)
    ensures
        text_named(context_texts(plan, p), "extra_properties"@) is None,
{
    reveal_strlit("extra_properties");
    lemma_text_names(plan, p);
    let t = context_texts(plan, p);
    assert("extra_properties"@.len() == 16 && "extra_properties"@[0] == 'e');
    assert forall|j: int| 0 <= j < t.len() implies (#[trigger] t[j]).0 != "extra_properties"@ by {
        assert(j == 0 || j == 1 || j == 2 || j == 3 || j == 4 || j == 5 || j == 6 || j == 7 || j == 8);
    }
    lemma_text_named_none(t, "extra_properties"@);
}

proof fn lemma_no_text_has_jpa(plan: ProjectPlan, p: NewProjectParams)
    ensures
        text_named(context_texts(plan, p), "has_jpa"@) is None,
{
    reveal_strlit("has_jpa");
    lemma_text_names(plan, p);
    let t = context_texts(plan, p);
    assert("has_jpa"@.len() == 7 && "has_jpa"@[0] == 'h');
    assert forall|j: int| 0 <= j < t.len() implies (#[trigger] t[j]).0 != "has_jpa"@ by {
        assert(j == 0 || j == 1 || j == 2 || j == 3 || j == 4 || j == 5 || j == 6 || j == 7 || j == 8);
    }
    lemma_text_named_none(t, "has_jpa"@);
}

/// The templates of a project see its values under their names: the
/// Spring Boot version and the application class name of the plan, the
/// coordinates, name, description, package and Java version the user
/// chose, and Kotlin `2.2.21`; no list or flag shadows one of these names.
pub proof fn law_templates_see_the_chosen_values(plan: ProjectPlan, d: ResolvedDeps, p: NewProjectParams)
    ensures
        text_named(context_texts(plan, p), "boot_version"@) == Some(plan.boot_version@),
        text_named(context_texts(plan, p), "group_id"@) == Some(p.group_id@),
        text_named(context_texts(plan, p), "artifact_id"@) == Some(p.artifact_id@),
        text_named(context_texts(plan, p), "name"@) == Some(p.name@),
        text_named(context_texts(plan, p), "description"@) == Some(p.description@),
        text_named(context_texts(plan, p), "package_name"@) == Some(p.package_name@),
        text_named(context_texts(plan, p), "java_version"@) == Some(p.java_version@),
        text_named(context_texts(plan, p), "application_name"@) == Some(plan.application_name@),
        text_named(context_texts(plan, p), "kotlin_version"@) == Some("2.2.21"@),
        forall|k: int|
            0 <= k < context_lists(d).len() ==> text_named(context_texts(plan, p), (#[trigger] context_lists(d)[k]).0)
                is None,
        forall|k: int|
            0 <= k < context_flags(d).len() ==> text_named(context_texts(plan, p), (#[trigger] context_flags(d)[k]).0)
                is None,
{
    lemma_text_boot_version(plan, p);
    lemma_text_group_id(plan, p);
    lemma_text_artifact_id(plan, p);
    lemma_text_name(plan, p);
    lemma_text_description(plan, p);
    lemma_text_package_name(plan, p);
    lemma_text_java_version(plan, p);
    lemma_text_application_name(plan, p);
    lemma_text_kotlin_version(plan, p);
    lemma_no_text_compile_deps(plan, p);
    lemma_no_text_runtime_deps(plan, p);
    lemma_no_text_test_deps(plan, p);
    lemma_no_text_annotation_processor_deps(plan, p);
    lemma_no_text_boms(plan, p);
    lemma_no_text_repositories(plan, p);
    lemma_no_text_extra_properties(plan, p);
    lemma_no_text_has_jpa(plan, p);
    let l = context_lists(d);
    assert forall|k: int| 0 <= k < l.len() implies text_named(context_texts(plan, p), (#[trigger] l[k]).0) is None by {
        assert(k == 0 || k == 1 || k == 2 || k == 3 || k == 4 || k == 5 || k == 6);
    }
    let f = context_flags(d);
    assert forall|k: int| 0 <= k < f.len() implies text_named(context_texts(plan, p), (#[trigger] f[k]).0) is None by {
        assert(k == 0);
    }
}

/// The records a context holds under a list's name: the last list with
/// that name, or none.
pub open spec fn list_named(
    lists: Seq<(Seq<char>, Seq<Seq<(Seq<char>, Seq<char>)>>)>,
    name: Seq<char>,
) -> Option<Seq<Seq<(Seq<char>, Seq<char>)>>>
    decreases lists.len(),
{
    if lists.len() == 0 {
        None
    } else if lists.last().0 == name {
        Some(lists.last().1)
    } else {
        list_named(lists.drop_last(), name)
    }
}

/// The flag a context holds under a name: the last one, or none.
pub open spec fn flag_named(flags: Seq<(Seq<char>, bool)>, name: Seq<char>) -> Option<bool>
    decreases flags.len(),
{
    if flags.len() == 0 {
        None
    } else if flags.last().0 == name {
        Some(flags.last().1)
    } else {
        flag_named(flags.drop_last(), name)
    }
}

proof fn lemma_list_named_at(
    lists: Seq<(Seq<char>, Seq<Seq<(Seq<char>, Seq<char>)>>)>,
    name: Seq<char>,
    i: int,
)
    requires
        0 <= i < lists.len(),
        lists[i].0 == name,
        forall|j: int| i < j < lists.len() ==> (#[trigger] lists[j]).0 != name,
    ensures
        list_named(lists, name) == Some(lists[i].1),
    decreases lists.len(),
{
    if i < lists.len() - 1 {
        let t = lists.drop_last();
        assert forall|j: int| i < j < t.len() implies (#[trigger] t[j]).0 != name by {
            assert(t[j] == lists[j]);
        }
        lemma_list_named_at(t, name, i);
    }
}

/// A dependency's or BOM's record shows its coordinates by name.
proof fn lemma_coordinates_record(group_id: Seq<char>, artifact_id: Seq<char>, version: Seq<char>)
    ensures
        ({
            let r = seq![("group_id"@, group_id), ("artifact_id"@, artifact_id), ("version"@, version)];
            &&& text_named(r, "group_id"@) == Some(group_id)
            &&& text_named(r, "artifact_id"@) == Some(artifact_id)
            &&& text_named(r, "version"@) == Some(version)
        }),
{
    reveal_strlit("group_id");
    reveal_strlit("artifact_id");
    reveal_strlit("version");
    let r = seq![("group_id"@, group_id), ("artifact_id"@, artifact_id), ("version"@, version)];
    assert(r[0].0.len() == 8 && r[1].0.len() == 11 && r[2].0.len() == 7);
    assert forall|j: int| 0 < j < r.len() implies (#[trigger] r[j]).0 != "group_id"@ by {
        assert(j == 1 || j == 2);
    }
    lemma_text_named_at(r, "group_id"@, 0);
    assert forall|j: int| 1 < j < r.len() implies (#[trigger] r[j]).0 != "artifact_id"@ by {
        assert(j == 2);
    }
    lemma_text_named_at(r, "artifact_id"@, 1);
    lemma_text_named_at(r, "version"@, 2);
}

/// A repository's record shows its id, name, URL and snapshot setting by
/// name.
proof fn lemma_repository_record(r: RepoCtx)
    ensures
        text_named(repo_record(r), "id"@) == Some(r.id@),
        text_named(repo_record(r), "name"@) == Some(r.name@),
        text_named(repo_record(r), "url"@) == Some(r.url@),
        text_named(repo_record(r), "snapshot_enabled"@) == Some(r.snapshot_enabled@),
{
    reveal_strlit("id");
    reveal_strlit("name");
    reveal_strlit("url");
    reveal_strlit("snapshot_enabled");
    let x = repo_record(r);
    assert(x[0].0.len() == 2 && x[1].0.len() == 4 && x[2].0.len() == 3 && x[3].0.len() == 16);
    assert forall|j: int| 0 < j < x.len() implies (#[trigger] x[j]).0 != "id"@ by {
        assert(j == 1 || j == 2 || j == 3);
    }
    lemma_text_named_at(x, "id"@, 0);
    assert forall|j: int| 1 < j < x.len() implies (#[trigger] x[j]).0 != "name"@ by {
        assert(j == 2 || j == 3);
    }
    lemma_text_named_at(x, "name"@, 1);
    assert forall|j: int| 2 < j < x.len() implies (#[trigger] x[j]).0 != "url"@ by {
        assert(j == 3);
    }
    lemma_text_named_at(x, "url"@, 2);
    lemma_text_named_at(x, "snapshot_enabled"@, 3);
}

proof fn lemma_list_names(d: ResolvedDeps)
    ensures
        context_lists(d).len() == 7,
        context_lists(d)[0].0 == "compile_deps"@ && context_lists(d)[0].0.len() == 12 && context_lists(d)[0].0[0] == 'c' && context_lists(d)[0].0[1] == 'o',
        context_lists(d)[1].0 == "runtime_deps"@ && context_lists(d)[1].0.len() == 12 && context_lists(d)[1].0[0] == 'r' && context_lists(d)[1].0[1] == 'u',
        context_lists(d)[2].0 == "test_deps"@ && context_lists(d)[2].0.len() == 9 && context_lists(d)[2].0[0] == 't' && context_lists(d)[2].0[1] == 'e',
        context_lists(d)[3].0 == "annotation_processor_deps"@ && context_lists(d)[3].0.len() == 25 && context_lists(d)[3].0[0] == 'a' && context_lists(d)[3].0[1] == 'n',
        context_lists(d)[4].0 == "boms"@ && context_lists(d)[4].0.len() == 4 && context_lists(d)[4].0[0] == 'b' && context_lists(d)[4].0[1] == 'o',
        context_lists(d)[5].0 == "repositories"@ && context_lists(d)[5].0.len() == 12 && context_lists(d)[5].0[0] == 'r' && context_lists(d)[5].0[1] == 'e',
        context_lists(d)[6].0 == "extra_properties"@ && context_lists(d)[6].0.len() == 16 && context_lists(d)[6].0[0] == 'e' && context_lists(d)[6].0[1] == 'x',
{
    reveal_strlit("compile_deps");
    reveal_strlit("runtime_deps");
    reveal_strlit("test_deps");
    reveal_strlit("annotation_processor_deps");
    reveal_strlit("boms");
    reveal_strlit("repositories");
    reveal_strlit("extra_properties");
}

proof fn lemma_list_compile_deps(d: ResolvedDeps)
    ensures
        list_named(context_lists(d), "compile_deps"@) matches Some(rs) && rs.len() == d.compile_deps@.len() && forall|k: int|
            0 <= k < rs.len() ==> {
                &&& text_named(#[trigger] rs[k], "group_id"@) == Some(d.compile_deps@[k].group_id@)
                &&& text_named(rs[k], "artifact_id"@) == Some(d.compile_deps@[k].artifact_id@)
                &&& text_named(rs[k], "version"@) == Some(d.compile_deps@[k].version@)
            },
{
    reveal_strlit("compile_deps");
    lemma_list_names(d);
    let l = context_lists(d);
    assert("compile_deps"@.len() == 12 && "compile_deps"@[0] == 'c' && "compile_deps"@[1] == 'o');
    assert forall|j: int| 0 < j < l.len() implies (#[trigger] l[j]).0 != "compile_deps"@ by {
        assert(j == 1 || j == 2 || j == 3 || j == 4 || j == 5 || j == 6);
    }
    lemma_list_named_at(l, "compile_deps"@, 0);
    let rs = l[0].1;
    assert forall|k: int| 0 <= k < rs.len() implies {
        &&& text_named(#[trigger] rs[k], "group_id"@) == Some(d.compile_deps@[k].group_id@)
        &&& text_named(rs[k], "artifact_id"@) == Some(d.compile_deps@[k].artifact_id@)
        &&& text_named(rs[k], "version"@) == Some(d.compile_deps@[k].version@)
    } by {
        assert(rs[k] == dep_record(d.compile_deps@[k]));
        lemma_coordinates_record(d.compile_deps@[k].group_id@, d.compile_deps@[k].artifact_id@, d.compile_deps@[k].version@);
    }
}

proof fn lemma_list_runtime_deps(d: ResolvedDeps)
    ensures
        list_named(context_lists(d), "runtime_deps"@) matches Some(rs) && rs.len() == d.runtime_deps@.len() && forall|k: int|
            0 <= k < rs.len() ==> {
                &&& text_named(#[trigger] rs[k], "group_id"@) == Some(d.runtime_deps@[k].group_id@)
                &&& text_named(rs[k], "artifact_id"@) == Some(d.runtime_deps@[k].artifact_id@)
                &&& text_named(rs[k], "version"@) == Some(d.runtime_deps@[k].version@)
            },
{
    reveal_strlit("runtime_deps");
    lemma_list_names(d);
    let l = context_lists(d);
    assert("runtime_deps"@.len() == 12 && "runtime_deps"@[0] == 'r' && "runtime_deps"@[1] == 'u');
    assert forall|j: int| 1 < j < l.len() implies (#[trigger] l[j]).0 != "runtime_deps"@ by {
        assert(j == 2 || j == 3 || j == 4 || j == 5 || j == 6);
    }
    lemma_list_named_at(l, "runtime_deps"@, 1);
    let rs = l[1].1;
    assert forall|k: int| 0 <= k < rs.len() implies {
        &&& text_named(#[trigger] rs[k], "group_id"@) == Some(d.runtime_deps@[k].group_id@)
        &&& text_named(rs[k], "artifact_id"@) == Some(d.runtime_deps@[k].artifact_id@)
        &&& text_named(rs[k], "version"@) == Some(d.runtime_deps@[k].version@)
    } by {
        assert(rs[k] == dep_record(d.runtime_deps@[k]));
        lemma_coordinates_record(d.runtime_deps@[k].group_id@, d.runtime_deps@[k].artifact_id@, d.runtime_deps@[k].version@);
    }
}

proof fn lemma_list_test_deps(d: ResolvedDeps)
    ensures
        list_named(context_lists(d), "test_deps"@) matches Some(rs) && rs.len() == d.test_deps@.len() && forall|k: int|
            0 <= k < rs.len() ==> {
                &&& text_named(#[trigger] rs[k], "group_id"@) == Some(d.test_deps@[k].group_id@)
                &&& text_named(rs[k], "artifact_id"@) == Some(d.test_deps@[k].artifact_id@)
                &&& text_named(rs[k], "version"@) == Some(d.test_deps@[k].version@)
            },
{
    reveal_strlit("test_deps");
    lemma_list_names(d);
    let l = context_lists(d);
    assert("test_deps"@.len() == 9 && "test_deps"@[0] == 't' && "test_deps"@[1] == 'e');
    assert forall|j: int| 2 < j < l.len() implies (#[trigger] l[j]).0 != "test_deps"@ by {
        assert(j == 3 || j == 4 || j == 5 || j == 6);
    }
    lemma_list_named_at(l, "test_deps"@, 2);
    let rs = l[2].1;
    assert forall|k: int| 0 <= k < rs.len() implies {
        &&& text_named(#[trigger] rs[k], "group_id"@) == Some(d.test_deps@[k].group_id@)
        &&& text_named(rs[k], "artifact_id"@) == Some(d.test_deps@[k].artifact_id@)
        &&& text_named(rs[k], "version"@) == Some(d.test_deps@[k].version@)
    } by {
        assert(rs[k] == dep_record(d.test_deps@[k]));
        lemma_coordinates_record(d.test_deps@[k].group_id@, d.test_deps@[k].artifact_id@, d.test_deps@[k].version@);
    }
}

proof fn lemma_list_annotation_processor_deps(d: ResolvedDeps)
    ensures
        list_named(context_lists(d), "annotation_processor_deps"@) matches Some(rs) && rs.len() == d.annotation_processor_deps@.len() && forall|k: int|
            0 <= k < rs.len() ==> {
                &&& text_named(#[trigger] rs[k], "group_id"@) == Some(d.annotation_processor_deps@[k].group_id@)
                &&& text_named(rs[k], "artifact_id"@) == Some(d.annotation_processor_deps@[k].artifact_id@)
                &&& text_named(rs[k], "version"@) == Some(d.annotation_processor_deps@[k].version@)
            },
{
    reveal_strlit("annotation_processor_deps");
    lemma_list_names(d);
    let l = context_lists(d);
    assert("annotation_processor_deps"@.len() == 25 && "annotation_processor_deps"@[0] == 'a' && "annotation_processor_deps"@[1] == 'n');
    assert forall|j: int| 3 < j < l.len() implies (#[trigger] l[j]).0 != "annotation_processor_deps"@ by {
        assert(j == 4 || j == 5 || j == 6);
    }
    lemma_list_named_at(l, "annotation_processor_deps"@, 3);
    let rs = l[3].1;
    assert forall|k: int| 0 <= k < rs.len() implies {
        &&& text_named(#[trigger] rs[k], "group_id"@) == Some(d.annotation_processor_deps@[k].group_id@)
        &&& text_named(rs[k], "artifact_id"@) == Some(d.annotation_processor_deps@[k].artifact_id@)
        &&& text_named(rs[k], "version"@) == Some(d.annotation_processor_deps@[k].version@)
    } by {
        assert(rs[k] == dep_record(d.annotation_processor_deps@[k]));
        lemma_coordinates_record(d.annotation_processor_deps@[k].group_id@, d.annotation_processor_deps@[k].artifact_id@, d.annotation_processor_deps@[k].version@);
    }
}

proof fn lemma_list_boms(d: ResolvedDeps)
    ensures
        list_named(context_lists(d), "boms"@) matches Some(rs) && rs.len() == d.boms@.len() && forall|k: int|
            0 <= k < rs.len() ==> {
                &&& text_named(#[trigger] rs[k], "group_id"@) == Some(d.boms@[k].group_id@)
                &&& text_named(rs[k], "artifact_id"@) == Some(d.boms@[k].artifact_id@)
                &&& text_named(rs[k], "version"@) == Some(d.boms@[k].version@)
            },
{
    reveal_strlit("boms");
    lemma_list_names(d);
    let l = context_lists(d);
    assert("boms"@.len() == 4 && "boms"@[0] == 'b' && "boms"@[1] == 'o');
    assert forall|j: int| 4 < j < l.len() implies (#[trigger] l[j]).0 != "boms"@ by {
        assert(j == 5 || j == 6);
    }
    lemma_list_named_at(l, "boms"@, 4);
    let rs = l[4].1;
    assert forall|k: int| 0 <= k < rs.len() implies {
        &&& text_named(#[trigger] rs[k], "group_id"@) == Some(d.boms@[k].group_id@)
        &&& text_named(rs[k], "artifact_id"@) == Some(d.boms@[k].artifact_id@)
        &&& text_named(rs[k], "version"@) == Some(d.boms@[k].version@)
    } by {
        assert(rs[k] == bom_record(d.boms@[k]));
        lemma_coordinates_record(d.boms@[k].group_id@, d.boms@[k].artifact_id@, d.boms@[k].version@);
    }
}

proof fn lemma_list_repositories(d: ResolvedDeps)
    ensures
        list_named(context_lists(d), "repositories"@) matches Some(rs) && rs.len() == d.repositories@.len() && forall|k: int|
            0 <= k < rs.len() ==> {
                &&& text_named(#[trigger] rs[k], "id"@) == Some(d.repositories@[k].id@)
                &&& text_named(rs[k], "name"@) == Some(d.repositories@[k].name@)
                &&& text_named(rs[k], "url"@) == Some(d.repositories@[k].url@)
                &&& text_named(rs[k], "snapshot_enabled"@) == Some(d.repositories@[k].snapshot_enabled@)
            },
{
    reveal_strlit("repositories");
    lemma_list_names(d);
    let l = context_lists(d);
    assert("repositories"@.len() == 12 && "repositories"@[0] == 'r' && "repositories"@[1] == 'e');
    assert forall|j: int| 5 < j < l.len() implies (#[trigger] l[j]).0 != "repositories"@ by {
        assert(j == 6);
    }
    lemma_list_named_at(l, "repositories"@, 5);
    let rs = l[5].1;
    assert forall|k: int| 0 <= k < rs.len() implies {
        &&& text_named(#[trigger] rs[k], "id"@) == Some(d.repositories@[k].id@)
        &&& text_named(rs[k], "name"@) == Some(d.repositories@[k].name@)
        &&& text_named(rs[k], "url"@) == Some(d.repositories@[k].url@)
        &&& text_named(rs[k], "snapshot_enabled"@) == Some(d.repositories@[k].snapshot_enabled@)
    } by {
        assert(rs[k] == repo_record(d.repositories@[k]));
        lemma_repository_record(d.repositories@[k]);
    }
}

/// The build templates see the resolved dependencies by section: under
/// `compile_deps`, `runtime_deps`, `test_deps` and
/// `annotation_processor_deps` one record per dependency of that section,
/// in order, with its `group_id`, `artifact_id` and `version`; under `boms`
/// one per BOM with the same three; under `repositories` one per
/// repository with its `id`, `name`, `url` and `snapshot_enabled`; and the
/// flag `has_jpa` tells whether a JPA dependency was chosen.
pub proof fn law_templates_see_the_resolved_dependencies(d: ResolvedDeps)
    ensures
        list_named(context_lists(d), "compile_deps"@) matches Some(rs) && rs.len() == d.compile_deps@.len(),
        list_named(context_lists(d), "runtime_deps"@) matches Some(rs) && rs.len() == d.runtime_deps@.len(),
        list_named(context_lists(d), "test_deps"@) matches Some(rs) && rs.len() == d.test_deps@.len(),
        list_named(context_lists(d), "annotation_processor_deps"@) matches Some(rs) && rs.len() == d.annotation_processor_deps@.len(),
        list_named(context_lists(d), "boms"@) matches Some(rs) && rs.len() == d.boms@.len(),
        list_named(context_lists(d), "repositories"@) matches Some(rs) && rs.len() == d.repositories@.len(),
        forall|k: int|
            #![trigger d.compile_deps@[k]]
            0 <= k < d.compile_deps@.len() ==> {
                &&& text_named((list_named(context_lists(d), "compile_deps"@)->Some_0)[k], "group_id"@) == Some(d.compile_deps@[k].group_id@)
                &&& text_named((list_named(context_lists(d), "compile_deps"@)->Some_0)[k], "artifact_id"@) == Some(d.compile_deps@[k].artifact_id@)
                &&& text_named((list_named(context_lists(d), "compile_deps"@)->Some_0)[k], "version"@) == Some(d.compile_deps@[k].version@)
            },
        forall|k: int|
            #![trigger d.runtime_deps@[k]]
            0 <= k < d.runtime_deps@.len() ==> {
                &&& text_named((list_named(context_lists(d), "runtime_deps"@)->Some_0)[k], "group_id"@) == Some(d.runtime_deps@[k].group_id@)
                &&& text_named((list_named(context_lists(d), "runtime_deps"@)->Some_0)[k], "artifact_id"@) == Some(d.runtime_deps@[k].artifact_id@)
                &&& text_named((list_named(context_lists(d), "runtime_deps"@)->Some_0)[k], "version"@) == Some(d.runtime_deps@[k].version@)
            },
        forall|k: int|
            #![trigger d.test_deps@[k]]
            0 <= k < d.test_deps@.len() ==> {
                &&& text_named((list_named(context_lists(d), "test_deps"@)->Some_0)[k], "group_id"@) == Some(d.test_deps@[k].group_id@)
                &&& text_named((list_named(context_lists(d), "test_deps"@)->Some_0)[k], "artifact_id"@) == Some(d.test_deps@[k].artifact_id@)
                &&& text_named((list_named(context_lists(d), "test_deps"@)->Some_0)[k], "version"@) == Some(d.test_deps@[k].version@)
            },
        forall|k: int|
            #![trigger d.annotation_processor_deps@[k]]
            0 <= k < d.annotation_processor_deps@.len() ==> {
                &&& text_named((list_named(context_lists(d), "annotation_processor_deps"@)->Some_0)[k], "group_id"@) == Some(d.annotation_processor_deps@[k].group_id@)
                &&& text_named((list_named(context_lists(d), "annotation_processor_deps"@)->Some_0)[k], "artifact_id"@) == Some(d.annotation_processor_deps@[k].artifact_id@)
                &&& text_named((list_named(context_lists(d), "annotation_processor_deps"@)->Some_0)[k], "version"@) == Some(d.annotation_processor_deps@[k].version@)
            },
        forall|k: int|
            #![trigger d.boms@[k]]
            0 <= k < d.boms@.len() ==> {
                &&& text_named((list_named(context_lists(d), "boms"@)->Some_0)[k], "group_id"@) == Some(d.boms@[k].group_id@)
                &&& text_named((list_named(context_lists(d), "boms"@)->Some_0)[k], "artifact_id"@) == Some(d.boms@[k].artifact_id@)
                &&& text_named((list_named(context_lists(d), "boms"@)->Some_0)[k], "version"@) == Some(d.boms@[k].version@)
            },
        forall|k: int|
            #![trigger d.repositories@[k]]
            0 <= k < d.repositories@.len() ==> {
                &&& text_named((list_named(context_lists(d), "repositories"@)->Some_0)[k], "id"@) == Some(d.repositories@[k].id@)
                &&& text_named((list_named(context_lists(d), "repositories"@)->Some_0)[k], "name"@) == Some(d.repositories@[k].name@)
                &&& text_named((list_named(context_lists(d), "repositories"@)->Some_0)[k], "url"@) == Some(d.repositories@[k].url@)
                &&& text_named((list_named(context_lists(d), "repositories"@)->Some_0)[k], "snapshot_enabled"@) == Some(d.repositories@[k].snapshot_enabled@)
            },
        flag_named(context_flags(d), "has_jpa"@) == Some(d.has_jpa),
{
    lemma_list_compile_deps(d);
    lemma_list_runtime_deps(d);
    lemma_list_test_deps(d);
    lemma_list_annotation_processor_deps(d);
    lemma_list_boms(d);
    lemma_list_repositories(d);
    reveal_with_fuel(flag_named, 2);
    assert(context_flags(d).drop_last() =~= Seq::<(Seq<char>, bool)>::empty());
}

// ---------------------------------------------------------------------------
// Rendering
// ---------------------------------------------------------------------------

/// What minijinja gives for the template `source` named `name` (whose
/// extension decides the auto-escaping), rendered with a context made of
/// the texts, lists of records and flags: the text, or the error's message.
pub uninterp spec fn rendered(
    name: Seq<char>,
    source: Seq<char>,
    texts: Seq<(Seq<char>, Seq<char>)>,
    lists: Seq<(Seq<char>, Seq<Seq<(Seq<char>, Seq<char>)>>)>,
    flags: Seq<(Seq<char>, bool)>,
) -> Result<Seq<char>, Seq<char>>;

/// Calls minijinja's `Environment::template_from_named_str` on a new
/// environment and `Template::render` with the context (a map of the texts,
/// of the lists as sequences of maps, and of the flags); the text or the
/// error's message is named `rendered`.
#[verifier::external_body]
fn render_template(name: &str, source: &str, ctx: &TemplateContext) -> (r: Result<String, String>)
    ensures
        rendered(name@, source@, pair_views(ctx.texts@), list_views(ctx.lists@), flag_views(ctx.flags@))
            == (match r {
            Ok(t) => Ok::<Seq<char>, Seq<char>>(t@),
            Err(e) => Err::<Seq<char>, Seq<char>>(e@),
        }),
{
    let values: minijinja::Value = ctx.texts.iter().map(|(k, v)| (k.clone(), minijinja::Value::from(v.as_str())))
        .chain(ctx.lists.iter().map(|(k, rs)| (k.clone(), rs.iter().map(|r| r.iter().cloned().collect::<minijinja::Value>()).collect())))
        .chain(ctx.flags.iter().map(|(k, b)| (k.clone(), minijinja::Value::from(*b)))).collect();
    minijinja::Environment::new().template_from_named_str(name, source).and_then(|t| t.render(values)).map_err(|e| e.to_string())
}

/// The text of the first template with the name, if there is one.
pub open spec fn template_text(templates: Seq<(Seq<char>, Seq<char>)>, name: Seq<char>) -> Option<Seq<char>>
    decreases templates.len(),
{
    if templates.len() == 0 {
        None
    } else if templates[0].0 == name {
        Some(templates[0].1)
    } else {
        template_text(templates.drop_first(), name)
    }
}

/// The text of a planned file: its template rendered, or its fixed text
/// as it is; an error when its template or text is missing.
pub open spec fn file_text(f: PlannedFileView, ctx: TemplateContext, templates: Seq<(Seq<char>, Seq<char>)>) -> Result<
    Seq<char>,
    Seq<char>,
> {
    match template_text(templates, f.source) {
        None => Err("missing template "@ + f.source),
        Some(src) => if f.is_template {
            rendered(f.source, src, pair_views(ctx.texts@), list_views(ctx.lists@), flag_views(ctx.flags@))
        } else {
            Ok(src)
        },
    }
}

/// The paths and texts of the first `n` planned files, or the error of the
/// first that fails.
pub open spec fn files_upto(
    files: Seq<PlannedFileView>,
    ctx: TemplateContext,
    templates: Seq<(Seq<char>, Seq<char>)>,
    n: int,
) -> Result<Seq<(Seq<char>, Seq<char>)>, Seq<char>>
    decreases n,
{
    if n <= 0 {
        Ok(Seq::empty())
    } else {
        match files_upto(files, ctx, templates, n - 1) {
            Err(e) => Err(e),
            Ok(done) => match file_text(files[n - 1], ctx, templates) {
                Err(e) => Err(e),
                Ok(t) => Ok(done.push((files[n - 1].path, t))),
            },
        }
    }
}

fn find_template(templates: &Vec<(String, String)>, name: &str) -> (r: Option<String>)
    ensures
        match r {
            Some(t) => template_text(pair_views(templates@), name@) == Some(t@),
            None => template_text(pair_views(templates@), name@) is None,
        },
{
    let ghost all = pair_views(templates@);
    let mut i: usize = 0;
    proof {
        assert(all.subrange(0, all.len() as int) =~= all);
    }
    while i < templates.len()
        invariant
            i <= templates@.len(),
            all == pair_views(templates@),
            template_text(all, name@) == template_text(all.subrange(i as int, all.len() as int), name@),
        decreases templates@.len() - i,
    {
        let ghost rest = all.subrange(i as int, all.len() as int);
        proof {
            assert(rest.drop_first() =~= all.subrange(i + 1, all.len() as int));
        }
        if str_eq(templates[i].0.as_str(), name) {
            return Some(templates[i].1.clone());
        }
        i += 1;
    }
    proof {
        assert(all.subrange(i as int, all.len() as int) =~= Seq::<(Seq<char>, Seq<char>)>::empty());
    }
    None
}

proof fn lemma_files_upto_err(
    files: Seq<PlannedFileView>,
    ctx: TemplateContext,
    templates: Seq<(Seq<char>, Seq<char>)>,
    k: int,
    n: int,
)
    requires
        k <= n,
        files_upto(files, ctx, templates, k) is Err,
    ensures
        files_upto(files, ctx, templates, n) == files_upto(files, ctx, templates, k),
    decreases n - k,
{
    if n > k {
        lemma_files_upto_err(files, ctx, templates, k, n - 1);
    }
}

/// The paths and texts of a planned project's files, each template (found
/// by the file's source name among `templates`) rendered with the context;
/// or the error of the first file that fails.
pub fn render_files(plan: &ProjectPlan, ctx: &TemplateContext, templates: &Vec<(String, String)>) -> (r: Result<
    Vec<(String, String)>,
    String,
>)
    ensures
        match r {
            Ok(v) => files_upto(file_views(plan.files@), *ctx, pair_views(templates@), plan.files@.len() as int)
                == Ok::<Seq<(Seq<char>, Seq<char>)>, Seq<char>>(pair_views(v@)),
            Err(e) => files_upto(file_views(plan.files@), *ctx, pair_views(templates@), plan.files@.len() as int)
                == Err::<Seq<(Seq<char>, Seq<char>)>, Seq<char>>(e@),
        },
{
    let ghost files = file_views(plan.files@);
    let ghost tv = pair_views(templates@);
    let mut out: Vec<(String, String)> = Vec::new();
    let mut i: usize = 0;
    proof {
        assert(pair_views(out@) =~= Seq::<(Seq<char>, Seq<char>)>::empty());
    }
    while i < plan.files.len()
        invariant
            i <= plan.files@.len(),
            files == file_views(plan.files@),
            tv == pair_views(templates@),
            files_upto(files, *ctx, tv, i as int) == Ok::<Seq<(Seq<char>, Seq<char>)>, Seq<char>>(
                pair_views(out@),
            ),
        decreases plan.files@.len() - i,
    {
        let f = &plan.files[i];
        let text = match find_template(templates, f.source.as_str()) {
            None => {
                let mut m = owned("missing template ");
                push_str(&mut m, f.source.as_str());
                Err(m)
            },
            Some(src) => if f.is_template {
                render_template(f.source.as_str(), src.as_str(), ctx)
            } else {
                Ok(src)
            },
        };
        proof {
            assert(files[i as int] == plan.files@[i as int]@);
            assert(match text {
                Ok(t) => file_text(files[i as int], *ctx, tv) == Ok::<Seq<char>, Seq<char>>(t@),
                Err(e) => file_text(files[i as int], *ctx, tv) == Err::<Seq<char>, Seq<char>>(e@),
            });
        }
        match text {
            Err(e) => {
                proof {
                    lemma_files_upto_err(files, *ctx, tv, i + 1, plan.files@.len() as int);
                }
                return Err(e);
            },
            Ok(t) => {
                let ghost before = pair_views(out@);
                let ghost tv_i = t@;
                out.push((f.path.clone(), t));
                proof {
                    assert(pair_views(out@) =~= before.push((files[i as int].path, tv_i)));
                }
            },
        }
        i += 1;
    }
    Ok(out)
}

} // verus!
