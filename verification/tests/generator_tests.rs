use tspring::generator::{
    application_name, build_system, normalize_boot_version, plan_project, resolve_dependencies,
    to_pascal_case, BuildSystem, DepCatalog, RawBom, RawDep, RawRepo,
};
use tspring::model::NewProjectParams;

#[test]
fn pascal_case_simple() {
    assert_eq!(to_pascal_case("demo"), "Demo");
}

#[test]
fn pascal_case_hyphenated() {
    assert_eq!(to_pascal_case("my-demo-app"), "MyDemoApp");
}

#[test]
fn pascal_case_underscored() {
    assert_eq!(to_pascal_case("my_demo_app"), "MyDemoApp");
}

#[test]
fn pascal_case_spaces() {
    assert_eq!(to_pascal_case("my demo app"), "MyDemoApp");
}

#[test]
fn pascal_case_mixed_separators() {
    assert_eq!(to_pascal_case("my-demo_app name"), "MyDemoAppName");
}

#[test]
fn pascal_case_uppercase_input() {
    assert_eq!(to_pascal_case("UPPER-CASE"), "UpperCase");
}

#[test]
fn pascal_case_empty() {
    assert_eq!(to_pascal_case(""), "");
}

#[test]
fn pascal_case_leading_trailing_separators() {
    assert_eq!(to_pascal_case("--leading--"), "Leading");
}

#[test]
fn pascal_case_single_char() {
    assert_eq!(to_pascal_case("a"), "A");
}

#[test]
fn normalize_release_suffix() {
    assert_eq!(normalize_boot_version("3.2.0.RELEASE"), "3.2.0");
}

#[test]
fn normalize_snapshot_unchanged() {
    assert_eq!(normalize_boot_version("3.3.0-SNAPSHOT"), "3.3.0-SNAPSHOT");
}

#[test]
fn normalize_build_snapshot_passes_through() {
    assert_eq!(
        normalize_boot_version("3.2.0.BUILD-SNAPSHOT"),
        "3.2.0.BUILD-SNAPSHOT"
    );
}

#[test]
fn normalize_milestone() {
    assert_eq!(normalize_boot_version("3.3.0.M1"), "3.3.0-M1");
}

#[test]
fn normalize_release_candidate() {
    assert_eq!(normalize_boot_version("3.3.0.RC1"), "3.3.0-RC1");
}

#[test]
fn normalize_plain_version() {
    assert_eq!(normalize_boot_version("3.2.0"), "3.2.0");
}

// Own tests.

#[test]
fn normalize_version_without_dot() {
    assert_eq!(normalize_boot_version("latest"), "latest");
    assert_eq!(normalize_boot_version("3.3.0.GA"), "3.3.0.GA");
}

#[test]
fn pascal_case_lowercases_the_rest_of_each_word() {
    assert_eq!(to_pascal_case("hELLO wORLD"), "HelloWorld");
}

#[test]
fn application_name_falls_back() {
    assert_eq!(application_name("", "demo"), "Demo");
    assert_eq!(application_name("my app", "demo"), "MyApp");
    assert_eq!(application_name("--", "demo"), "Application");
}

#[test]
fn build_system_of_project_types() {
    assert_eq!(build_system("maven-project"), BuildSystem::Maven);
    assert_eq!(build_system("gradle-project-kotlin"), BuildSystem::GradleKotlin);
    assert_eq!(build_system("gradle-project"), BuildSystem::GradleGroovy);
    assert_eq!(build_system("anything"), BuildSystem::GradleGroovy);
}

fn params(project_type: &str, language: &str, artifact: &str, name: &str) -> NewProjectParams {
    NewProjectParams {
        boot_version: "3.4.5".into(),
        language: language.into(),
        packaging: "jar".into(),
        java_version: "21".into(),
        project_type: project_type.into(),
        group_id: "com.test".into(),
        artifact_id: artifact.into(),
        version: "0.0.1-SNAPSHOT".into(),
        name: name.into(),
        description: "Test project".into(),
        package_name: format!("com.test.{}", artifact),
        dependencies: vec!["web".into()],
        output_dir: "/tmp/out".into(),
    }
}

fn paths(plan: &tspring::generator::ProjectPlan) -> Vec<String> {
    plan.files.iter().map(|f| f.path.clone()).collect()
}

#[test]
fn plan_maven_java_project() {
    let plan = plan_project(&params("maven-project", "java", "myapp", "myapp"));
    assert_eq!(plan.dir_name, "myapp");
    assert_eq!(plan.application_name, "Myapp");
    assert!(!plan.in_current_dir);
    let p = paths(&plan);
    assert!(p.contains(&"pom.xml".to_string()));
    assert!(p.contains(&"src/main/java/com/test/myapp/Myapp.java".to_string()));
    assert!(p.contains(&"src/test/java/com/test/myapp/MyappTests.java".to_string()));
    assert!(p.contains(&"src/main/resources/application.properties".to_string()));
    assert!(p.contains(&".mvn/wrapper/maven-wrapper.properties".to_string()));
    assert!(plan.directories.contains(&".mvn/wrapper".to_string()));
}

#[test]
fn plan_gradle_kotlin_project() {
    let plan = plan_project(&params("gradle-project-kotlin", "kotlin", "ktapp", "ktapp"));
    let p = paths(&plan);
    assert!(p.contains(&"build.gradle.kts".to_string()));
    assert!(p.contains(&"settings.gradle.kts".to_string()));
    assert!(p.contains(&"src/main/kotlin/com/test/ktapp/Ktapp.kt".to_string()));
    assert!(!plan.directories.contains(&".mvn/wrapper".to_string()));
}

#[test]
fn plan_gradle_groovy_project() {
    let plan = plan_project(&params("gradle-project", "java", "gradleapp", "gradleapp"));
    let p = paths(&plan);
    assert!(p.contains(&"build.gradle".to_string()));
    assert!(p.contains(&"settings.gradle".to_string()));
    assert!(!p.contains(&"build.gradle.kts".to_string()));
}

#[test]
fn plan_empty_name_falls_back_to_artifact_id() {
    let mut prm = params("maven-project", "java", "demo", "");
    prm.package_name = "com.example.demo".into();
    let plan = plan_project(&prm);
    assert!(paths(&plan).contains(&"src/main/java/com/example/demo/Demo.java".to_string()));
}

#[test]
fn plan_in_current_dir_for_dot_or_empty() {
    let mut prm = params("maven-project", "java", "demo", "demo");
    prm.output_dir = ".".into();
    assert!(plan_project(&prm).in_current_dir);
    prm.output_dir = "".into();
    assert!(plan_project(&prm).in_current_dir);
}

fn raw_dep(
    group_id: &str,
    artifact_id: &str,
    scope: Option<&str>,
    version: Option<&str>,
    bom: Option<&str>,
    repository: Option<&str>,
) -> RawDep {
    RawDep {
        group_id: group_id.into(),
        artifact_id: artifact_id.into(),
        scope: scope.map(String::from),
        version: version.map(String::from),
        bom: bom.map(String::from),
        repository: repository.map(String::from),
    }
}

fn catalog() -> DepCatalog {
    let mut c = DepCatalog::new();
    c.insert_dependency(
        "web".into(),
        raw_dep("org.springframework.boot", "spring-boot-starter-webmvc", None, None, None, None),
    );
    c.insert_dependency("h2".into(), raw_dep("com.h2database", "h2", Some("runtime"), None, None, None));
    c.insert_dependency(
        "data-jpa".into(),
        raw_dep(
            "org.springframework.boot",
            "spring-boot-starter-data-jpa",
            None,
            Some("1.0"),
            Some("cloud"),
            Some("milestones"),
        ),
    );
    c.insert_dependency(
        "lombok".into(),
        raw_dep("org.projectlombok", "lombok", Some("annotationProcessor"), Some("1.18"), None, None),
    );
    c.insert_bom(
        "cloud".into(),
        RawBom {
            group_id: "org.springframework.cloud".into(),
            artifact_id: "spring-cloud-dependencies".into(),
            version: "2024.0.0".into(),
        },
    );
    c.insert_repository(
        "milestones".into(),
        RawRepo {
            name: "Spring Milestones".into(),
            url: "https://repo.spring.io/milestone".into(),
            snapshot_enabled: false,
        },
    );
    c
}

#[test]
fn a_key_inserted_again_replaces_its_entry() {
    let mut c = catalog();
    c.insert_dependency("h2".into(), raw_dep("com.h2database", "h2", Some("test"), None, None, None));
    let r = resolve_dependencies(&vec!["h2".to_string()], &c);
    assert!(r.runtime_deps.is_empty());
    // The replaced entry now sits among the test dependencies, before the starter.
    assert_eq!(r.test_deps.len(), 2);
    assert_eq!(r.test_deps[0].artifact_id, "h2");
}

#[test]
fn resolve_sorts_dependencies_by_scope() {
    let sel = vec!["web".to_string(), "h2".to_string(), "unknown".to_string(), "lombok".to_string()];
    let r = resolve_dependencies(&sel, &catalog());
    assert_eq!(r.compile_deps.len(), 1);
    assert_eq!(r.compile_deps[0].artifact_id, "spring-boot-starter-webmvc");
    assert_eq!(r.runtime_deps.len(), 1);
    assert_eq!(r.runtime_deps[0].artifact_id, "h2");
    assert_eq!(r.annotation_processor_deps.len(), 1);
    assert_eq!(r.annotation_processor_deps[0].version, "1.18");
    // The starter test dependency is always last among the test ones.
    assert_eq!(r.test_deps.len(), 1);
    assert_eq!(r.test_deps[0].artifact_id, "spring-boot-starter-test");
    assert!(!r.has_jpa);
    assert!(r.boms.is_empty());
    assert!(r.repositories.is_empty());
}

#[test]
fn resolve_collects_boms_and_repositories_once() {
    let sel = vec!["data-jpa".to_string(), "data-jpa".to_string()];
    let r = resolve_dependencies(&sel, &catalog());
    assert!(r.has_jpa);
    // A BOM-managed dependency has no version of its own.
    assert_eq!(r.compile_deps[0].version, "");
    assert_eq!(r.boms.len(), 1);
    assert_eq!(r.boms[0].artifact_id, "spring-cloud-dependencies");
    assert_eq!(r.repositories.len(), 1);
    assert_eq!(r.repositories[0].id, "milestones");
    assert_eq!(r.repositories[0].snapshot_enabled, "false");
}

#[test]
fn pascal_case_is_empty_only_for_separators() {
    assert_eq!(to_pascal_case("-_ -"), "");
    assert_eq!(to_pascal_case("-_x-"), "X");
    assert_eq!(application_name("- _", ""), "Application");
}
