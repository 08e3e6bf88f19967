use tspring::generator::{plan_project, resolve_dependencies, DepCatalog, RawDep};
use tspring::model::NewProjectParams;
use tspring::render::{render_files, template_context};

fn project(description: &str) -> NewProjectParams {
    NewProjectParams {
        boot_version: "3.4.5.RELEASE".into(),
        language: "java".into(),
        packaging: "jar".into(),
        java_version: "21".into(),
        project_type: "maven-project".into(),
        group_id: "com.test".into(),
        artifact_id: "shop".into(),
        version: "0.0.1-SNAPSHOT".into(),
        name: "shop".into(),
        description: description.into(),
        package_name: "com.test.shop".into(),
        dependencies: vec!["web".into(), "h2".into()],
        output_dir: "/tmp/out".into(),
    }
}

fn catalog() -> DepCatalog {
    let dep = |artifact: &str, scope: Option<&str>| RawDep {
        group_id: "org.example".into(),
        artifact_id: artifact.into(),
        scope: scope.map(String::from),
        version: None,
        bom: None,
        repository: None,
    };
    let mut c = DepCatalog::new();
    c.insert_dependency("web".into(), dep("starter-web", None));
    c.insert_dependency("h2".into(), dep("h2", Some("runtime")));
    c
}

fn all_templates() -> Vec<(String, String)> {
    let t = |name: &str, text: &str| (name.to_string(), text.to_string());
    vec![
        t(
            "pom.xml",
            "<p>{{ description }}</p><v>{{ boot_version }}</v>{% for d in compile_deps %}<c>{{ d.artifact_id }}</c>{% endfor %}{% for d in runtime_deps %}<r>{{ d.artifact_id }}</r>{% endfor %}{% for d in test_deps %}<t>{{ d.artifact_id }}</t>{% endfor %}{{ has_jpa }}",
        ),
        t("maven-wrapper.properties", "wrapper {{ not rendered }}"),
        t("gitignore-maven", "target/"),
        t("gitattributes-maven", "* text"),
        t("Application.java", "class {{ application_name }} in {{ package_name }}"),
        t("ApplicationTests.java", "class {{ application_name }}Tests"),
        t("application.properties", "spring.application.name={{ name }}"),
    ]
}

#[test]
fn context_holds_the_project_values() {
    let p = project("Shop");
    let plan = plan_project(&p);
    let ctx = template_context(&plan, &resolve_dependencies(&p.dependencies, &catalog()), &p);
    assert!(ctx.texts.contains(&("boot_version".to_string(), "3.4.5".to_string())));
    assert!(ctx.texts.contains(&("application_name".to_string(), "Shop".to_string())));
    assert!(ctx.texts.contains(&("kotlin_version".to_string(), "2.2.21".to_string())));
    assert_eq!(ctx.flags, vec![("has_jpa".to_string(), false)]);
    let runtime = &ctx.lists.iter().find(|(k, _)| k == "runtime_deps").unwrap().1;
    assert_eq!(runtime.len(), 1);
    assert!(runtime[0].contains(&("artifact_id".to_string(), "h2".to_string())));
}

#[test]
fn files_are_rendered_with_xml_escaping_for_the_pom() {
    let p = project("Fish & Chips");
    let plan = plan_project(&p);
    let ctx = template_context(&plan, &resolve_dependencies(&p.dependencies, &catalog()), &p);
    let files = render_files(&plan, &ctx, &all_templates()).unwrap();
    assert_eq!(files.len(), plan.files.len());
    assert_eq!(files[0].0, "pom.xml");
    assert_eq!(
        files[0].1,
        "<p>Fish &amp; Chips</p><v>3.4.5</v><c>starter-web</c><r>h2</r><t>spring-boot-starter-test</t>False"
    );
    assert_eq!(files[1].1, "wrapper {{ not rendered }}");
    let app = files.iter().find(|(path, _)| path.ends_with("Shop.java")).unwrap();
    assert_eq!(app.1, "class Shop in com.test.shop");
    let props = files.iter().find(|(path, _)| path.ends_with("application.properties")).unwrap();
    assert_eq!(props.1, "spring.application.name=shop");
}

#[test]
fn a_missing_template_is_an_error() {
    let p = project("Shop");
    let plan = plan_project(&p);
    let ctx = template_context(&plan, &resolve_dependencies(&p.dependencies, &catalog()), &p);
    let mut templates = all_templates();
    templates.retain(|(name, _)| name != "Application.java");
    assert_eq!(render_files(&plan, &ctx, &templates), Err("missing template Application.java".to_string()));
}

#[test]
fn a_broken_template_reports_the_renderer_error() {
    let p = project("Shop");
    let plan = plan_project(&p);
    let ctx = template_context(&plan, &resolve_dependencies(&p.dependencies, &catalog()), &p);
    let mut templates = all_templates();
    templates[0].1 = "{% for %}".to_string();
    assert!(render_files(&plan, &ctx, &templates).is_err());
}
