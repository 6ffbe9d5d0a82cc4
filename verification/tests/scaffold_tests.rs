use ts_scaffold::scaffold::{
    Action, Answers, DirProbe, Plan, ProjectRequest, build_plan, is_valid_project_name,
    vcs_prompt_needed,
};
use ts_scaffold::templates::{
    TemplateStore, compiler_config_content, package_manifest_content,
};

const TSCONFIG_PLAIN: &str = "{\n  \"compilerOptions\": {\n    \"target\": \"ES2022\",\n    \"module\": \"ES2022\",\n    \"moduleResolution\": \"node\",\n    \"outDir\": \"dist\",\n    \"rootDir\": \"src\",\n    \"esModuleInterop\": true,\n    \"skipLibCheck\": true\n  }\n}";

const TSCONFIG_STRICT: &str = "{\n  \"compilerOptions\": {\n    \"target\": \"ES2022\",\n    \"module\": \"ES2022\",\n    \"moduleResolution\": \"node\",\n    \"outDir\": \"dist\",\n    \"rootDir\": \"src\",\n    \"esModuleInterop\": true,\n    \"skipLibCheck\": true,\n    \"strict\": true,\n    \"noUncheckedIndexedAccess\": true,\n    \"noImplicitOverride\": true\n  }\n}";

const PACKAGE_DEMO: &str = "{\n  \"name\": \"demo\",\n  \"version\": \"0.1.0\",\n  \"main\": \"src/main.ts\",\n  \"scripts\": {\n    \"build\": \"tsc\",\n    \"start\": \"node dist/main.js\"\n  }\n}";

fn fresh_probe() -> DirProbe {
    DirProbe { root_exists: false, git_dir_exists: false, src_dir_exists: false }
}

fn plan_for(name: &str, probe: DirProbe, init_vcs: bool, strict: bool) -> Plan {
    let req = ProjectRequest { name: name.to_owned() };
    assert!(is_valid_project_name(&req.name));
    build_plan(&req, &probe, &Answers { init_vcs, strict }, TemplateStore::bundled())
}

#[test]
fn fresh_run_with_vcs_and_strict() {
    let plan = plan_for("demo", fresh_probe(), true, true);
    let a = &plan.actions;
    assert_eq!(a.len(), 7);
    assert!(matches!(&a[0], Action::CreateRootDir { path } if path == "demo"));
    assert!(matches!(&a[1], Action::VcsInit { workdir } if workdir == "demo"));
    assert!(
        matches!(&a[2], Action::WriteFile { path, content }
            if path == "demo/.gitignore" && content == "node_modules\ndist\n")
    );
    assert!(
        matches!(&a[3], Action::WriteFile { path, content }
            if path == "demo/tsconfig.json" && content == TSCONFIG_STRICT)
    );
    assert!(
        matches!(&a[4], Action::WriteFile { path, content }
            if path == "demo/package.json" && content == PACKAGE_DEMO)
    );
    assert!(matches!(&a[5], Action::CreateSrcDir { path } if path == "demo/src"));
    assert!(
        matches!(&a[6], Action::WriteFile { path, content }
            if path == "demo/src/main.ts" && content.starts_with("function main()"))
    );
}

#[test]
fn existing_src_dir_is_left_alone() {
    let mut probe = fresh_probe();
    probe.src_dir_exists = true;
    let plan = plan_for("demo", probe, true, true);
    for action in &plan.actions {
        assert!(!matches!(action, Action::CreateSrcDir { .. }));
        if let Action::WriteFile { path, .. } = action {
            assert_ne!(path, "demo/src/main.ts");
        }
    }
    assert_eq!(plan.actions.len(), 5);
}

#[test]
fn existing_git_dir_skips_vcs_and_ignore_file() {
    let mut probe = fresh_probe();
    probe.git_dir_exists = true;
    assert!(!vcs_prompt_needed(&probe));
    let plan = plan_for("demo", probe, true, true);
    for action in &plan.actions {
        assert!(!matches!(action, Action::VcsInit { .. }));
        if let Action::WriteFile { path, .. } = action {
            assert_ne!(path, "demo/.gitignore");
        }
    }
}

#[test]
fn declined_vcs_writes_no_ignore_file() {
    let plan = plan_for("demo", fresh_probe(), false, false);
    for action in &plan.actions {
        assert!(!matches!(action, Action::VcsInit { .. }));
        if let Action::WriteFile { path, .. } = action {
            assert_ne!(path, "demo/.gitignore");
        }
    }
    assert_eq!(plan.actions.len(), 5);
}

#[test]
fn second_run_is_idempotent() {
    let first = plan_for("demo", fresh_probe(), true, true);
    assert!(first.actions.iter().any(|a| matches!(a, Action::VcsInit { .. })));
    let after = DirProbe { root_exists: true, git_dir_exists: true, src_dir_exists: true };
    let second = plan_for("demo", after, true, true);
    assert_eq!(second.actions.len(), 2);
    for action in &second.actions {
        assert!(!matches!(action, Action::VcsInit { .. }));
        assert!(!matches!(action, Action::CreateSrcDir { .. }));
        if let Action::WriteFile { path, .. } = action {
            assert_ne!(path, "demo/src/main.ts");
            assert_ne!(path, "demo/.gitignore");
        }
    }
}

#[test]
fn manifest_name_matches_request_exactly() {
    for name in ["demo", "my-project", "a", "pkg_2"] {
        let store = TemplateStore::bundled();
        let text = package_manifest_content(store.package_manifest, &name.to_owned());
        let parsed: serde_json::Value = serde_json::from_str(&text).expect("manifest must parse");
        assert_eq!(parsed["name"], serde_json::Value::String(name.to_owned()));
        assert_eq!(parsed["version"], serde_json::Value::String("0.1.0".to_owned()));
    }
}

#[test]
fn declined_strict_keeps_template_bytes() {
    let store = TemplateStore::bundled();
    let text = compiler_config_content(store.tsconfig, false);
    assert_eq!(text, TSCONFIG_PLAIN);
}

#[test]
fn confirmed_strict_adds_exactly_three_flags() {
    let store = TemplateStore::bundled();
    let text = compiler_config_content(store.tsconfig, true);
    assert_eq!(text, TSCONFIG_STRICT);
    let parsed: serde_json::Value = serde_json::from_str(&text).expect("config must parse");
    let co = parsed["compilerOptions"].as_object().expect("object");
    assert_eq!(co["strict"], serde_json::Value::Bool(true));
    assert_eq!(co["noUncheckedIndexedAccess"], serde_json::Value::Bool(true));
    assert_eq!(co["noImplicitOverride"], serde_json::Value::Bool(true));
    assert_eq!(co["target"], serde_json::Value::String("ES2022".to_owned()));
    assert_eq!(co.len(), 10);
}

#[test]
fn project_name_validation() {
    assert!(is_valid_project_name(&"demo".to_owned()));
    assert!(is_valid_project_name(&"my-project_2".to_owned()));
    assert!(is_valid_project_name(&"...".to_owned()));
    assert!(!is_valid_project_name(&"".to_owned()));
    assert!(!is_valid_project_name(&".".to_owned()));
    assert!(!is_valid_project_name(&"..".to_owned()));
    assert!(!is_valid_project_name(&"a/b".to_owned()));
    assert!(!is_valid_project_name(&"a\"b".to_owned()));
    assert!(!is_valid_project_name(&"a\\b".to_owned()));
    assert!(!is_valid_project_name(&"a\nb".to_owned()));
}
