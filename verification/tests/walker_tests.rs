use electron_tasje::app::App;
use electron_tasje::config::CopyDef;
use electron_tasje::doc::DocValue;
use electron_tasje::environment::{Architecture, Environment, Platform};
use electron_tasje::pack::PackingProcessBuilder;
use electron_tasje::package::Package;
use electron_tasje::walker::{plan_walk, select_scope, Matcher, WalkScope};

fn x64_linux() -> Environment {
    Environment { architecture: Architecture::X86_64, platform: Platform::Linux }
}

fn no_vars() -> Vec<(String, String)> {
    Vec::new()
}

fn listing(paths: &[&str]) -> Vec<String> {
    paths.iter().map(|p| p.to_string()).collect()
}

fn scope_matcher(scope: &WalkScope) -> Matcher {
    Matcher::new(&scope.filters).unwrap()
}

#[test]
fn test_walking() {
    let defs = vec![
        CopyDef::Simple("build/**/*".to_string()),
        CopyDef::Simple("cuild/**/*".to_string()),
    ];
    let plan = plan_walk(&defs, &x64_linux(), &no_vars()).unwrap();
    assert!(plan.scopes.is_empty());
    let global = plan.global.unwrap();
    let matcher = scope_matcher(&global);
    let walked = listing(&[
        "package.json",
        "build/bundle.aoeuid.js",
        "cuild/bundle.aoeuid.js",
    ]);
    let triples = select_scope("test_assets", &global, &matcher, None, &walked);
    let dests: Vec<String> = triples.iter().map(|t| t.1.clone()).collect();
    assert_eq!(
        dests,
        vec!["build/bundle.aoeuid.js".to_string(), "cuild/bundle.aoeuid.js".to_string()]
    );
    assert_eq!(triples[0].0, "test_assets/build/bundle.aoeuid.js");
    assert!(!triples[0].2);
}

#[test]
fn test_walking_scoped_destinations() {
    let defs = vec![CopyDef::Scoped(electron_tasje::config::FileSet {
        from: Some("hx".to_string()),
        to: Some("mz".to_string()),
        filter: vec!["**/*".to_string(), "!hx/foo/*.js".to_string()],
    })];
    let plan = plan_walk(&defs, &x64_linux(), &no_vars()).unwrap();
    assert!(plan.global.is_none());
    assert_eq!(plan.scopes.len(), 1);
    let scope = &plan.scopes[0];
    let matcher = scope_matcher(scope);
    let walked = listing(&["a.txt", "foo/b.js", "foo/c.txt"]);
    let triples = select_scope("/root_dir", scope, &matcher, None, &walked);
    let pairs: Vec<(String, String)> =
        triples.iter().map(|t| (t.0.clone(), t.1.clone())).collect();
    assert_eq!(
        pairs,
        vec![
            ("/root_dir/hx/a.txt".to_string(), "mz/a.txt".to_string()),
            ("/root_dir/hx/foo/c.txt".to_string(), "mz/foo/c.txt".to_string()),
        ]
    );
}

#[test]
fn test_walking_negative_only_set_still_emits() {
    let defs = vec![CopyDef::Scoped(electron_tasje::config::FileSet {
        from: Some("sub".to_string()),
        to: Some("out".to_string()),
        filter: vec!["!sub/skip/**/*".to_string()],
    })];
    let plan = plan_walk(&defs, &x64_linux(), &no_vars()).unwrap();
    let scope = &plan.scopes[0];
    assert_eq!(scope.filters[0], "**/*");
    let matcher = scope_matcher(scope);
    let walked = listing(&["kept.txt", "skip/gone.txt"]);
    let triples = select_scope("/r", scope, &matcher, None, &walked);
    let dests: Vec<String> = triples.iter().map(|t| t.1.clone()).collect();
    assert_eq!(dests, vec!["out/kept.txt".to_string()]);
}

#[test]
fn test_walking_degenerate_set_is_dropped() {
    let defs = vec![CopyDef::Scoped(electron_tasje::config::FileSet {
        from: Some("dir".to_string()),
        to: None,
        filter: Vec::new(),
    })];
    let plan = plan_walk(&defs, &x64_linux(), &no_vars()).unwrap();
    assert!(plan.global.is_none());
    assert!(plan.scopes.is_empty());
}

#[test]
fn test_walking_expands_templates() {
    let defs = vec![CopyDef::Simple("tasje-${arch}-${platform}/**/*".to_string())];
    let env = Environment { architecture: Architecture::Aarch64, platform: Platform::Linux };
    let plan = plan_walk(&defs, &env, &no_vars()).unwrap();
    let global = plan.global.unwrap();
    assert_eq!(global.filters, vec!["tasje-arm64-linux/**/*".to_string()]);
}

#[test]
fn test_walking_unpack_flag() {
    let defs = vec![CopyDef::Simple("**/*".to_string())];
    let plan = plan_walk(&defs, &x64_linux(), &no_vars()).unwrap();
    let global = plan.global.unwrap();
    let matcher = scope_matcher(&global);
    let unpack = Matcher::new(&vec!["node_modules/sharp/**/*".to_string()]).unwrap();
    let walked = listing(&["app.js", "node_modules/sharp/lib.node"]);
    let triples = select_scope("/r", &global, &matcher, Some(&unpack), &walked);
    assert_eq!(triples.len(), 2);
    assert!(!triples[0].2);
    assert!(triples[1].2);
}

#[test]
fn test_matcher_rejects_malformed_pattern() {
    let err = Matcher::new(&vec!["{".to_string()]).err().unwrap();
    assert!(matches!(err, electron_tasje::error::Error::Pattern(_)));
    assert!(Matcher::new(&vec!["**/*".to_string()]).is_ok());
}

#[test]
fn test_plan_walk_reports_first_failure() {
    let defs = vec![
        CopyDef::Simple("${arch}/**/*".to_string()),
        CopyDef::Simple("${bogusone}".to_string()),
        CopyDef::Simple("${bogustwo}".to_string()),
    ];
    let err = plan_walk(&defs, &x64_linux(), &no_vars()).err().unwrap();
    assert!(matches!(
        err,
        electron_tasje::error::Error::UnknownTemplateVariable(v) if v == "bogusone"
    ));
}

#[test]
fn test_forced_excludes() {
    let package_doc = DocValue::Obj(vec![
        ("name".to_string(), DocValue::Str("electron_tasje".to_string())),
        ("version".to_string(), DocValue::Str("0.2.0".to_string())),
        (
            "build".to_string(),
            DocValue::Obj(vec![(
                "files".to_string(),
                DocValue::Str("**/*".to_string()),
            )]),
        ),
    ]);
    let package = Package::from_doc(package_doc).unwrap();
    let app = App::from_package_doc(package, "/proj".to_string()).ok().unwrap();
    let process = PackingProcessBuilder::new(app).target_environment(x64_linux()).build();
    let files = process.compose_files();
    let plan = plan_walk(&files, &x64_linux(), &no_vars()).unwrap();
    let global = plan.global.unwrap();
    let matcher = scope_matcher(&global);
    let walked = listing(&[
        "README.md",
        "package-lock.json",
        "foo.spec.js",
        "src/index.js",
        "package.json",
    ]);
    let triples = select_scope("/proj", &global, &matcher, None, &walked);
    let dests: Vec<String> = triples.iter().map(|t| t.1.clone()).collect();
    assert_eq!(dests, vec!["src/index.js".to_string(), "package.json".to_string()]);
}
