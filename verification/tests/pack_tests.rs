use electron_tasje::app::App;
use electron_tasje::config::CopyDef;
use electron_tasje::doc::DocValue;
use electron_tasje::environment::{Architecture, Environment, Platform};
use electron_tasje::pack::{forced_filters, PackingProcessBuilder};
use electron_tasje::package::Package;

fn obj(entries: Vec<(&str, DocValue)>) -> DocValue {
    DocValue::Obj(entries.into_iter().map(|(k, v)| (k.to_string(), v)).collect())
}

fn s(v: &str) -> DocValue {
    DocValue::Str(v.to_string())
}

fn x64_linux() -> Environment {
    Environment { architecture: Architecture::X86_64, platform: Platform::Linux }
}

fn minimal_app() -> App {
    let package_doc = obj(vec![
        ("name", s("electron_tasje")),
        ("version", s("0.2.0")),
        ("productName", s("Tasje")),
        ("description", s("Packs Electron apps")),
        (
            "build",
            obj(vec![
                ("files", DocValue::Arr(vec![s("build/**/*")])),
                ("asarUnpack", DocValue::Arr(vec![s("node_modules/sharp/**/*")])),
            ]),
        ),
    ]);
    let package = Package::from_doc(package_doc).unwrap();
    App::from_package_doc(package, "/proj".to_string()).ok().unwrap()
}

#[test]
fn test_minimal_pack_layout() {
    let process = PackingProcessBuilder::new(minimal_app())
        .target_environment(x64_linux())
        .build();
    assert_eq!(process.base_output_dir, "/proj/tasje_out");
    assert_eq!(process.resources_output_dir, "/proj/tasje_out/resources");
    assert_eq!(process.icons_output_dir, "/proj/tasje_out/icons");
    assert_eq!(
        process.app.desktop_name(Platform::Linux).unwrap(),
        "electron_tasje.desktop"
    );

    let files = process.compose_files();
    assert!(matches!(&files[0], CopyDef::Simple(g) if g == "node_modules/**/*"));
    assert!(matches!(&files[1], CopyDef::Simple(g) if g == "build/**/*"));
    let forced = forced_filters();
    assert_eq!(files.len(), 2 + forced.len());

    let unpack = process.compose_asar_unpack().unwrap();
    assert_eq!(unpack, vec!["node_modules/sharp/**/*".to_string()]);
}

#[test]
fn test_output_dir_override() {
    let process = PackingProcessBuilder::new(minimal_app())
        .base_output_dir("elsewhere")
        .target_environment(x64_linux())
        .build();
    assert_eq!(process.base_output_dir, "/proj/elsewhere");
}

#[test]
fn test_additional_globs_are_appended() {
    let process = PackingProcessBuilder::new(minimal_app())
        .target_environment(x64_linux())
        .additional_files(vec![CopyDef::Simple("extra/**/*".to_string())])
        .additional_asar_unpack(vec!["more/**/*".to_string()])
        .additional_extra_resources(vec![CopyDef::Simple("res/**/*".to_string())])
        .build();
    let files = process.compose_files();
    assert!(matches!(&files[2], CopyDef::Simple(g) if g == "extra/**/*"));
    let unpack = process.compose_asar_unpack().unwrap();
    assert_eq!(
        unpack,
        vec!["node_modules/sharp/**/*".to_string(), "more/**/*".to_string()]
    );
    let extra = process.compose_extra(&Vec::new());
    assert_eq!(extra.len(), 1);
    assert!(matches!(&extra[0], CopyDef::Simple(g) if g == "res/**/*"));
}

#[test]
fn test_unpack_list_absent_when_empty() {
    let package_doc = obj(vec![("name", s("x")), ("version", s("1.0.0")), ("build", obj(vec![]))]);
    let package = Package::from_doc(package_doc).unwrap();
    let app = App::from_package_doc(package, "/p".to_string()).ok().unwrap();
    let process = PackingProcessBuilder::new(app).target_environment(x64_linux()).build();
    assert!(process.compose_asar_unpack().is_none());
}

#[test]
fn test_forced_filters_shape() {
    let forced = forced_filters();
    assert_eq!(forced.len(), 15);
    for def in &forced {
        match def {
            CopyDef::Simple(g) => assert!(g.starts_with('!')),
            CopyDef::Scoped(_) => panic!("the fixed excludes are bare patterns"),
        }
    }
    assert!(matches!(&forced[0], CopyDef::Simple(g) if g == "!**/node_modules/.bin"));
    assert!(
        matches!(&forced[8], CopyDef::Simple(g) if g == "!**/{package-lock.json,yarn.lock}")
    );
}
