use electron_tasje::app::{config_format_of_extension, scripted_config_outcome, App, ConfigFormat};
use electron_tasje::doc::DocValue;
use electron_tasje::environment::Platform;
use electron_tasje::error::Error;
use electron_tasje::package::Package;

fn obj(entries: Vec<(&str, DocValue)>) -> DocValue {
    DocValue::Obj(entries.into_iter().map(|(k, v)| (k.to_string(), v)).collect())
}

fn s(v: &str) -> DocValue {
    DocValue::Str(v.to_string())
}

static LINUX: Platform = Platform::Linux;

fn sample_package_doc(extra_metadata: Option<DocValue>) -> DocValue {
    let mut build_entries = vec![
        ("files", s("build/**/*")),
        ("asarUnpack", s("node_modules/sharp/**/*")),
    ];
    if let Some(m) = extra_metadata {
        build_entries.push(("extraMetadata", m));
    }
    obj(vec![
        ("name", s("electron_tasje")),
        ("version", s("0.2.0")),
        ("description", s("Packs Electron apps")),
        ("executableName", s("tasje")),
        ("productName", s("Tasje")),
        ("build", obj(build_entries)),
    ])
}

fn sample_app(extra_metadata: Option<DocValue>) -> App {
    let package = Package::from_doc(sample_package_doc(extra_metadata)).unwrap();
    match App::from_package_doc(package, "/work".to_string()) {
        Ok(app) => app,
        Err(_) => panic!("the sample package carries its own build section"),
    }
}

#[test]
fn test_parse() {
    let app = sample_app(None);
    assert_eq!(app.description(LINUX).map(String::as_str), Some("Packs Electron apps"));
    assert_eq!(app.executable_name(LINUX).unwrap(), "tasje");
    assert_eq!(app.product_name(LINUX), "Tasje");
    assert_eq!(app.desktop_name(LINUX).unwrap(), "electron_tasje.desktop");
}

#[test]
fn test_patched_package() {
    let metadata = obj(vec![("name", s("fake_electron_tasje"))]);
    let app = sample_app(Some(metadata));
    let patched = app.patched_package(LINUX);
    match patched.get("name") {
        Some(DocValue::Str(n)) => assert_eq!(n, "fake_electron_tasje"),
        _ => panic!("the patched manifest must hold the overridden name"),
    }
    match patched.get("version") {
        Some(DocValue::Str(v)) => assert_eq!(v, "0.2.0"),
        _ => panic!("untouched keys must survive patching"),
    }
    match &patched {
        DocValue::Obj(entries) => {
            assert_eq!(entries[0].0, "name");
            assert_eq!(entries.len(), 6);
        },
        _ => panic!("the patched manifest is a mapping"),
    }
}

#[test]
fn test_patched_package_without_metadata_is_identity() {
    let app = sample_app(None);
    let patched = app.patched_package(LINUX);
    match patched.get("name") {
        Some(DocValue::Str(n)) => assert_eq!(n, "electron_tasje"),
        _ => panic!("the name must be untouched"),
    }
    match patched.get("description") {
        Some(DocValue::Str(d)) => assert_eq!(d, "Packs Electron apps"),
        _ => panic!("the description must be untouched"),
    }
    match &patched {
        DocValue::Obj(entries) => assert_eq!(entries.len(), 6),
        _ => panic!("the patched manifest is a mapping"),
    }
}

#[test]
fn test_patched_package_adds_new_keys() {
    let metadata = obj(vec![("homepage", s("https://example.invalid"))]);
    let app = sample_app(Some(metadata));
    let patched = app.patched_package(LINUX);
    match patched.get("homepage") {
        Some(DocValue::Str(h)) => assert_eq!(h, "https://example.invalid"),
        _ => panic!("new metadata keys are appended"),
    }
}

#[test]
fn test_output_dir_defaults_and_overrides() {
    let app = sample_app(None);
    assert_eq!(app.output_dir(LINUX), "/work/tasje_out");

    let package_doc = obj(vec![
        ("name", s("electron_tasje")),
        ("version", s("0.2.0")),
        ("build", obj(vec![("directories", obj(vec![("output", s("dist"))]))])),
    ]);
    let package = Package::from_doc(package_doc).unwrap();
    let app = App::from_package_doc(package, "/work".to_string()).ok().unwrap();
    assert_eq!(app.output_dir(LINUX), "/work/dist");
}

#[test]
fn test_icon_locations_under_root() {
    let app = sample_app(None);
    assert_eq!(
        app.icon_locations(),
        vec!["/work/build/icon.icns".to_string(), "/work/build/icon.ico".to_string()]
    );
}

#[test]
fn test_package_without_build_hands_everything_back() {
    let package_doc = obj(vec![("name", s("plain")), ("version", s("1.0.0"))]);
    let package = Package::from_doc(package_doc).unwrap();
    match App::from_package_doc(package, "/work".to_string()) {
        Ok(_) => panic!("a package without a build section cannot carry its own config"),
        Err((package, root)) => {
            assert_eq!(package.manifest.name, "plain");
            assert_eq!(root, "/work");
        },
    }
}

#[test]
fn test_package_requires_name_and_version() {
    let doc = obj(vec![("version", s("1.0.0"))]);
    assert!(matches!(Package::from_doc(doc).err().unwrap(), Error::ConfigParse(_)));
    let doc = obj(vec![("name", s("x"))]);
    assert!(matches!(Package::from_doc(doc).err().unwrap(), Error::ConfigParse(_)));
}

#[test]
fn test_config_format_of_extension() {
    assert_eq!(config_format_of_extension(Some("json")).unwrap(), ConfigFormat::Json);
    assert_eq!(config_format_of_extension(Some("yaml")).unwrap(), ConfigFormat::Yaml);
    assert_eq!(config_format_of_extension(Some("yml")).unwrap(), ConfigFormat::Yaml);
    assert_eq!(config_format_of_extension(Some("toml")).unwrap(), ConfigFormat::Toml);
    assert_eq!(config_format_of_extension(Some("json5")).unwrap(), ConfigFormat::Json5);
    assert_eq!(config_format_of_extension(Some("js")).unwrap(), ConfigFormat::Js);
    assert_eq!(config_format_of_extension(Some("mjs")).unwrap(), ConfigFormat::Mjs);
    assert!(matches!(
        config_format_of_extension(None).unwrap_err(),
        Error::NoConfigFileExtension
    ));
    assert!(matches!(
        config_format_of_extension(Some("ini")).unwrap_err(),
        Error::UnknownConfigFileExtension(e) if e == "ini"
    ));
}

#[test]
fn test_scripted_config_outcome() {
    assert!(scripted_config_outcome(Some(0), None).is_ok());
    let err = scripted_config_outcome(Some(3), Some("boom".to_string())).unwrap_err();
    assert!(matches!(
        err,
        Error::ConfigChild { status_code: Some(3), stderr: Some(st) } if st == "boom"
    ));
    let err = scripted_config_outcome(None, None).unwrap_err();
    assert!(matches!(err, Error::ConfigChild { status_code: None, stderr: None }));
}
