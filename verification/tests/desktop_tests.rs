use electron_tasje::app::App;
use electron_tasje::desktop::DesktopGenerator;
use electron_tasje::doc::DocValue;
use electron_tasje::environment::Platform;
use electron_tasje::error::Error;
use electron_tasje::package::Package;

fn obj(entries: Vec<(&str, DocValue)>) -> DocValue {
    DocValue::Obj(entries.into_iter().map(|(k, v)| (k.to_string(), v)).collect())
}

fn s(v: &str) -> DocValue {
    DocValue::Str(v.to_string())
}

static LINUX: Platform = Platform::Linux;

fn desktop_app() -> App {
    let package_doc = obj(vec![
        ("name", s("electron_tasje")),
        ("version", s("0.2.0")),
        ("description", s("Packs Electron apps")),
        ("executableName", s("tasje")),
        ("productName", s("Tasje")),
        (
            "build",
            obj(vec![
                (
                    "protocols",
                    DocValue::Arr(vec![
                        obj(vec![(
                            "schemes",
                            DocValue::Arr(vec![s("tasje"), s("ebuilder")]),
                        )]),
                        obj(vec![("schemes", DocValue::Arr(vec![s("electron-builder")]))]),
                    ]),
                ),
                (
                    "fileAssociations",
                    obj(vec![("ext", s("tas")), ("mimeType", s("application/x-tas"))]),
                ),
                (
                    "linux",
                    obj(vec![
                        ("category", s("Tools")),
                        ("desktop", obj(vec![("CustomField", s("custom_value"))])),
                    ]),
                ),
            ]),
        ),
    ]);
    let package = Package::from_doc(package_doc).unwrap();
    App::from_package_doc(package, "/work".to_string()).ok().unwrap()
}

#[test]
fn test_gen_desktop() {
    let app = desktop_app();
    let generator = DesktopGenerator::new();
    let expected = "[Desktop Entry]\n\
Name=Tasje\n\
Exec=/usr/bin/tasje %U\n\
Terminal=false\n\
Type=Application\n\
Icon=tasje\n\
CustomField=custom_value\n\
Comment=Packs Electron apps\n\
MimeType=x-scheme-handler/tasje;x-scheme-handler/ebuilder;x-scheme-handler/electron-builder;application/x-tas\n\
Categories=Tools\n";
    assert_eq!(generator.generate(&app, LINUX).unwrap(), expected);
}

#[test]
fn test_gen_desktop_minimal() {
    let package_doc = obj(vec![
        ("name", s("electron_tasje")),
        ("version", s("0.2.0")),
        ("productName", s("Tasje")),
        ("description", s("Packs Electron apps")),
        ("build", obj(vec![("files", s("build/**/*"))])),
    ]);
    let package = Package::from_doc(package_doc).unwrap();
    let app = App::from_package_doc(package, "/work".to_string()).ok().unwrap();
    let text = DesktopGenerator::new().generate(&app, LINUX).unwrap();
    assert!(text.starts_with("[Desktop Entry]\n"));
    assert!(text.contains("Name=Tasje\n"));
    assert!(text.contains("Exec=/usr/bin/electron_tasje %U\n"));
    assert!(text.contains("Icon=electron_tasje\n"));
    assert!(text.contains("Comment=Packs Electron apps\n"));
    assert!(!text.contains("MimeType="));
    assert!(!text.contains("Categories="));
    assert_eq!(app.desktop_name(LINUX).unwrap(), "electron_tasje.desktop");
}

#[test]
fn test_gen_desktop_invalid_name_fails() {
    let package_doc = obj(vec![("name", s("bad name!")), ("version", s("0.1.0"))]);
    let package = Package::from_doc(package_doc).unwrap();
    let (package, _) = App::from_package_doc(package, "/w".to_string()).err().unwrap();
    let config_doc = obj(vec![]);
    let config = electron_tasje::parse::parse_config(&config_doc).unwrap();
    let app = App::new(package, config, "/w".to_string());
    let err = DesktopGenerator::new().generate(&app, LINUX).unwrap_err();
    assert!(matches!(err, Error::InvalidPackageName(n) if n == "bad name!"));
}
