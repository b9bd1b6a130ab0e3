use electron_tasje::doc::DocValue;
use electron_tasje::environment::Platform;
use electron_tasje::config::CopyDef;
use electron_tasje::error::Error;
use electron_tasje::parse::parse_config;

fn obj(entries: Vec<(&str, DocValue)>) -> DocValue {
    DocValue::Obj(entries.into_iter().map(|(k, v)| (k.to_string(), v)).collect())
}

fn s(v: &str) -> DocValue {
    DocValue::Str(v.to_string())
}

static LINUX: Platform = Platform::Linux;

#[test]
fn test_parse_empty() {
    let doc = obj(vec![("files", DocValue::Null), ("asarUnpack", DocValue::Arr(Vec::new()))]);
    let bc = parse_config(&doc).unwrap();
    assert!(bc.files(LINUX).is_empty());
    assert!(bc.asar_unpack(LINUX).is_empty());
    assert!(bc.extra_resources(LINUX).is_empty());
}

#[test]
fn test_parse_single() {
    let doc = obj(vec![
        ("files", s("file.aoeu")),
        ("asarUnpack", s("*.aoeu")),
        ("extraResources", obj(vec![("from", s("dir"))])),
    ]);
    let bc = parse_config(&doc).unwrap();
    let files = bc.files(LINUX);
    assert_eq!(files.len(), 1);
    assert!(matches!(&files[0], CopyDef::Simple(g) if g == "file.aoeu"));
    assert_eq!(bc.asar_unpack(LINUX), &vec!["*.aoeu".to_string()]);
    let extra = bc.extra_resources(LINUX);
    assert_eq!(extra.len(), 1);
    match &extra[0] {
        CopyDef::Scoped(fs) => {
            assert_eq!(fs.from.as_deref(), Some("dir"));
            assert_eq!(fs.to, None);
            assert!(fs.filter.is_empty());
        },
        CopyDef::Simple(_) => panic!("expected a scoped copy"),
    }
}

#[test]
fn test_parse_multiple() {
    let doc = obj(vec![
        ("files", DocValue::Arr(vec![s("file.aoeu"), s("bestand.aoeu")])),
        ("asarUnpack", DocValue::Arr(vec![s("*.aoeu"), s("dir/")])),
        (
            "extraResources",
            DocValue::Arr(vec![
                obj(vec![("from", s("source")), ("filter", s("*"))]),
                s("dir1"),
                s("dir2"),
                obj(vec![
                    ("from", s("hx")),
                    ("to", s("mz")),
                    ("filter", DocValue::Arr(vec![s("**/*"), s("!foo/*.js")])),
                ]),
                obj(vec![("filter", DocValue::Arr(vec![s("LICENSE.txt")]))]),
            ]),
        ),
    ]);
    let bc = parse_config(&doc).unwrap();

    let files = bc.files(LINUX);
    assert_eq!(files.len(), 2);
    assert!(matches!(&files[0], CopyDef::Simple(g) if g == "file.aoeu"));
    assert!(matches!(&files[1], CopyDef::Simple(g) if g == "bestand.aoeu"));

    assert_eq!(bc.asar_unpack(LINUX), &vec!["*.aoeu".to_string(), "dir/".to_string()]);

    let extra = bc.extra_resources(LINUX);
    assert_eq!(extra.len(), 5);
    match &extra[0] {
        CopyDef::Scoped(fs) => {
            assert_eq!(fs.from.as_deref(), Some("source"));
            assert_eq!(fs.to, None);
            assert_eq!(fs.filter, vec!["*".to_string()]);
        },
        CopyDef::Simple(_) => panic!("expected a scoped copy"),
    }
    assert!(matches!(&extra[1], CopyDef::Simple(g) if g == "dir1"));
    assert!(matches!(&extra[2], CopyDef::Simple(g) if g == "dir2"));
    match &extra[3] {
        CopyDef::Scoped(fs) => {
            assert_eq!(fs.from.as_deref(), Some("hx"));
            assert_eq!(fs.to.as_deref(), Some("mz"));
            assert_eq!(fs.filter, vec!["**/*".to_string(), "!foo/*.js".to_string()]);
        },
        CopyDef::Simple(_) => panic!("expected a scoped copy"),
    }
    match &extra[4] {
        CopyDef::Scoped(fs) => {
            assert_eq!(fs.from, None);
            assert_eq!(fs.to, None);
            assert_eq!(fs.filter, vec!["LICENSE.txt".to_string()]);
        },
        CopyDef::Simple(_) => panic!("expected a scoped copy"),
    }
}

#[test]
fn test_parse_platform_override_wins() {
    let doc = obj(vec![
        ("files", s("base.js")),
        ("linux", obj(vec![("files", DocValue::Arr(vec![s("linux.js"), s("more.js")]))])),
    ]);
    let bc = parse_config(&doc).unwrap();
    let linux_files = bc.files(Platform::Linux);
    assert_eq!(linux_files.len(), 2);
    assert!(matches!(&linux_files[0], CopyDef::Simple(g) if g == "linux.js"));
    let win_files = bc.files(Platform::Windows);
    assert_eq!(win_files.len(), 1);
    assert!(matches!(&win_files[0], CopyDef::Simple(g) if g == "base.js"));
}

#[test]
fn test_parse_rejects_bad_shapes() {
    let doc = obj(vec![("files", DocValue::Bool(true))]);
    assert!(matches!(parse_config(&doc).err().unwrap(), Error::ConfigParse(_)));

    let doc = obj(vec![("desktop", s("not a mapping"))]);
    assert!(matches!(parse_config(&doc).err().unwrap(), Error::ConfigParse(_)));

    let doc = s("not a mapping at all");
    assert!(matches!(parse_config(&doc).err().unwrap(), Error::ConfigParse(_)));
}

#[test]
fn test_fileset_strips_dot_slash() {
    let doc = obj(vec![(
        "extraResources",
        obj(vec![("from", s("./dir")), ("to", s("./dest")), ("filter", s("*"))]),
    )]);
    let bc = parse_config(&doc).unwrap();
    let extra = bc.extra_resources(LINUX);
    match &extra[0] {
        CopyDef::Scoped(fs) => {
            assert_eq!(fs.from(), Some("dir"));
            assert_eq!(fs.to(), Some("dest"));
        },
        CopyDef::Simple(_) => panic!("expected a scoped copy"),
    }
}

#[test]
fn test_icon_locations_order_and_defaults() {
    let doc = obj(vec![
        ("icon", s("base.png")),
        ("linux", obj(vec![("icon", s("lin.png"))])),
    ]);
    let bc = parse_config(&doc).unwrap();
    let locations = bc.icon_locations();
    assert_eq!(
        locations,
        vec![
            "lin.png".to_string(),
            "build/icon.icns".to_string(),
            "build/icon.ico".to_string(),
            "base.png".to_string(),
        ]
    );
}
