use electron_tasje::archive::{dest_ok_exec, pack_asar_archive, ArchiveFile};
use electron_tasje::error::Error;

fn file(dest: &str, data: &[u8]) -> ArchiveFile {
    ArchiveFile { dest: dest.to_string(), data: data.to_vec() }
}

#[test]
fn test_archive_round_trip() {
    let files = vec![
        file("app.js", b"console.log(1);"),
        file("lib/util.js", b"module.exports = {};"),
    ];
    let blob = pack_asar_archive(&files).unwrap();
    let reader = asar::AsarReader::new(&blob, None).unwrap();
    assert_eq!(reader.files().len(), 2);
    let app_js = reader
        .files()
        .iter()
        .find(|(path, _)| path.to_str() == Some("app.js"))
        .map(|(_, f)| f.data().to_vec())
        .unwrap();
    assert_eq!(app_js, b"console.log(1);");
    let util_js = reader
        .files()
        .iter()
        .find(|(path, _)| path.to_str() == Some("lib/util.js"))
        .map(|(_, f)| f.data().to_vec())
        .unwrap();
    assert_eq!(util_js, b"module.exports = {};");
}

#[test]
fn test_archive_rejects_duplicate_destinations() {
    let files = vec![file("same.txt", b"a"), file("same.txt", b"b")];
    assert!(matches!(pack_asar_archive(&files).unwrap_err(), Error::Archive(_)));
}

#[test]
fn test_archive_rejects_malformed_destinations() {
    let files = vec![file("../escape.txt", b"x")];
    assert!(matches!(pack_asar_archive(&files).unwrap_err(), Error::Archive(_)));
    let files = vec![file("", b"x")];
    assert!(matches!(pack_asar_archive(&files).unwrap_err(), Error::Archive(_)));
}

#[test]
fn test_destination_wellformedness() {
    assert!(dest_ok_exec("a.txt"));
    assert!(dest_ok_exec("dir/sub/file.bin"));
    assert!(dest_ok_exec("a.b.c"));
    assert!(!dest_ok_exec(""));
    assert!(!dest_ok_exec("/rooted"));
    assert!(!dest_ok_exec("trailing/"));
    assert!(!dest_ok_exec("double//slash"));
    assert!(!dest_ok_exec("./dotted"));
    assert!(!dest_ok_exec("up/../and/over"));
    assert!(!dest_ok_exec("a/./b"));
    assert!(dest_ok_exec("not..dotted"));
    assert!(dest_ok_exec(".hidden"));
}
