use isolated_path::error::{FilePathError, MissingFieldError, RecordField};
use isolated_path::key::IsolatedFilePathData;
use isolated_path::normalize::extract_normalized_materialized_path_str;
use isolated_path::record::{FieldCondition, FilePathRecord};
use isolated_path::validator::{FileNamePolicy, FilenameValidator};

fn check(
    actual: &IsolatedFilePathData,
    materialized_path: &str,
    is_dir: bool,
    name: &str,
    extension: &str,
    relative_path: &str,
    msg: &str,
) {
    assert_eq!(actual.location_id(), 1, "{msg}");
    assert_eq!(actual.materialized_path(), materialized_path, "{msg}");
    assert_eq!(actual.is_dir(), is_dir, "{msg}");
    assert_eq!(actual.name(), name, "{msg}");
    assert_eq!(actual.extension(), extension, "{msg}");
    assert_eq!(actual.relative_path(), relative_path, "{msg}");
}

fn key(full_path: &str, is_dir: bool) -> IsolatedFilePathData {
    IsolatedFilePathData::new(1, "/spacedrive/location", full_path, is_dir).unwrap()
}

#[test]
fn new_method() {
    let tester = |full_path, is_dir, expected: (&str, bool, &str, &str, &str), msg| {
        let actual = key(full_path, is_dir);
        check(&actual, expected.0, expected.1, expected.2, expected.3, expected.4, msg);
    };

    tester("/spacedrive/location", true, ("/", true, "", "", ""), "the location root directory");
    tester(
        "/spacedrive/location/file.txt",
        false,
        ("/", false, "file", "txt", "file.txt"),
        "a file in the root directory",
    );
    tester(
        "/spacedrive/location/dir",
        true,
        ("/", true, "dir", "", "dir"),
        "a directory in the root directory",
    );
    tester(
        "/spacedrive/location/dir/file.txt",
        false,
        ("/dir/", false, "file", "txt", "dir/file.txt"),
        "a directory with a file inside",
    );
    tester(
        "/spacedrive/location/dir/dir2",
        true,
        ("/dir/", true, "dir2", "", "dir/dir2"),
        "a directory in a directory",
    );
    tester(
        "/spacedrive/location/dir/dir2/dir3",
        true,
        ("/dir/dir2/", true, "dir3", "", "dir/dir2/dir3"),
        "3 level of directories",
    );
    tester(
        "/spacedrive/location/dir/dir2/dir3/file.txt",
        false,
        ("/dir/dir2/dir3/", false, "file", "txt", "dir/dir2/dir3/file.txt"),
        "a file inside a third level directory",
    );
}

#[test]
fn parent_method() {
    let tester = |full_path, is_dir, expected: (&str, bool, &str, &str, &str), msg| {
        let child = key(full_path, is_dir);
        let actual = child.parent();
        check(&actual, expected.0, expected.1, expected.2, expected.3, expected.4, msg);
    };

    tester("/spacedrive/location", true, ("/", true, "", "", ""), "the location root directory");
    tester(
        "/spacedrive/location/file.txt",
        false,
        ("/", true, "", "", ""),
        "a file in the root directory",
    );
    tester(
        "/spacedrive/location/dir",
        true,
        ("/", true, "", "", ""),
        "a directory in the root directory",
    );
    tester(
        "/spacedrive/location/dir/file.txt",
        false,
        ("/", true, "dir", "", "dir"),
        "a directory with a file inside",
    );
    tester(
        "/spacedrive/location/dir/dir2",
        true,
        ("/", true, "dir", "", "dir"),
        "a directory in a directory",
    );
    tester(
        "/spacedrive/location/dir/dir2/dir3",
        true,
        ("/dir/", true, "dir2", "", "dir/dir2"),
        "3 level of directories",
    );
    tester(
        "/spacedrive/location/dir/dir2/dir3/file.txt",
        false,
        ("/dir/dir2/", true, "dir3", "", "dir/dir2/dir3"),
        "a file inside a third level directory",
    );
}

#[test]
fn extract_normalized_materialized_path() {
    let tester = |path, expected: &str, msg| {
        let actual =
            extract_normalized_materialized_path_str(1, "/spacedrive/location", path).unwrap();
        assert_eq!(actual, expected, "{msg}");
    };

    tester("/spacedrive/location", "/", "the location root directory");
    tester("/spacedrive/location/file.txt", "/", "a file in the root directory");
    tester("/spacedrive/location/dir", "/", "a directory in the root directory");
    tester("/spacedrive/location/dir/file.txt", "/dir/", "a directory with a file inside");
    tester("/spacedrive/location/dir/dir2", "/dir/", "a directory in a directory");
    tester("/spacedrive/location/dir/dir2/dir3", "/dir/dir2/", "3 level of directories");
    tester(
        "/spacedrive/location/dir/dir2/dir3/file.txt",
        "/dir/dir2/dir3/",
        "a file inside a third level directory",
    );
}

#[test]
fn parent_of_file_is_key_of_its_directory() {
    let file = key("/spacedrive/location/dir/dir2/file.txt", false);
    let dir = key("/spacedrive/location/dir/dir2", true);
    let parent = file.parent();
    assert_eq!(parent, dir);
    assert_eq!(parent.relative_path(), dir.relative_path());
    let top = key("/spacedrive/location/file.txt", false).parent();
    assert_eq!(top, key("/spacedrive/location", true));
}

#[test]
fn stored_file_read_back_from_relative_path() {
    let stored = IsolatedFilePathData::from_db_data(
        1,
        false,
        "/dir/dir2/".to_string(),
        "file".to_string(),
        "txt".to_string(),
    );
    assert_eq!(stored.relative_path(), "dir/dir2/file.txt");
    let back = IsolatedFilePathData::from_relative_str(1, stored.relative_path());
    assert!(!back.is_dir());
    assert_eq!(back.name(), "file");
    assert_eq!(back.extension(), "txt");
    assert_eq!(back.materialized_path(), "/dir/dir2/");
    assert_eq!(back.relative_path(), "dir/dir2/file.txt");
    assert_eq!(back, stored);
}

#[test]
fn stored_top_level_file_reads_back() {
    let stored = IsolatedFilePathData::from_db_data(
        1,
        false,
        "/".to_string(),
        "file".to_string(),
        "txt".to_string(),
    );
    assert_eq!(stored.relative_path(), "file.txt");
    let back = IsolatedFilePathData::from_relative_str(1, stored.relative_path());
    assert_eq!(back.materialized_path(), "/");
    assert_eq!(back.name(), "file");
    assert_eq!(back.extension(), "txt");
    assert!(!back.is_dir());
}

#[test]
fn stored_directory_relative_path() {
    let stored = IsolatedFilePathData::from_db_data(
        1,
        true,
        "/dir/".to_string(),
        "dir2".to_string(),
        "".to_string(),
    );
    assert_eq!(stored.relative_path(), "dir/dir2");
    let no_ext = IsolatedFilePathData::from_db_data(
        1,
        false,
        "/dir/".to_string(),
        "README".to_string(),
        "".to_string(),
    );
    assert_eq!(no_ext.relative_path(), "dir/README");
}

#[test]
fn is_root_only_for_the_root() {
    assert!(key("/spacedrive/location", true).is_root());
    assert!(!key("/spacedrive/location/dir", true).is_root());
    assert!(!key("/spacedrive/location", false).is_root());
    assert!(!key("/spacedrive/location/file.txt", false).is_root());
}

#[test]
fn extension_is_lowercased() {
    let k = key("/spacedrive/location/dir/Photo.JPG", false);
    assert_eq!(k.name(), "Photo");
    assert_eq!(k.extension(), "jpg");
    assert_eq!(k.relative_path(), "dir/Photo.JPG");
    let mixed = key("/spacedrive/location/Ärger.ÄBC", false);
    assert_eq!(mixed.extension(), "äbc");
}

#[test]
fn directory_has_no_extension() {
    let k = key("/spacedrive/location/archive.d", true);
    assert_eq!(k.extension(), "");
    assert_eq!(k.name(), "archive.d");
    let stored = IsolatedFilePathData::from_db_data(
        1,
        true,
        "/".to_string(),
        "".to_string(),
        "txt".to_string(),
    );
    assert_eq!(stored.extension(), "");
    assert!(stored.is_root());
    let parent = stored.parent();
    assert_eq!(parent, stored);
    assert_eq!(parent.extension(), "");
}

#[test]
fn hidden_file_has_no_extension() {
    let k = key("/spacedrive/location/.hidden", false);
    assert_eq!(k.name(), ".hidden");
    assert_eq!(k.extension(), "");
    let plain = key("/spacedrive/location/Makefile", false);
    assert_eq!(plain.name(), "Makefile");
    assert_eq!(plain.extension(), "");
}

#[test]
fn parent_of_root_is_root() {
    let root = key("/spacedrive/location", true);
    let parent = root.parent();
    assert_eq!(parent, root);
    assert!(parent.is_root());
    assert_eq!(parent.relative_path(), "");
}

#[test]
fn path_outside_location_is_refused() {
    let err = IsolatedFilePathData::new(1, "/spacedrive/location", "/elsewhere/file.txt", false)
        .unwrap_err();
    match err {
        FilePathError::UnableToExtractMaterializedPath { location_id, path } => {
            assert_eq!(location_id, 1);
            assert_eq!(path, "/elsewhere/file.txt");
        }
        other => panic!("unexpected error {other:?}"),
    }
    assert!(IsolatedFilePathData::new(1, "/spacedrive/location", "/spacedrive/locationX", true)
        .is_err());
    assert!(extract_normalized_materialized_path_str(7, "/a", "/b/c").is_err());
}

#[test]
fn backslashes_become_slashes() {
    let k = key("/spacedrive/location/dir\\sub/file.txt", false);
    assert_eq!(k.relative_path(), "dir/sub/file.txt");
    assert_eq!(k.materialized_path(), "/dir/sub/");
}

#[test]
fn full_name_joins_extension() {
    assert_eq!(key("/spacedrive/location/dir/file.txt", false).full_name(), "file.txt");
    assert_eq!(key("/spacedrive/location/dir", true).full_name(), "dir");
}

#[test]
fn materialized_path_for_children_cases() {
    assert_eq!(key("/spacedrive/location", true).materialized_path_for_children(), Some("/".to_string()));
    assert_eq!(
        key("/spacedrive/location/dir/dir2", true).materialized_path_for_children(),
        Some("/dir/dir2/".to_string())
    );
    assert_eq!(key("/spacedrive/location/file.txt", false).materialized_path_for_children(), None);
}

#[test]
fn separate_name_and_extension_cases() {
    assert_eq!(
        IsolatedFilePathData::separate_name_and_extension_from_str("archive.tar.gz").unwrap(),
        ("archive.tar", "gz")
    );
    assert_eq!(
        IsolatedFilePathData::separate_name_and_extension_from_str(".bashrc").unwrap(),
        (".bashrc", "")
    );
    assert_eq!(
        IsolatedFilePathData::separate_name_and_extension_from_str("README").unwrap(),
        ("README", "")
    );
    match IsolatedFilePathData::separate_name_and_extension_from_str("dir/file.txt") {
        Err(FilePathError::InvalidFilenameAndExtension(s)) => assert_eq!(s, "dir/file.txt"),
        other => panic!("unexpected result {other:?}"),
    }
}

#[test]
fn separate_path_name_and_extension_cases() {
    assert_eq!(
        IsolatedFilePathData::separate_path_name_and_extension_from_str("/", true),
        ("/".to_string(), None, None)
    );
    assert_eq!(
        IsolatedFilePathData::separate_path_name_and_extension_from_str("/dir/dir2/", true),
        ("/dir/".to_string(), Some("dir2"), None)
    );
    assert_eq!(
        IsolatedFilePathData::separate_path_name_and_extension_from_str("/dir/file.txt", false),
        ("/dir/".to_string(), Some("file"), Some("txt"))
    );
    assert_eq!(
        IsolatedFilePathData::separate_path_name_and_extension_from_str("/dir/.hidden", false),
        ("/dir/".to_string(), Some(".hidden"), None)
    );
    assert_eq!(
        IsolatedFilePathData::separate_path_name_and_extension_from_str("file.txt", false),
        ("/".to_string(), Some("file"), Some("txt"))
    );
    assert_eq!(
        IsolatedFilePathData::separate_path_name_and_extension_from_str("dir/dir2", true),
        ("/dir/".to_string(), Some("dir2"), None)
    );
    assert_eq!(
        IsolatedFilePathData::separate_path_name_and_extension_from_str("", false),
        ("/".to_string(), None, None)
    );
    let dir = IsolatedFilePathData::from_relative_str(1, "/dir/dir2/");
    assert!(dir.is_dir());
    assert_eq!(dir.name(), "dir2");
    assert_eq!(dir.materialized_path(), "/dir/");
}

#[test]
fn constrained_policy_refuses_reserved_names() {
    let v = FilenameValidator::new(FileNamePolicy::Constrained).unwrap();
    assert!(!IsolatedFilePathData::accept_file_name(&v, "CON.txt"));
    assert!(IsolatedFilePathData::accept_file_name(&v, "report"));
    // The forbidden range runs up to U+0031, so it takes in '.' as well.
    assert!(!IsolatedFilePathData::accept_file_name(&v, "report.txt"));
    assert!(!v.accept("lpt3"));
    assert!(!v.accept("a:b"));
    assert!(!v.accept("what?"));
    assert!(!v.accept("a b"));
    assert!(!v.accept("file1"));
    assert!(v.accept("CONSOLE"));
    assert!(v.accept("notes_v9"));
}

#[test]
fn unconstrained_policy_refuses_slash_and_nul() {
    let v = FilenameValidator::new(FileNamePolicy::Unconstrained).unwrap();
    assert_eq!(v.policy(), FileNamePolicy::Unconstrained);
    assert!(v.accept("CON.txt"));
    assert!(v.accept("a b:c"));
    assert!(!v.accept("a/b"));
    assert!(!v.accept("a\0b"));
}

fn full_record() -> FilePathRecord {
    FilePathRecord {
        location_id: Some(3),
        is_dir: Some(false),
        materialized_path: Some("/dir/".to_string()),
        name: Some("file".to_string()),
        extension: Some("txt".to_string()),
    }
}

#[test]
fn record_rehydrates_key() {
    let k = IsolatedFilePathData::try_from_record(full_record()).unwrap();
    assert_eq!(k.location_id(), 3);
    assert_eq!(k.relative_path(), "dir/file.txt");
    let sel = k.to_selector();
    assert_eq!(sel.location_id, 3);
    assert_eq!(sel.materialized_path, "/dir/");
    assert_eq!(sel.name, "file");
    assert_eq!(sel.extension, "txt");
    let pred = k.to_predicate();
    assert_eq!(pred.all_of.len(), 4);
    assert!(matches!(pred.all_of[0], FieldCondition::LocationIdEquals(3)));
    assert!(matches!(&pred.all_of[1], FieldCondition::MaterializedPathEquals(m) if m == "/dir/"));
    assert!(matches!(&pred.all_of[2], FieldCondition::NameEquals(n) if n == "file"));
    assert!(matches!(&pred.all_of[3], FieldCondition::ExtensionEquals(e) if e == "txt"));
    let mut r = full_record();
    r.location_id = None;
    let k2 = IsolatedFilePathData::try_from_record_in_location(9, r).unwrap();
    assert_eq!(k2.location_id(), 9);
}

#[test]
fn record_missing_fields_are_named() {
    let cases: Vec<(fn(&mut FilePathRecord), RecordField)> = vec![
        (|r| r.location_id = None, RecordField::LocationId),
        (|r| r.is_dir = None, RecordField::IsDir),
        (|r| r.materialized_path = None, RecordField::MaterializedPath),
        (|r| r.name = None, RecordField::Name),
        (|r| r.extension = None, RecordField::Extension),
    ];
    for (clear, field) in cases {
        let mut r = full_record();
        clear(&mut r);
        let err = IsolatedFilePathData::try_from_record(r).unwrap_err();
        assert_eq!(err, MissingFieldError { field });
    }
    let mut r = full_record();
    r.name = None;
    r.extension = None;
    assert_eq!(
        IsolatedFilePathData::try_from_record(r).unwrap_err(),
        MissingFieldError { field: RecordField::Name }
    );
}

#[test]
fn new_with_extension_takes_extension_as_given() {
    let k = IsolatedFilePathData::new_with_extension(
        1,
        "/spacedrive/location",
        "/spacedrive/location/dir/file.TXT",
        false,
        "TXT".to_string(),
    )
    .unwrap();
    assert_eq!(k.extension(), "TXT");
    assert_eq!(k.name(), "file");
    assert_eq!(k.materialized_path(), "/dir/");
    let d = IsolatedFilePathData::new_with_extension(
        1,
        "/spacedrive/location",
        "/spacedrive/location/dir",
        true,
        "txt".to_string(),
    )
    .unwrap();
    assert_eq!(d.extension(), "");
}

#[test]
fn trailing_slashes_are_not_components() {
    let d = key("/spacedrive/location/dir/", true);
    assert_eq!(d.name(), "dir");
    assert_eq!(d.materialized_path(), "/");
    assert_eq!(d.relative_path(), "dir");
    let root = IsolatedFilePathData::new(1, "/spacedrive/location/", "/spacedrive/location", true)
        .unwrap();
    assert!(root.is_root());
    let f = IsolatedFilePathData::new(1, "/spacedrive/location/", "/spacedrive/location/a/f.txt", false)
        .unwrap();
    assert_eq!(f.materialized_path(), "/a/");
    assert_eq!(f.relative_path(), "a/f.txt");
}

#[test]
fn parent_of_file_in_dotted_directory() {
    let file = key("/spacedrive/location/a.b/f.txt", false);
    let dir = key("/spacedrive/location/a.b", true);
    assert_eq!(dir.name(), "a.b");
    let parent = file.parent();
    assert_eq!(parent, dir);
    assert_eq!(parent.relative_path(), dir.relative_path());
}

#[test]
fn root_is_stripped_by_components() {
    let k = IsolatedFilePathData::new(1, "/a//b", "/a/b/c", false).unwrap();
    assert_eq!(k.materialized_path(), "/");
    assert_eq!(k.name(), "c");
    assert_eq!(k.relative_path(), "c");
    assert_eq!(extract_normalized_materialized_path_str(1, "/a//b", "/a/b/c/d").unwrap(), "/c/");
    let d = IsolatedFilePathData::new(1, "/a", "/a//c", true).unwrap();
    assert_eq!(d.relative_path(), "c");
    assert_eq!(d.materialized_path(), "/");
    assert_eq!(d.name(), "c");
    let dot = IsolatedFilePathData::new(1, "/a", "/a/.", true).unwrap();
    assert!(dot.is_root());
    assert_eq!(dot.name(), "");
    let inner = IsolatedFilePathData::new(1, "/a", "/a/./x/../y.txt", false).unwrap();
    assert_eq!(inner.materialized_path(), "/x/../");
    assert_eq!(inner.name(), "y");
    let all = IsolatedFilePathData::new(1, "/", "/x/y.txt", false).unwrap();
    assert_eq!(all.materialized_path(), "/x/");
    assert_eq!(all.relative_path(), "x/y.txt");
    assert!(IsolatedFilePathData::new(1, "/a/b", "/a/bc", false).is_err());
}

#[test]
fn one_character_relative_text_is_the_root() {
    assert_eq!(
        IsolatedFilePathData::separate_path_name_and_extension_from_str("a", false),
        ("a".to_string(), None, None)
    );
    assert_eq!(
        IsolatedFilePathData::separate_path_name_and_extension_from_str("/", true),
        ("/".to_string(), None, None)
    );
}
