use rustos::fs::{FileSystem, FsError};

#[test]
fn a_new_filesystem_is_an_empty_root() {
    let fs = FileSystem::new();
    assert!(fs.current_path().is_empty());
    let (files, dirs) = fs.list_files().expect("the root always resolves");
    assert!(files.is_empty());
    assert!(dirs.is_empty());
}

#[test]
fn created_files_are_listed_in_order() {
    let mut fs = FileSystem::new();
    assert_eq!(fs.create_file("b.txt".to_string()), Ok(()));
    assert_eq!(fs.create_file("a.txt".to_string()), Ok(()));
    let (files, dirs) = fs.list_files().unwrap();
    assert_eq!(files, vec!["b.txt".to_string(), "a.txt".to_string()]);
    assert!(dirs.is_empty());
}

#[test]
fn creating_a_file_twice_fails_and_changes_nothing() {
    let mut fs = FileSystem::new();
    assert_eq!(fs.create_file("x".to_string()), Ok(()));
    assert_eq!(fs.create_file("x".to_string()), Err(FsError::AlreadyExists));
    let (files, _) = fs.list_files().unwrap();
    assert_eq!(files.len(), 1);
}

#[test]
fn write_then_read_round_trips() {
    let mut fs = FileSystem::new();
    fs.create_file("notes".to_string()).unwrap();
    assert_eq!(fs.read_file("notes"), Some(Vec::new()));
    assert_eq!(fs.write_file("notes", b"hello there".to_vec()), Ok(()));
    assert_eq!(fs.read_file("notes"), Some(b"hello there".to_vec()));
}

#[test]
fn writing_a_missing_file_fails() {
    let mut fs = FileSystem::new();
    assert_eq!(fs.write_file("ghost", vec![1, 2, 3]), Err(FsError::NoSuchFile));
    assert_eq!(fs.read_file("ghost"), None);
}

#[test]
fn directories_nest_and_cd_walks_them() {
    let mut fs = FileSystem::new();
    assert_eq!(fs.create_directory("docs".to_string()), Ok(()));
    assert_eq!(fs.create_directory("docs".to_string()), Err(FsError::AlreadyExists));
    assert_eq!(fs.change_directory("docs".to_string()), Ok(()));
    assert_eq!(fs.current_path(), &vec!["docs".to_string()]);
    fs.create_file("inner".to_string()).unwrap();
    fs.write_file("inner", vec![42]).unwrap();
    assert_eq!(fs.read_file("inner"), Some(vec![42]));
    // back at the root, the file is out of sight but the directory is listed
    assert_eq!(fs.change_directory("..".to_string()), Ok(()));
    assert!(fs.current_path().is_empty());
    assert_eq!(fs.read_file("inner"), None);
    let (files, dirs) = fs.list_files().unwrap();
    assert!(files.is_empty());
    assert_eq!(dirs, vec!["docs".to_string()]);
    // and walking down again finds it back
    fs.change_directory("docs".to_string()).unwrap();
    assert_eq!(fs.read_file("inner"), Some(vec![42]));
}

#[test]
fn cd_dotdot_at_the_root_stays_at_the_root() {
    let mut fs = FileSystem::new();
    assert_eq!(fs.change_directory("..".to_string()), Ok(()));
    assert!(fs.current_path().is_empty());
}

#[test]
fn cd_does_not_check_the_target_and_later_operations_report_it() {
    let mut fs = FileSystem::new();
    // the current path resolves, so the unknown name is appended as it is
    assert_eq!(fs.change_directory("nowhere".to_string()), Ok(()));
    assert_eq!(fs.current_path(), &vec!["nowhere".to_string()]);
    // every operation now reports the unresolved current directory
    assert_eq!(fs.create_file("f".to_string()), Err(FsError::NotFound));
    assert_eq!(fs.create_directory("d".to_string()), Err(FsError::NotFound));
    assert_eq!(fs.write_file("f", vec![]), Err(FsError::NotFound));
    assert_eq!(fs.list_files(), Err(FsError::NotFound));
    assert_eq!(fs.read_file("f"), None);
    // a further cd cannot descend either, but `..` recovers
    assert_eq!(fs.change_directory("deeper".to_string()), Err(FsError::NotFound));
    assert_eq!(fs.change_directory("..".to_string()), Ok(()));
    assert!(fs.current_path().is_empty());
    assert!(fs.list_files().is_ok());
}

#[test]
fn same_file_name_may_exist_in_two_directories() {
    let mut fs = FileSystem::new();
    fs.create_file("readme".to_string()).unwrap();
    fs.write_file("readme", b"root".to_vec()).unwrap();
    fs.create_directory("sub".to_string()).unwrap();
    fs.change_directory("sub".to_string()).unwrap();
    fs.create_file("readme".to_string()).unwrap();
    fs.write_file("readme", b"sub".to_vec()).unwrap();
    assert_eq!(fs.read_file("readme"), Some(b"sub".to_vec()));
    fs.change_directory("..".to_string()).unwrap();
    assert_eq!(fs.read_file("readme"), Some(b"root".to_vec()));
}

#[test]
fn get_current_directory_exposes_the_resolved_directory() {
    let mut fs = FileSystem::new();
    fs.create_file("f".to_string()).unwrap();
    let dir = fs.get_current_directory().expect("the root resolves");
    assert_eq!(dir.name, "/");
    assert_eq!(dir.files.len(), 1);
    assert_eq!(dir.files[0].name, "f");
    fs.change_directory("gone".to_string()).unwrap();
    assert!(fs.get_current_directory().is_none());
}
