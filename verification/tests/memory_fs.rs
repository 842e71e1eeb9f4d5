use unifs::{ErrorKind, MemoryFs, UniDirEntry, UniFs, UniFsExt, UniMetadata, UniReadDir};

#[test]
fn test_canonicalize() {
    let mut fs = MemoryFs::new();
    let path = fs.canonicalize("/foo/../bar/./baz").unwrap();
    assert_eq!(path, "/bar/baz");

    let path = fs.canonicalize("foo/../../bar/./baz");
    assert!(path.is_err(), "Expected error for invalid path");

    fs.hard_link("/", "/link").unwrap();
    let link_path = fs.canonicalize("/link").unwrap();
    assert_eq!(link_path, "/");

    let path = fs.canonicalize("test").unwrap();
    assert_eq!(path, "/test");
}

#[test]
fn memory_fs_general_test() {
    let mut fs = MemoryFs::default();
    fs.create_dir("/test").unwrap();
    assert!(fs.try_exists("test").unwrap());

    fs.create_dir_all("/test/sub/dir").unwrap();
    assert!(fs.try_exists("test/sub/dir").unwrap());

    fs.create_new_file("/test/file.txt").unwrap();
    assert!(fs.try_exists("test/file.txt").unwrap());

    fs.write("test/file.txt", b"Hello, World!").unwrap();
    let content = fs.read("test/file.txt").unwrap();
    assert_eq!(content, b"Hello, World!");

    let content = fs.read_to_string("test/file.txt").unwrap();
    assert_eq!(content, "Hello, World!");

    fs.copy("/test/file.txt", "test/copy.txt").unwrap();
    let copy_content = fs.read("test/copy.txt").unwrap();
    assert_eq!(copy_content, b"Hello, World!");

    let mut listing = fs.read_dir("/test").unwrap();
    let mut directory_files = Vec::new();
    while let Some(entry) = listing.next() {
        if let Ok(e) = entry {
            directory_files.push(e.file_name());
        }
    }
    assert_eq!(directory_files, vec!["copy.txt", "file.txt", "sub"]);

    fs.remove_file("test/copy.txt").unwrap();
    assert!(!fs.try_exists("test/copy.txt").unwrap());

    assert!(fs.metadata("test/copy.txt").is_err());
    let metadata = fs.metadata("test/file.txt").unwrap();
    assert!(metadata.is_file());
    assert!(!metadata.is_dir());

    fs.rename("test", "test2").unwrap();
    assert!(!fs.try_exists("test").unwrap());
    assert!(fs.try_exists("test2").unwrap());

    let dir_metadata = fs.metadata("test2/sub/dir").unwrap();
    assert!(dir_metadata.is_dir());
    assert!(!dir_metadata.is_file());

    assert!(fs.remove_dir("test2/sub").is_err());
    fs.remove_dir("test2/sub/dir").unwrap();
    assert!(!fs.try_exists("test2/sub/dir").unwrap());

    let loaded_fs = MemoryFs::load_from_dir(&fs, "test2").unwrap();
    assert!(loaded_fs.try_exists("file.txt").unwrap());

    fs.remove_dir_all("test2").unwrap();
    assert!(!fs.try_exists("test2").unwrap());
    assert!(fs.read_dir("/test2").is_err());
}

#[test]
fn walk_dir_visits_the_whole_tree() {
    let mut fs = MemoryFs::new();
    fs.create_dir_all("/t/a/b").unwrap();
    fs.create_dir_all("/t/c").unwrap();
    fs.write("/t/a/b/deep", b"deep").unwrap();
    fs.write("/t/a/flat", b"flat").unwrap();
    fs.write("/t/top", b"top").unwrap();
    fs.write("/outside", b"outside").unwrap();
    let mut paths: Vec<String> = fs
        .walk_dir("/t")
        .into_iter()
        .map(|entry| entry.unwrap().path())
        .collect();
    let order = paths.clone();
    paths.sort();
    assert_eq!(
        paths,
        vec!["/t/a", "/t/a/b", "/t/a/b/deep", "/t/a/flat", "/t/c", "/t/top"]
    );
    let place = |p: &str| order.iter().position(|q| q == p).unwrap();
    assert!(place("/t/a") < place("/t/a/b"));
    assert!(place("/t/a/b") < place("/t/a/b/deep"));
    assert!(place("/t/a") < place("/t/a/flat"));
    assert!(fs.walk_dir("/missing").is_empty());
    assert!(fs.walk_dir("/t/top").is_empty());
    assert!(fs.walk_dir("/t/c").is_empty());
}

#[test]
fn load_from_dir_copies_a_tree() {
    let mut fs = MemoryFs::new();
    fs.create_dir_all("/t/a/b").unwrap();
    fs.write("/t/a/b/deep", b"deep").unwrap();
    fs.write("/t/top", b"").unwrap();
    fs.write("/outside", b"outside").unwrap();
    let loaded = MemoryFs::load_from_dir(&fs, "/t/../t").unwrap();
    assert_eq!(loaded.read("/a/b/deep").unwrap(), b"deep");
    assert_eq!(loaded.read("/top").unwrap(), b"");
    assert!(loaded.metadata("/a/b").unwrap().is_dir());
    assert!(!loaded.try_exists("/outside").unwrap());
    assert!(!loaded.try_exists("/t").unwrap());
    let empty = MemoryFs::load_from_dir(&fs, "/missing").unwrap();
    assert!(empty.read_dir("/").unwrap().next().is_none());
    fs.hard_link("/outside", "/t/link").unwrap();
    assert_eq!(
        MemoryFs::load_from_dir(&fs, "/t").err().unwrap().kind(),
        ErrorKind::Other
    );
    assert_eq!(
        MemoryFs::load_from_dir(&fs, "/../t").err().unwrap().kind(),
        ErrorKind::NotFound
    );
}
