use unifs::altroot_fs::get_real_path;
use unifs::{AltrootFs, ErrorKind, MemoryFs, UniDirEntry, UniFs, UniMetadata, UniReadDir};

fn names<D: UniReadDir>(mut listing: D) -> Vec<String> {
    let mut found = Vec::new();
    while let Some(entry) = listing.next() {
        if let Ok(e) = entry {
            found.push(e.file_name());
        }
    }
    found
}

#[test]
fn altroot_fs_general_test() {
    let root_fs = MemoryFs::default();
    let mut fs = AltrootFs::new_or_create("root", root_fs).unwrap();
    fs.create_dir("/test").unwrap();
    assert!(fs.try_exists("test").unwrap());
    assert!(fs.fs.try_exists("root/test").unwrap());

    fs.create_dir_all("/test/sub/dir").unwrap();
    assert!(fs.try_exists("test/sub/dir").unwrap());
    assert!(fs.fs.try_exists("root/test/sub/dir").unwrap());

    fs.create_new_file("/test/file.txt").unwrap();
    assert!(fs.try_exists("test/file.txt").unwrap());
    assert!(fs.fs.try_exists("root/test/file.txt").unwrap());

    fs.write("test/file.txt", b"Hello, World!").unwrap();
    let content = fs.read("test/file.txt").unwrap();
    assert_eq!(content, b"Hello, World!");
    let content = fs.fs.read("root/test/file.txt").unwrap();
    assert_eq!(content, b"Hello, World!");

    let content = fs.read_to_string("test/file.txt").unwrap();
    assert_eq!(content, "Hello, World!");
    let content = fs.fs.read_to_string("root/test/file.txt").unwrap();
    assert_eq!(content, "Hello, World!");

    fs.copy("/test/file.txt", "test/copy.txt").unwrap();
    let copy_content = fs.read("test/copy.txt").unwrap();
    assert_eq!(copy_content, b"Hello, World!");
    let copy_content = fs.fs.read("root/test/copy.txt").unwrap();
    assert_eq!(copy_content, b"Hello, World!");

    let directory_files = names(fs.read_dir("/test").unwrap());
    assert_eq!(directory_files, vec!["copy.txt", "file.txt", "sub"]);
    let directory_files = names(fs.fs.read_dir("/root/test").unwrap());
    assert_eq!(directory_files, vec!["copy.txt", "file.txt", "sub"]);

    fs.remove_file("test/copy.txt").unwrap();
    assert!(!fs.try_exists("test/copy.txt").unwrap());
    assert!(!fs.fs.try_exists("root/test/copy.txt").unwrap());

    assert!(fs.metadata("test/copy.txt").is_err());
    assert!(fs.fs.metadata("root/test/copy.txt").is_err());
    let metadata = fs.metadata("test/file.txt").unwrap();
    assert!(metadata.is_file());
    assert!(!metadata.is_dir());
    let metadata = fs.fs.metadata("root/test/file.txt").unwrap();
    assert!(metadata.is_file());
    assert!(!metadata.is_dir());

    fs.rename("test", "test2").unwrap();
    assert!(!fs.try_exists("test").unwrap());
    assert!(fs.try_exists("test2").unwrap());
    assert!(!fs.fs.try_exists("root/test").unwrap());
    assert!(fs.fs.try_exists("root/test2").unwrap());

    let dir_metadata = fs.metadata("test2/sub/dir").unwrap();
    assert!(dir_metadata.is_dir());
    assert!(!dir_metadata.is_file());
    let dir_metadata = fs.fs.metadata("root/test2/sub/dir").unwrap();
    assert!(dir_metadata.is_dir());
    assert!(!dir_metadata.is_file());

    assert!(fs.remove_dir("test2/sub").is_err());
    fs.remove_dir("test2/sub/dir").unwrap();
    assert!(!fs.try_exists("test2/sub/dir").unwrap());
    assert!(!fs.fs.try_exists("root/test2/sub/dir").unwrap());

    fs.remove_dir_all("test2").unwrap();
    assert!(!fs.try_exists("test2").unwrap());
    assert!(fs.read_dir("/test2").is_err());
    assert!(!fs.fs.try_exists("root/test2").unwrap());
    assert!(fs.fs.read_dir("/root/test2").is_err());
}

#[test]
fn real_path_puts_the_path_below_the_root() {
    assert_eq!(get_real_path("root", "/a/b"), "root/a/b");
    assert_eq!(get_real_path("root", "a/b"), "root/a/b");
    assert_eq!(get_real_path("/r", "//a/./b/"), "/r/a/b");
    assert_eq!(get_real_path("/r", "../a"), "/r/../a");
    assert_eq!(get_real_path("/r", ""), "/r/");
    assert_eq!(get_real_path("/r", "/"), "/r/");
}

#[test]
fn below_an_empty_root_the_path_stays_relative() {
    assert_eq!(get_real_path("", "x"), "x");
    assert_eq!(get_real_path("", "/x"), "x");
    assert_eq!(get_real_path("", "/a//b/./c"), "a/b/c");
    assert_eq!(get_real_path("", "../a"), "../a");
    assert_eq!(get_real_path("", ""), "");
    assert_eq!(get_real_path("", "/"), "");
}

#[test]
fn an_empty_root_is_the_root_of_the_wrapped_filesystem() {
    let mut inner = MemoryFs::new();
    inner.create_dir("/d").unwrap();
    inner.write("/d/f", b"below").unwrap();
    let mut fs = AltrootFs::new("", inner).unwrap();
    assert_eq!(fs.get_real_path("/d/f"), "d/f");
    assert_eq!(fs.read("/d/f").unwrap(), b"below");
    fs.write("/g", b"new").unwrap();
    assert_eq!(fs.fs.read("/g").unwrap(), b"new");
}

#[test]
fn new_needs_a_directory() {
    let mut inner = MemoryFs::new();
    inner.write("/file", b"x").unwrap();
    assert_eq!(
        AltrootFs::new("/file", inner).err().unwrap().kind(),
        ErrorKind::InvalidInput
    );
    assert_eq!(
        AltrootFs::new("/missing", MemoryFs::new()).err().unwrap().kind(),
        ErrorKind::NotFound
    );
    assert!(AltrootFs::new("/", MemoryFs::new()).is_ok());
}

#[test]
fn entries_report_paths_without_the_root() {
    let mut fs = AltrootFs::new_or_create("/root", MemoryFs::new()).unwrap();
    fs.create_dir("/d").unwrap();
    fs.write("/d/f", b"x").unwrap();
    let mut listing = fs.read_dir("/d").unwrap();
    let entry = listing.next().unwrap().unwrap();
    assert_eq!(entry.path(), "d/f");
    assert_eq!(entry.file_name(), "f");
    assert!(listing.next().is_none());
    assert_eq!(fs.canonicalize("/d/../d/f").unwrap(), "d/f");
}

#[test]
fn an_empty_root_over_a_relative_mount_point_reaches_the_overlay() {
    let stacked = unifs::StackedFs::new(MemoryFs::new(), MemoryFs::new(), "m");
    let mut fs = AltrootFs::new("", stacked).unwrap();
    assert_eq!(fs.get_real_path("/m/x"), "m/x");
    fs.write("/m/x", b"over").unwrap();
    assert_eq!(fs.read("/m/x").unwrap(), b"over");
    assert_eq!(fs.fs.overlay_fs.read("/x").unwrap(), b"over");
    assert!(!fs.fs.base_fs.try_exists("/m/x").unwrap());
    fs.write("/y", b"base").unwrap();
    assert_eq!(fs.fs.base_fs.read("/y").unwrap(), b"base");
    assert!(!fs.fs.overlay_fs.try_exists("/y").unwrap());
}
