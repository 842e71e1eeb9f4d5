use unifs::{ErrorKind, MemoryFs, StackedFs, UniDirEntry, UniFs, UniMetadata, UniReadDir};

fn names<D: UniReadDir>(mut listing: D) -> Vec<String> {
    let mut found = Vec::new();
    while let Some(entry) = listing.next() {
        if let Ok(e) = entry {
            found.push(e.file_name());
        }
    }
    found
}

#[test]
fn stacked_fs_general_test() {
    let base = MemoryFs::default();
    let overlay = MemoryFs::default();

    let mut fs = StackedFs::new(base, overlay, "/stacked");

    fs.create_dir("/test").unwrap();
    assert!(fs.try_exists("test").unwrap());

    fs.create_dir_all("/test/sub/dir").unwrap();
    assert!(fs.try_exists("test/sub/dir").unwrap());

    fs.create_new_file("/test/file.txt").unwrap();
    assert!(fs.try_exists("test/file.txt").unwrap());

    fs.write("test/file.txt", b"Hello, World!").unwrap();
    let content = fs.read("test/file.txt").unwrap();
    assert_eq!(content, b"Hello, World!");

    let content = fs.read_to_string("test/file.txt").unwrap();
    assert_eq!(content, "Hello, World!");

    fs.copy("/test/file.txt", "test/copy.txt").unwrap();
    let copy_content = fs.read("test/copy.txt").unwrap();
    assert_eq!(copy_content, b"Hello, World!");

    let directory_files = names(fs.read_dir("/test").unwrap());
    assert_eq!(directory_files, vec!["copy.txt", "file.txt", "sub"]);

    fs.remove_file("test/copy.txt").unwrap();
    assert!(!fs.try_exists("test/copy.txt").unwrap());

    assert!(fs.metadata("test/copy.txt").is_err());
    let metadata = fs.metadata("test/file.txt").unwrap();
    assert!(metadata.is_file());
    assert!(!metadata.is_dir());

    fs.rename("test", "test2").unwrap();
    assert!(!fs.try_exists("test").unwrap());
    assert!(fs.try_exists("test2").unwrap());

    let dir_metadata = fs.metadata("test2/sub/dir").unwrap();
    assert!(dir_metadata.is_dir());
    assert!(!dir_metadata.is_file());

    assert!(fs.remove_dir("test2/sub").is_err());
    fs.remove_dir("test2/sub/dir").unwrap();
    assert!(!fs.try_exists("test2/sub/dir").unwrap());

    fs.remove_dir_all("test2").unwrap();
    assert!(!fs.try_exists("test2").unwrap());
    assert!(fs.read_dir("/test2").is_err());

    // Overlay shadowing

    fs.create_dir("/stacked/test").unwrap();
    assert!(fs.try_exists("/stacked/test").unwrap());
    assert!(fs.overlay_fs.try_exists("test").unwrap());
    assert!(!fs.base_fs.try_exists("/stacked/test").unwrap());

    fs.create_dir_all("/stacked/test/sub/dir").unwrap();
    assert!(fs.try_exists("/stacked/test/sub/dir").unwrap());
    assert!(fs.overlay_fs.try_exists("test/sub/dir").unwrap());
    assert!(!fs.base_fs.try_exists("/stacked/test/sub/dir").unwrap());

    fs.create_new_file("/stacked/test/file.txt").unwrap();
    assert!(fs.try_exists("/stacked/test/file.txt").unwrap());
    assert!(fs.overlay_fs.try_exists("test/file.txt").unwrap());
    assert!(!fs.base_fs.try_exists("/stacked/test/file.txt").unwrap());

    fs.write("/stacked/test/file.txt", b"Hello, World!").unwrap();
    let content = fs.read("/stacked/test/file.txt").unwrap();
    assert_eq!(content, b"Hello, World!");
    assert!(fs.base_fs.read("/stacked/test/file.txt").is_err());
    assert_eq!(fs.overlay_fs.read("test/file.txt").unwrap(), b"Hello, World!");

    let content = fs.read_to_string("/stacked/test/file.txt").unwrap();
    assert_eq!(content, "Hello, World!");
    assert!(fs.base_fs.read_to_string("/stacked/test/file.txt").is_err());
    assert_eq!(
        fs.overlay_fs.read_to_string("test/file.txt").unwrap(),
        "Hello, World!"
    );

    fs.create_dir("/test").unwrap();
    fs.copy("/stacked/test/file.txt", "/test/copy-stacked.txt").unwrap();
    let copy_content = fs.read("test/copy-stacked.txt").unwrap();
    assert_eq!(copy_content, b"Hello, World!");
    fs.copy("/stacked/test/file.txt", "/stacked/test/copy.txt").unwrap();
    let copy_content = fs.read("/stacked/test/copy.txt").unwrap();
    assert_eq!(copy_content, b"Hello, World!");

    let directory_files = names(fs.read_dir("/stacked/test").unwrap());
    assert_eq!(directory_files, vec!["copy.txt", "file.txt", "sub"]);

    fs.remove_file("/stacked/test/copy.txt").unwrap();
    assert!(!fs.try_exists("/stacked/test/copy.txt").unwrap());

    assert!(fs.metadata("/stacked/test/copy.txt").is_err());
    let metadata = fs.metadata("/stacked/test/file.txt").unwrap();
    assert!(metadata.is_file());
    assert!(!metadata.is_dir());

    fs.rename("/stacked/test", "/stacked/test2").unwrap();
    assert!(!fs.try_exists("/stacked/test").unwrap());
    assert!(fs.try_exists("/stacked/test2").unwrap());

    let dir_metadata = fs.metadata("/stacked/test2/sub/dir").unwrap();
    assert!(dir_metadata.is_dir());
    assert!(!dir_metadata.is_file());

    assert!(fs.remove_dir("/stacked/test2/sub").is_err());
    fs.remove_dir("/stacked/test2/sub/dir").unwrap();
    assert!(!fs.try_exists("/stacked/test2/sub/dir").unwrap());

    fs.remove_dir_all("/stacked/test2").unwrap();
    assert!(!fs.try_exists("/stacked/test2").unwrap());
    assert!(fs.read_dir("/test2").is_err());
}

#[test]
fn overlay_shadows_the_base() {
    let mut fs = StackedFs::new(MemoryFs::new(), MemoryFs::new(), "/m");
    fs.create_dir("/m/x").unwrap();
    assert!(fs.try_exists("/m/x").unwrap());
    assert!(!fs.base_fs.try_exists("/m/x").unwrap());
    assert!(fs.overlay_fs.try_exists("x").unwrap());
}

#[test]
fn copy_from_base_into_overlay() {
    let mut fs = StackedFs::new(MemoryFs::new(), MemoryFs::new(), "/m");
    fs.create_dir("/outside").unwrap();
    fs.write("/outside/f", b"payload\0with nul").unwrap();
    let copied = fs.copy("/outside/f", "/m/g").unwrap();
    assert_eq!(copied, 16);
    assert_eq!(fs.read("/m/g").unwrap(), b"payload\0with nul");
    assert_eq!(fs.overlay_fs.read("g").unwrap(), b"payload\0with nul");
    assert!(fs.base_fs.read("/m/g").is_err());
    assert_eq!(fs.base_fs.read("/outside/f").unwrap(), b"payload\0with nul");
}

#[test]
fn copy_from_overlay_into_base_replaces_the_whole_content() {
    let mut fs = StackedFs::new(MemoryFs::new(), MemoryFs::new(), "/m");
    fs.write("/m/short", b"ab").unwrap();
    fs.write("/long", b"a much longer content").unwrap();
    fs.copy("/m/short", "/long").unwrap();
    assert_eq!(fs.read("/long").unwrap(), b"ab");
}

#[test]
fn rename_across_domains_moves_the_bytes() {
    let mut fs = StackedFs::new(MemoryFs::new(), MemoryFs::new(), "/m");
    fs.write("/a.txt", b"moved").unwrap();
    fs.rename("/a.txt", "/m/b.txt").unwrap();
    assert!(!fs.try_exists("/a.txt").unwrap());
    assert_eq!(fs.read("/m/b.txt").unwrap(), b"moved");
    assert_eq!(fs.overlay_fs.read("b.txt").unwrap(), b"moved");

    fs.rename("/m/b.txt", "/c.txt").unwrap();
    assert!(!fs.try_exists("/m/b.txt").unwrap());
    assert_eq!(fs.base_fs.read("/c.txt").unwrap(), b"moved");
}

#[test]
fn hard_link_across_domains_is_refused() {
    let mut fs = StackedFs::new(MemoryFs::new(), MemoryFs::new(), "/m");
    fs.write("/a.txt", b"x").unwrap();
    fs.write("/m/b.txt", b"y").unwrap();
    assert_eq!(
        fs.hard_link("/a.txt", "/m/l").unwrap_err().kind(),
        ErrorKind::Other
    );
    assert_eq!(
        fs.hard_link("/m/b.txt", "/l").unwrap_err().kind(),
        ErrorKind::Other
    );
    fs.hard_link("/m/b.txt", "/m/l").unwrap();
    assert_eq!(fs.read("/m/l").unwrap(), b"y");
    fs.hard_link("/a.txt", "/l").unwrap();
    assert_eq!(fs.read("/l").unwrap(), b"x");
}

#[test]
fn what_the_overlay_lacks_falls_through_to_the_base() {
    let mut base = MemoryFs::new();
    base.create_dir("/m").unwrap();
    base.write("/m/only-in-base", b"base").unwrap();
    let mut fs = StackedFs::new(base, MemoryFs::new(), "/m");
    assert_eq!(fs.read("/m/only-in-base").unwrap(), b"base");
    assert!(fs.metadata("/m/only-in-base").unwrap().is_file());
    fs.write("/m/only-in-base", b"overlay").unwrap();
    assert_eq!(fs.read("/m/only-in-base").unwrap(), b"overlay");
    assert_eq!(fs.base_fs.read("/m/only-in-base").unwrap(), b"base");
    fs.remove_file("/m/only-in-base").unwrap();
    assert_eq!(fs.read("/m/only-in-base").unwrap(), b"base");
}

#[test]
fn canonicalize_keeps_the_mount_point() {
    let mut fs = StackedFs::new(MemoryFs::new(), MemoryFs::new(), "/m");
    fs.create_dir_all("/m/a/b").unwrap();
    assert_eq!(fs.canonicalize("/m/a/./b/../b").unwrap(), "/m/a/b");
    assert_eq!(fs.canonicalize("/x/../y").unwrap(), "/y");
}

#[test]
fn permissions_must_be_of_the_backend_that_serves_the_path() {
    let mut fs = StackedFs::new(MemoryFs::new(), MemoryFs::new(), "/m");
    fs.write("/m/f", b"x").unwrap();
    fs.write("/g", b"y").unwrap();
    let of_overlay = fs.metadata("/m/f").unwrap().permissions();
    let of_base = fs.metadata("/g").unwrap().permissions();
    assert_eq!(
        fs.set_permissions("/g", of_overlay).unwrap_err().kind(),
        ErrorKind::Other
    );
    assert_eq!(
        fs.set_permissions("/m/f", of_base).unwrap_err().kind(),
        ErrorKind::Other
    );
    let of_base = fs.metadata("/g").unwrap().permissions();
    fs.set_permissions("/g", of_base).unwrap();
}
