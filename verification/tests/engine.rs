use std::time::{Duration, SystemTime};

use unifs::memory_fs;
use unifs::memory_fs::dir_builder::MemoryDirBuilder;
use unifs::memory_fs::read_dir::read_dir;
use unifs::memory_fs::table::MemoryEntryType;
use unifs::memory_fs::MemoryFsInner;
use unifs::path::CanonicalPath;
use unifs::{
    ErrorKind, FileType, Permissions, UniDirBuilder, UniDirEntry, UniFs, UniMetadata, UniReadDir,
};

fn at(seconds: u64) -> SystemTime {
    SystemTime::UNIX_EPOCH + Duration::from_secs(seconds)
}

fn fresh() -> MemoryFsInner {
    MemoryFsInner::new_at(at(1))
}

fn make_all(fs: &mut MemoryFsInner, path: &str, now: SystemTime) {
    let mut builder = MemoryDirBuilder::new();
    builder.recursive(true);
    builder.create_at(fs, path, now).unwrap();
}

fn listed(fs: &MemoryFsInner, path: &str) -> Vec<String> {
    let mut listing = read_dir(fs, path).unwrap();
    let mut found = Vec::new();
    while let Some(entry) = listing.next() {
        found.push(entry.unwrap().file_name());
    }
    found
}

#[test]
fn end_to_end() {
    let mut fs = fresh();
    memory_fs::create_dir(&mut fs, "/a", at(2)).unwrap();
    make_all(&mut fs, "/a/b/c", at(3));
    memory_fs::write(&mut fs, "/a/b/c/f.txt", b"hi", at(4)).unwrap();
    assert_eq!(memory_fs::read(&fs, "/a/b/c/f.txt").unwrap(), b"hi");
    memory_fs::rename(&mut fs, "/a", "/z", at(5)).unwrap();
    assert_eq!(memory_fs::read(&fs, "/z/b/c/f.txt").unwrap(), b"hi");
    memory_fs::remove_dir_all(&mut fs, "/z").unwrap();
    assert!(!memory_fs::try_exists(&fs, "/z").unwrap());
}

#[test]
fn canonicalize_is_idempotent() {
    let mut fs = fresh();
    make_all(&mut fs, "/a/b", at(2));
    for path in ["/a/b", "a//b/", "./a/../a/b/.", "/x/y/../../a", "/"] {
        let once = memory_fs::canonicalize(&fs, path).unwrap();
        let twice = memory_fs::canonicalize(&fs, &once).unwrap();
        assert_eq!(once, twice);
    }
    assert_eq!(memory_fs::canonicalize(&fs, "").unwrap(), "/");
    assert_eq!(memory_fs::canonicalize(&fs, "a/./b/..").unwrap(), "/a");
    assert_eq!(
        memory_fs::canonicalize(&fs, "/..").unwrap_err().kind(),
        ErrorKind::NotFound
    );
    assert_eq!(
        memory_fs::canonicalize(&fs, "a/../..").unwrap_err().kind(),
        ErrorKind::NotFound
    );
}

#[test]
fn canonicalize_follows_links_once_per_name() {
    let mut fs = fresh();
    make_all(&mut fs, "/d/e", at(2));
    memory_fs::write(&mut fs, "/d/e/f", b"x", at(3)).unwrap();
    memory_fs::hard_link(&mut fs, "/d", "/l", at(4)).unwrap();
    assert_eq!(memory_fs::canonicalize(&fs, "/l/e/f").unwrap(), "/d/e/f");
    assert_eq!(memory_fs::canonicalize(&fs, "/l/missing").unwrap(), "/d/missing");
    memory_fs::hard_link(&mut fs, "/l/e", "/d/k", at(5)).unwrap();
    assert_eq!(memory_fs::canonicalize(&fs, "/l/k/f").unwrap(), "/d/e/f");
    let without = memory_fs::canonicalize_inner(&fs, "/l/e/../e", false).unwrap();
    assert_eq!(without.render(), "/l/e");
}

#[test]
fn canonicalize_of_a_link_to_a_link_is_not_idempotent() {
    let mut fs = fresh();
    memory_fs::write(&mut fs, "/f", b"1", at(2)).unwrap();
    memory_fs::write(&mut fs, "/g", b"2", at(2)).unwrap();
    memory_fs::hard_link(&mut fs, "/f", "/l1", at(3)).unwrap();
    memory_fs::remove_file(&mut fs, "/f").unwrap();
    memory_fs::hard_link(&mut fs, "/g", "/f", at(4)).unwrap();
    assert_eq!(memory_fs::canonicalize(&fs, "/l1").unwrap(), "/f");
    assert_eq!(memory_fs::canonicalize(&fs, "/f").unwrap(), "/g");
}

#[test]
fn create_dir_all_makes_every_ancestor() {
    let mut fs = fresh();
    make_all(&mut fs, "p/q/r/s", at(2));
    for path in ["/", "/p", "/p/q", "/p/q/r", "/p/q/r/s"] {
        assert!(memory_fs::try_exists(&fs, path).unwrap());
        assert!(memory_fs::metadata(&fs, path).unwrap().is_dir());
        assert!(memory_fs::is_dir(&fs, &memory_fs::canonicalize_inner(&fs, path, true).unwrap())
            .unwrap());
    }
    make_all(&mut fs, "/p/q", at(3));
    make_all(&mut fs, "/", at(3));
    memory_fs::write(&mut fs, "/p/file", b"", at(4)).unwrap();
    make_all(&mut fs, "/p/file", at(5));
    let mut builder = MemoryDirBuilder::new();
    builder.recursive(true);
    assert_eq!(
        builder.create_at(&mut fs, "/p/file/below", at(6)).unwrap_err().kind(),
        ErrorKind::InvalidInput
    );
    assert!(!memory_fs::try_exists(&fs, "/p/file/below").unwrap());
}

#[test]
fn the_plain_builder_makes_one_directory() {
    let mut fs = fresh();
    let builder = MemoryDirBuilder::new();
    builder.create_at(&mut fs, "/a", at(2)).unwrap();
    assert_eq!(
        builder.create_at(&mut fs, "/a", at(3)).unwrap_err().kind(),
        ErrorKind::AlreadyExists
    );
    assert_eq!(
        builder.create_at(&mut fs, "/x/y", at(3)).unwrap_err().kind(),
        ErrorKind::NotFound
    );
    memory_fs::hard_link(&mut fs, "/a", "/l", at(4)).unwrap();
    builder.create_at(&mut fs, "/l/b", at(5)).unwrap();
    assert!(memory_fs::try_exists(&fs, "/a/b").unwrap());
}

#[test]
fn create_dir_errors() {
    let mut fs = fresh();
    memory_fs::create_dir(&mut fs, "/a", at(2)).unwrap();
    assert_eq!(
        memory_fs::create_dir(&mut fs, "/a", at(3)).unwrap_err().kind(),
        ErrorKind::AlreadyExists
    );
    assert_eq!(
        memory_fs::create_dir(&mut fs, "/", at(3)).unwrap_err().kind(),
        ErrorKind::AlreadyExists
    );
    assert_eq!(
        memory_fs::create_dir(&mut fs, "/x/y", at(3)).unwrap_err().kind(),
        ErrorKind::NotFound
    );
    assert_eq!(
        memory_fs::create_dir(&mut fs, "/../x", at(3)).unwrap_err().kind(),
        ErrorKind::NotFound
    );
    memory_fs::write(&mut fs, "/f", b"", at(3)).unwrap();
    assert_eq!(
        memory_fs::create_dir(&mut fs, "/f/x", at(3)).unwrap_err().kind(),
        ErrorKind::InvalidInput
    );
    memory_fs::hard_link(&mut fs, "/a", "/l", at(4)).unwrap();
    assert_eq!(
        memory_fs::create_dir(&mut fs, "/l/x", at(5)).unwrap_err().kind(),
        ErrorKind::InvalidInput
    );
    let made = memory_fs::metadata(&fs, "/a").unwrap();
    assert_eq!(made.created().unwrap(), at(2));
    assert_eq!(made.modified().unwrap(), at(2));
    assert_eq!(made.accessed().unwrap_err().kind(), ErrorKind::NotFound);
    assert!(!made.permissions().readonly);
}

#[test]
fn write_then_read_gives_the_bytes_back() {
    let mut fs = fresh();
    let cases: [&[u8]; 4] = [b"", b"\0", b"a\0b\0\0c", &[255, 0, 128, 7]];
    for bytes in cases {
        memory_fs::write(&mut fs, "/f", bytes, at(2)).unwrap();
        assert_eq!(memory_fs::read(&fs, "/f").unwrap(), bytes);
        assert_eq!(memory_fs::metadata(&fs, "/f").unwrap().len(), bytes.len() as u64);
    }
    memory_fs::write(&mut fs, "/f", b"longer content", at(3)).unwrap();
    memory_fs::write(&mut fs, "/f", b"short", at(4)).unwrap();
    assert_eq!(memory_fs::read(&fs, "/f").unwrap(), b"short");
    assert_eq!(
        memory_fs::write(&mut fs, "/", b"x", at(5)).unwrap_err().kind(),
        ErrorKind::InvalidInput
    );
    assert_eq!(
        memory_fs::write(&mut fs, "/no/f", b"x", at(5)).unwrap_err().kind(),
        ErrorKind::NotFound
    );
    assert_eq!(
        memory_fs::write(&mut fs, "/f/g", b"x", at(5)).unwrap_err().kind(),
        ErrorKind::InvalidInput
    );
}

#[test]
fn read_errors() {
    let mut fs = fresh();
    memory_fs::create_dir(&mut fs, "/d", at(2)).unwrap();
    assert_eq!(
        memory_fs::read(&fs, "/d").unwrap_err().kind(),
        ErrorKind::InvalidInput
    );
    assert_eq!(
        memory_fs::read(&fs, "/missing").unwrap_err().kind(),
        ErrorKind::NotFound
    );
    assert_eq!(
        memory_fs::metadata(&fs, "/missing").unwrap_err().kind(),
        ErrorKind::NotFound
    );
    assert_eq!(
        memory_fs::try_exists(&fs, "/../x").unwrap_err().kind(),
        ErrorKind::NotFound
    );
    assert_eq!(
        memory_fs::is_dir(&fs, &CanonicalPath::root().join("missing")).unwrap_err().kind(),
        ErrorKind::NotFound
    );
}

#[test]
fn read_to_string_decodes_utf8() {
    let mut fs = fresh();
    memory_fs::write(&mut fs, "/t", "héllo ✓".as_bytes(), at(2)).unwrap();
    assert_eq!(memory_fs::read_to_string(&fs, "/t").unwrap(), "héllo ✓");
    memory_fs::write(&mut fs, "/b", &[0xff, 0xfe], at(2)).unwrap();
    assert_eq!(
        memory_fs::read_to_string(&fs, "/b").unwrap_err().kind(),
        ErrorKind::Other
    );
    assert_eq!(
        memory_fs::read_to_string(&fs, "/missing").unwrap_err().kind(),
        ErrorKind::NotFound
    );
}

#[test]
fn remove_dir_fails_exactly_on_directories_with_children() {
    let mut fs = fresh();
    make_all(&mut fs, "/d/e", at(2));
    memory_fs::write(&mut fs, "/f", b"", at(2)).unwrap();
    assert_eq!(
        memory_fs::remove_dir(&mut fs, "/d").unwrap_err().kind(),
        ErrorKind::DirectoryNotEmpty
    );
    assert_eq!(
        memory_fs::remove_dir(&mut fs, "/").unwrap_err().kind(),
        ErrorKind::DirectoryNotEmpty
    );
    assert_eq!(
        memory_fs::remove_dir(&mut fs, "/f").unwrap_err().kind(),
        ErrorKind::InvalidInput
    );
    assert_eq!(
        memory_fs::remove_dir(&mut fs, "/missing").unwrap_err().kind(),
        ErrorKind::NotFound
    );
    memory_fs::remove_dir(&mut fs, "/d/e").unwrap();
    memory_fs::remove_dir(&mut fs, "/d").unwrap();
    memory_fs::remove_file(&mut fs, "/f").unwrap();
    assert_eq!(
        memory_fs::remove_dir(&mut fs, "/").unwrap_err().kind(),
        ErrorKind::InvalidInput
    );
    assert!(memory_fs::try_exists(&fs, "/").unwrap());
}

#[test]
fn remove_dir_all_removes_the_whole_tree() {
    let mut fs = fresh();
    make_all(&mut fs, "/d/e/f", at(2));
    make_all(&mut fs, "/da", at(2));
    memory_fs::write(&mut fs, "/d/e/x", b"1", at(3)).unwrap();
    memory_fs::hard_link(&mut fs, "/da", "/d/l", at(3)).unwrap();
    memory_fs::remove_dir_all(&mut fs, "/d").unwrap();
    for path in ["/d", "/d/e", "/d/e/f", "/d/e/x", "/d/l"] {
        assert!(!memory_fs::try_exists(&fs, path).unwrap());
    }
    assert!(memory_fs::try_exists(&fs, "/da").unwrap());
    assert_eq!(listed(&fs, "/"), vec!["da"]);
    assert_eq!(
        memory_fs::remove_dir_all(&mut fs, "/missing").unwrap_err().kind(),
        ErrorKind::NotFound
    );
    memory_fs::write(&mut fs, "/file", b"", at(4)).unwrap();
    assert_eq!(
        memory_fs::remove_dir_all(&mut fs, "/file").unwrap_err().kind(),
        ErrorKind::InvalidInput
    );
    assert_eq!(
        memory_fs::remove_dir_all(&mut fs, "/").unwrap_err().kind(),
        ErrorKind::InvalidInput
    );
    assert!(memory_fs::try_exists(&fs, "/").unwrap());
    assert!(listed(&fs, "/").is_empty());
}

#[test]
fn remove_recursive_takes_a_canonical_path() {
    let mut fs = fresh();
    make_all(&mut fs, "/d/e", at(2));
    memory_fs::write(&mut fs, "/d/e/x", b"1", at(3)).unwrap();
    let path = CanonicalPath::root().join("d").join("e");
    memory_fs::remove_recursive(&path, &mut fs).unwrap();
    assert!(!memory_fs::try_exists(&fs, "/d/e/x").unwrap());
    assert!(memory_fs::try_exists(&fs, "/d").unwrap());
    assert_eq!(
        memory_fs::remove_recursive(&path, &mut fs).unwrap_err().kind(),
        ErrorKind::NotFound
    );
    assert_eq!(
        memory_fs::remove_recursive(&CanonicalPath::root(), &mut fs).unwrap_err().kind(),
        ErrorKind::InvalidInput
    );
}

#[test]
fn remove_file_errors() {
    let mut fs = fresh();
    memory_fs::create_dir(&mut fs, "/d", at(2)).unwrap();
    assert_eq!(
        memory_fs::remove_file(&mut fs, "/d").unwrap_err().kind(),
        ErrorKind::InvalidInput
    );
    assert_eq!(
        memory_fs::remove_file(&mut fs, "/").unwrap_err().kind(),
        ErrorKind::InvalidInput
    );
    assert_eq!(
        memory_fs::remove_file(&mut fs, "/missing").unwrap_err().kind(),
        ErrorKind::NotFound
    );
}

#[test]
fn rename_moves_a_file_and_a_tree() {
    let mut fs = fresh();
    make_all(&mut fs, "/a/b", at(2));
    memory_fs::write(&mut fs, "/a/b/f", b"deep", at(3)).unwrap();
    memory_fs::write(&mut fs, "/a/g", b"flat", at(3)).unwrap();
    memory_fs::hard_link(&mut fs, "/a/g", "/a/l", at(3)).unwrap();

    memory_fs::rename(&mut fs, "/a/g", "/a/h", at(4)).unwrap();
    assert!(!memory_fs::try_exists(&fs, "/a/g").unwrap());
    assert_eq!(memory_fs::read(&fs, "/a/h").unwrap(), b"flat");
    let moved = memory_fs::metadata(&fs, "/a/h").unwrap();
    assert_eq!(moved.created().unwrap(), at(3));
    assert_eq!(moved.modified().unwrap(), at(4));
    assert_eq!(moved.accessed().unwrap(), at(4));

    memory_fs::rename(&mut fs, "/a", "/z", at(5)).unwrap();
    assert!(!memory_fs::try_exists(&fs, "/a").unwrap());
    assert!(!memory_fs::try_exists(&fs, "/a/b/f").unwrap());
    assert_eq!(memory_fs::read(&fs, "/z/b/f").unwrap(), b"deep");
    assert_eq!(memory_fs::read(&fs, "/z/h").unwrap(), b"flat");
    assert_eq!(listed(&fs, "/z"), vec!["b", "h", "l"]);
    assert_eq!(listed(&fs, "/"), vec!["z"]);
    let below = memory_fs::metadata(&fs, "/z/b/f").unwrap();
    assert_eq!(below.created().unwrap(), at(3));
    assert!(below.modified().is_err());
    let dir_below = memory_fs::metadata(&fs, "/z/b").unwrap();
    assert_eq!(dir_below.modified().unwrap(), at(2));
    let top = memory_fs::metadata(&fs, "/z").unwrap();
    assert_eq!(top.modified().unwrap(), at(5));
}

#[test]
fn rename_replaces_a_file_and_refuses_a_directory() {
    let mut fs = fresh();
    make_all(&mut fs, "/d/e", at(2));
    memory_fs::write(&mut fs, "/f", b"new", at(2)).unwrap();
    memory_fs::write(&mut fs, "/g", b"old", at(2)).unwrap();
    memory_fs::rename(&mut fs, "/f", "/g", at(3)).unwrap();
    assert_eq!(memory_fs::read(&fs, "/g").unwrap(), b"new");
    assert!(!memory_fs::try_exists(&fs, "/f").unwrap());
    memory_fs::rename(&mut fs, "/g", "/g", at(4)).unwrap();
    assert_eq!(memory_fs::read(&fs, "/g").unwrap(), b"new");

    let refusals = [
        ("/missing", "/x", ErrorKind::NotFound),
        ("/g", "/d", ErrorKind::AlreadyExists),
        ("/d", "/d", ErrorKind::AlreadyExists),
        ("/", "/x", ErrorKind::InvalidInput),
        ("/d", "/d/e/below", ErrorKind::InvalidInput),
        ("/g", "/no/parent", ErrorKind::NotFound),
        ("/d", "/g/below", ErrorKind::InvalidInput),
        ("/g", "/../x", ErrorKind::NotFound),
    ];
    for (from, to, kind) in refusals {
        assert_eq!(
            memory_fs::rename(&mut fs, from, to, at(5)).unwrap_err().kind(),
            kind
        );
    }
    assert_eq!(listed(&fs, "/"), vec!["d", "g"]);
    memory_fs::rename(&mut fs, "/d", "/g", at(6)).unwrap();
    assert_eq!(listed(&fs, "/"), vec!["g"]);
    assert_eq!(listed(&fs, "/g"), vec!["e"]);
}

#[test]
fn copy_makes_a_file_of_its_own() {
    let mut fs = fresh();
    memory_fs::create_dir(&mut fs, "/d", at(2)).unwrap();
    memory_fs::write(&mut fs, "/f", b"12345", at(2)).unwrap();
    memory_fs::set_permissions(&mut fs, "/f", Permissions { readonly: true }, at(3)).unwrap();
    assert_eq!(memory_fs::copy(&mut fs, "/f", "/d/g", at(4)).unwrap(), 5);
    assert_eq!(memory_fs::read(&fs, "/d/g").unwrap(), b"12345");
    let copied = memory_fs::metadata(&fs, "/d/g").unwrap();
    assert!(copied.permissions().readonly);
    assert_eq!(copied.created().unwrap(), at(4));
    assert_eq!(copied.modified().unwrap(), at(4));
    assert!(copied.accessed().is_err());
    memory_fs::write(&mut fs, "/f", b"changed", at(5)).unwrap();
    assert_eq!(memory_fs::read(&fs, "/d/g").unwrap(), b"12345");
    assert_eq!(memory_fs::copy(&mut fs, "/f", "/f", at(6)).unwrap(), 7);
    assert_eq!(memory_fs::read(&fs, "/f").unwrap(), b"changed");

    let refusals = [
        ("/missing", "/x", ErrorKind::NotFound),
        ("/d", "/x", ErrorKind::InvalidInput),
        ("/f", "/d", ErrorKind::InvalidInput),
        ("/f", "/", ErrorKind::InvalidInput),
        ("/f", "/no/x", ErrorKind::NotFound),
        ("/f", "/f/x", ErrorKind::InvalidInput),
        ("/../f", "/x", ErrorKind::NotFound),
        ("/f", "/../x", ErrorKind::NotFound),
    ];
    for (from, to, kind) in refusals {
        assert_eq!(memory_fs::copy(&mut fs, from, to, at(7)).unwrap_err().kind(), kind);
    }
}

#[test]
fn hard_link_is_an_alias() {
    let mut fs = fresh();
    make_all(&mut fs, "/d", at(2));
    memory_fs::write(&mut fs, "/d/f", b"shared", at(2)).unwrap();
    memory_fs::hard_link(&mut fs, "/d/f", "/l", at(3)).unwrap();
    assert_eq!(
        memory_fs::read(&fs, "/l").unwrap(),
        memory_fs::read(&fs, "/d/f").unwrap()
    );
    let through = memory_fs::metadata(&fs, "/l").unwrap();
    let direct = memory_fs::metadata(&fs, "/d/f").unwrap();
    assert_eq!(through.len(), direct.len());
    assert_eq!(through.file_type(), direct.file_type());
    assert_eq!(through.created().unwrap(), direct.created().unwrap());
    assert_eq!(
        memory_fs::canonicalize(&fs, "/l").unwrap(),
        memory_fs::canonicalize(&fs, "/d/f").unwrap()
    );
    memory_fs::write(&mut fs, "/l", b"through the link", at(4)).unwrap();
    assert_eq!(memory_fs::read(&fs, "/d/f").unwrap(), b"through the link");

    memory_fs::remove_file(&mut fs, "/l").unwrap();
    assert!(!memory_fs::try_exists(&fs, "/l").unwrap());
    assert_eq!(memory_fs::read(&fs, "/d/f").unwrap(), b"through the link");
    assert_eq!(listed(&fs, "/"), vec!["d"]);
}

#[test]
fn hard_link_errors() {
    let mut fs = fresh();
    memory_fs::write(&mut fs, "/f", b"", at(2)).unwrap();
    let refusals = [
        ("/missing", "/l", ErrorKind::NotFound),
        ("/f", "/f", ErrorKind::AlreadyExists),
        ("/f", "/", ErrorKind::AlreadyExists),
        ("/f", "/no/l", ErrorKind::NotFound),
        ("/f", "/f/l", ErrorKind::NotFound),
        ("/../f", "/l", ErrorKind::NotFound),
        ("/f", "/../l", ErrorKind::NotFound),
    ];
    for (original, link, kind) in refusals {
        assert_eq!(
            memory_fs::hard_link(&mut fs, original, link, at(3)).unwrap_err().kind(),
            kind
        );
    }
    memory_fs::hard_link(&mut fs, "/f", "/l", at(3)).unwrap();
    memory_fs::remove_file(&mut fs, "/f").unwrap();
    assert!(!memory_fs::try_exists(&fs, "/l").unwrap());
    let entries = read_dir(&fs, "/").unwrap();
    assert_eq!(entries.len(), 1);
}

#[test]
fn set_permissions_records_the_change() {
    let mut fs = fresh();
    memory_fs::write(&mut fs, "/f", b"", at(2)).unwrap();
    memory_fs::set_permissions(&mut fs, "/f", Permissions { readonly: true }, at(9)).unwrap();
    let metadata = memory_fs::metadata(&fs, "/f").unwrap();
    assert!(metadata.permissions().readonly);
    assert_eq!(metadata.modified().unwrap(), at(9));
    assert_eq!(
        memory_fs::set_permissions(&mut fs, "/missing", Permissions { readonly: true }, at(9))
            .unwrap_err()
            .kind(),
        ErrorKind::NotFound
    );
}

#[test]
fn read_dir_lists_children_in_the_order_of_their_names() {
    let mut fs = fresh();
    make_all(&mut fs, "/d/sub", at(2));
    for name in ["b", "a", "ab", "B", "é", "z", "a.txt", ""] {
        if !name.is_empty() {
            let path = format!("/d/{}", name);
            memory_fs::write(&mut fs, &path, name.as_bytes(), at(3)).unwrap();
        }
    }
    memory_fs::write(&mut fs, "/d/sub/inner", b"", at(3)).unwrap();
    assert_eq!(
        listed(&fs, "/d"),
        vec!["B", "a", "a.txt", "ab", "b", "sub", "z", "é"]
    );
    let mut listing = read_dir(&fs, "/d").unwrap();
    assert_eq!(listing.len(), 8);
    let first = listing.next().unwrap().unwrap();
    assert_eq!(first.file_name(), "B");
    assert_eq!(first.path(), "/d/B");
    assert_eq!(first.file_type().unwrap(), FileType::File);
    assert_eq!(first.metadata().unwrap().len(), 1);
    assert_eq!(listing.len(), 7);
    assert_eq!(
        read_dir(&fs, "/d/a").err().unwrap().kind(),
        ErrorKind::InvalidInput
    );
    assert_eq!(
        read_dir(&fs, "/missing").err().unwrap().kind(),
        ErrorKind::NotFound
    );
    assert!(listed(&fs, "/d/sub/../sub").contains(&"inner".to_string()));
}

#[test]
fn symbolic_links_are_not_supported() {
    assert_eq!(
        memory_fs::read_link("/x").unwrap_err().kind(),
        ErrorKind::Unsupported
    );
    assert_eq!(
        memory_fs::symlink_metadata("/x").unwrap_err().kind(),
        ErrorKind::Unsupported
    );
    let fs = unifs::MemoryFs::new_at(at(1));
    assert_eq!(fs.read_link("/").unwrap_err().kind(), ErrorKind::Unsupported);
    assert_eq!(
        fs.symlink_metadata("/").unwrap_err().kind(),
        ErrorKind::Unsupported
    );
    assert!(memory_fs::try_exists(fs.inner(), "/").unwrap());
    assert_eq!(read_dir(fs.inner(), "/").unwrap().len(), 0);
}

#[test]
fn file_type_of_reports_links_as_links() {
    assert_eq!(memory_fs::file_type_of(&MemoryEntryType::File(0)), FileType::File);
    assert_eq!(
        memory_fs::file_type_of(&MemoryEntryType::Directory),
        FileType::Directory
    );
    assert_eq!(
        memory_fs::file_type_of(&MemoryEntryType::HardLink(CanonicalPath::root())),
        FileType::Symlink
    );
}

#[test]
fn rename_of_a_source_written_through_a_link_leaves_the_source() {
    let mut fs = fresh();
    make_all(&mut fs, "/d", at(2));
    memory_fs::write(&mut fs, "/d/f", b"moved", at(2)).unwrap();
    memory_fs::hard_link(&mut fs, "/d", "/l", at(3)).unwrap();
    assert!(memory_fs::try_exists(&fs, "/l/f").unwrap());

    memory_fs::rename(&mut fs, "/l/f", "/g", at(4)).unwrap();
    assert!(!memory_fs::try_exists(&fs, "/l/f").unwrap());
    assert!(!memory_fs::try_exists(&fs, "/d/f").unwrap());
    assert!(memory_fs::try_exists(&fs, "/g").unwrap());
    assert_eq!(memory_fs::read(&fs, "/g").unwrap(), b"moved");
}

#[test]
fn rename_onto_a_link_that_the_source_runs_through_keeps_the_source() {
    let mut fs = fresh();
    make_all(&mut fs, "/p", at(2));
    make_all(&mut fs, "/q/x/x", at(2));
    memory_fs::hard_link(&mut fs, "/q", "/p/l", at(3)).unwrap();
    assert_eq!(memory_fs::canonicalize(&fs, "/p/l/x").unwrap(), "/q/x");

    memory_fs::rename(&mut fs, "/p/l/x", "/p/l", at(4)).unwrap();
    assert!(memory_fs::metadata(&fs, "/p/l").unwrap().is_dir());
    assert!(memory_fs::try_exists(&fs, "/p/l/x").unwrap());
    assert!(!memory_fs::try_exists(&fs, "/q/x").unwrap());
    assert_eq!(listed(&fs, "/p/l"), vec!["x"]);
}

#[test]
fn rename_of_a_link_onto_itself_keeps_the_path() {
    let mut fs = fresh();
    memory_fs::write(&mut fs, "/f", b"bytes", at(2)).unwrap();
    memory_fs::hard_link(&mut fs, "/f", "/l", at(3)).unwrap();
    memory_fs::rename(&mut fs, "/l", "/l", at(4)).unwrap();
    assert!(memory_fs::try_exists(&fs, "/l").unwrap());
    assert!(!memory_fs::try_exists(&fs, "/f").unwrap());
    assert_eq!(memory_fs::read(&fs, "/l").unwrap(), b"bytes");
}

#[test]
fn create_dir_all_through_a_link_makes_the_ancestors_as_written() {
    let mut fs = fresh();
    make_all(&mut fs, "/real", at(2));
    memory_fs::write(&mut fs, "/kept", b"kept", at(2)).unwrap();
    memory_fs::hard_link(&mut fs, "/real", "/alias", at(3)).unwrap();
    make_all(&mut fs, "/alias/a/b", at(4));
    for path in ["/", "/alias", "/alias/a", "/alias/a/b", "/real/a", "/real/a/b"] {
        assert!(memory_fs::try_exists(&fs, path).unwrap());
        assert!(memory_fs::metadata(&fs, path).unwrap().is_dir());
    }
    assert_eq!(memory_fs::read(&fs, "/kept").unwrap(), b"kept");
    assert_eq!(memory_fs::metadata(&fs, "/kept").unwrap().created().unwrap(), at(2));
}

#[test]
fn metadata_reports_the_length_written() {
    let mut fs = fresh();
    memory_fs::write(&mut fs, "/f", b"a longer content", at(2)).unwrap();
    assert_eq!(memory_fs::metadata(&fs, "/f").unwrap().len(), 16);
    memory_fs::write(&mut fs, "/f", b"\0\0", at(3)).unwrap();
    let after = memory_fs::metadata(&fs, "/f").unwrap();
    assert_eq!(after.len(), 2);
    assert!(after.is_file());
    memory_fs::write(&mut fs, "/f", b"", at(4)).unwrap();
    assert_eq!(memory_fs::metadata(&fs, "/f").unwrap().len(), 0);
}

#[test]
fn what_is_written_at_the_original_is_read_through_the_link() {
    let mut fs = fresh();
    memory_fs::write(&mut fs, "/f", b"first", at(2)).unwrap();
    memory_fs::hard_link(&mut fs, "/f", "/l", at(3)).unwrap();
    assert!(memory_fs::try_exists(&fs, "/l").unwrap());
    assert_eq!(
        memory_fs::read_to_string(&fs, "/l").unwrap(),
        memory_fs::read_to_string(&fs, "/f").unwrap()
    );
    memory_fs::write(&mut fs, "/f", b"second", at(4)).unwrap();
    assert_eq!(memory_fs::read(&fs, "/l").unwrap(), b"second");
    memory_fs::write(&mut fs, "/l", b"third", at(5)).unwrap();
    assert_eq!(memory_fs::read(&fs, "/f").unwrap(), b"third");
    assert_eq!(memory_fs::metadata(&fs, "/l").unwrap().len(), 5);
}
