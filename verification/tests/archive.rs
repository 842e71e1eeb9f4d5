use std::io::{Cursor, Read, Write};

use unifs::archive::{archive_items, ArchiveItem};
use unifs::{MemoryFs, UniDirEntry, UniFs, UniFsExt};
use zip::write::FileOptions;
use zip::{ZipArchive, ZipWriter};

fn sample() -> MemoryFs {
    let mut fs = MemoryFs::new();
    fs.create_dir_all("/t/a/b").unwrap();
    fs.create_dir("/empty").unwrap();
    fs.write("/t/a/b/deep", b"deep").unwrap();
    fs.write("/t/top", b"with\0nul").unwrap();
    fs.write("/nothing", b"").unwrap();
    fs
}

fn plain(items: &[ArchiveItem]) -> Vec<(String, Option<Vec<u8>>)> {
    items
        .iter()
        .map(|item| match item {
            ArchiveItem::File { path, data } => (path.clone(), Some(data.clone())),
            ArchiveItem::Directory { path } => (path.clone(), None),
        })
        .collect()
}

#[test]
fn archive_items_are_the_files_and_directories_of_the_walk() {
    let fs = sample();
    let items = archive_items(&fs).unwrap();
    let found = plain(&items);
    let walked: Vec<String> = fs
        .walk_dir(".")
        .into_iter()
        .map(|entry| entry.unwrap().path())
        .collect();
    let order: Vec<String> = found.iter().map(|(path, _)| path.clone()).collect();
    assert_eq!(order, walked);
    let mut sorted = found;
    sorted.sort();
    assert_eq!(
        sorted,
        vec![
            ("/empty".to_string(), None),
            ("/nothing".to_string(), Some(b"".to_vec())),
            ("/t".to_string(), None),
            ("/t/a".to_string(), None),
            ("/t/a/b".to_string(), None),
            ("/t/a/b/deep".to_string(), Some(b"deep".to_vec())),
            ("/t/top".to_string(), Some(b"with\0nul".to_vec())),
        ]
    );
}

#[test]
fn archive_items_of_an_empty_filesystem_are_none() {
    let fs = MemoryFs::new();
    assert!(archive_items(&fs).unwrap().is_empty());
}

#[test]
fn archive_items_pass_over_hard_links() {
    let mut fs = MemoryFs::new();
    fs.write("/f", b"bytes").unwrap();
    fs.hard_link("/f", "/l").unwrap();
    let found = plain(&archive_items(&fs).unwrap());
    assert_eq!(found, vec![("/f".to_string(), Some(b"bytes".to_vec()))]);
}

#[test]
fn archive_items_of_a_rebased_filesystem_have_its_paths() {
    let fs = unifs::AltrootFs::new("/t", sample()).unwrap();
    let mut found = plain(&archive_items(&fs).unwrap());
    found.sort();
    assert_eq!(
        found,
        vec![
            ("a".to_string(), None),
            ("a/b".to_string(), None),
            ("a/b/deep".to_string(), Some(b"deep".to_vec())),
            ("top".to_string(), Some(b"with\0nul".to_vec())),
        ]
    );
}

#[test]
fn archive_items_suit_a_zip_writer() {
    let fs = sample();
    let mut writer = ZipWriter::new(Cursor::new(Vec::new()));
    for item in archive_items(&fs).unwrap() {
        match item {
            ArchiveItem::File { path, data } => {
                writer
                    .start_file_from_path::<(), _>(&path, FileOptions::default())
                    .unwrap();
                writer.write_all(&data).unwrap();
            }
            ArchiveItem::Directory { path } => {
                writer
                    .add_directory_from_path::<(), _>(&path, FileOptions::default())
                    .unwrap();
            }
        }
    }
    let bytes = writer.finish().unwrap().into_inner();
    let mut archive = ZipArchive::new(Cursor::new(bytes)).unwrap();
    assert_eq!(archive.len(), 7);
    let mut deep = Vec::new();
    archive
        .by_name("t/a/b/deep")
        .unwrap()
        .read_to_end(&mut deep)
        .unwrap();
    assert_eq!(deep, b"deep");
    let mut top = Vec::new();
    archive
        .by_name("t/top")
        .unwrap()
        .read_to_end(&mut top)
        .unwrap();
    assert_eq!(top, b"with\0nul");
    assert!(archive.by_name("empty/").unwrap().is_dir());
    assert_eq!(archive.by_name("nothing").unwrap().size(), 0);
}
