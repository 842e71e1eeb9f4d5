use unifs::{ErrorKind, MemoryFs, OpenFlags, SeekFrom, SharedFs, UniMetadata, UniReadDir};

#[test]
fn handles_share_one_filesystem() {
    let first = SharedFs::new(MemoryFs::new());
    let second = first.clone();
    first.create_dir("/d").unwrap();
    assert!(second.try_exists("/d").unwrap());
    second.write("/d/f", b"from the second").unwrap();
    assert_eq!(first.read("/d/f").unwrap(), b"from the second");
    assert_eq!(first.read_to_string("/d/f").unwrap(), "from the second");
    drop(second);
    assert_eq!(first.read("/d/f").unwrap(), b"from the second");
    let third = first.clone();
    drop(first);
    assert!(third.metadata("/d/f").unwrap().is_file());
}

#[test]
fn every_operation_goes_through_the_lock() {
    let fs = SharedFs::new(MemoryFs::new());
    fs.create_dir_all("/a/b").unwrap();
    fs.write("/a/b/f", b"12345").unwrap();
    assert_eq!(fs.copy("/a/b/f", "/a/g").unwrap(), 5);
    fs.hard_link("/a/g", "/l").unwrap();
    assert_eq!(fs.read("/l").unwrap(), b"12345");
    assert_eq!(fs.canonicalize("/l").unwrap(), "/a/g");
    fs.rename("/a/b", "/c").unwrap();
    assert_eq!(fs.read("/c/f").unwrap(), b"12345");
    let mut listing = fs.read_dir("/").unwrap();
    let mut count = 0;
    while let Some(entry) = listing.next() {
        assert!(entry.is_ok());
        count += 1;
    }
    assert_eq!(count, 3);
    let permissions = fs.metadata("/c/f").unwrap().permissions();
    fs.set_permissions("/c/f", permissions).unwrap();
    fs.remove_file("/c/f").unwrap();
    fs.remove_dir("/c").unwrap();
    assert_eq!(
        fs.remove_dir("/a").unwrap_err().kind(),
        ErrorKind::DirectoryNotEmpty
    );
    fs.remove_dir_all("/a").unwrap();
    assert!(!fs.try_exists("/a").unwrap());
    assert_eq!(fs.read_link("/l").unwrap_err().kind(), ErrorKind::Unsupported);
    assert_eq!(
        fs.symlink_metadata("/l").unwrap_err().kind(),
        ErrorKind::Unsupported
    );
}

#[test]
fn files_are_used_while_the_lock_is_held() {
    let fs = SharedFs::new(MemoryFs::new());
    let mut flags = OpenFlags::new();
    flags.read = true;
    flags.write = true;
    flags.create = true;
    let file = fs.open_with(flags, "/f").unwrap();
    assert_eq!(fs.file_write(&file, b"shared bytes").unwrap(), 12);
    let other = fs.clone();
    assert_eq!(other.read("/f").unwrap(), b"shared bytes");
    let (file, position) = fs.file_seek(file, SeekFrom::Start(7));
    assert_eq!(position.unwrap(), 7);
    assert_eq!(other.file_read(&file, 3).unwrap(), b"byt");
    assert_eq!(other.file_read(&file, 10).unwrap(), b"es");
    assert_eq!(other.file_read(&file, 10).unwrap(), b"");
    assert_eq!(other.file_read(&file, 0).unwrap(), b"");
    fs.file_set_len(&file, 6).unwrap();
    assert_eq!(other.read("/f").unwrap(), b"shared");
    assert_eq!(fs.file_metadata(&file).unwrap().len(), 0);
    assert_eq!(other.metadata("/f").unwrap().len(), 6);
    let (file, position) = fs.file_seek(file, SeekFrom::Current(-100));
    assert_eq!(position.unwrap_err().kind(), ErrorKind::InvalidInput);
    let reader = other.open_with(OpenFlags::new(), "/f").unwrap();
    assert_eq!(
        fs.file_write(&reader, b"x").unwrap_err().kind(),
        ErrorKind::PermissionDenied
    );
    drop(file);
}
