use unifs::readonly_fs::error;
use unifs::{
    ErrorKind, MemoryFs, OpenFlags, ReadonlyFs, SeekFrom, UniDirBuilder, UniFile, UniFs,
    UniMetadata, UniOpenOptions, UniPermissions, UniReadDir,
};

fn sample() -> ReadonlyFs<MemoryFs> {
    let mut inner = MemoryFs::new();
    inner.create_dir("/d").unwrap();
    inner.write("/d/f", b"content").unwrap();
    ReadonlyFs::new(inner)
}

#[test]
fn error_is_of_the_read_only_kind() {
    let e = error("no");
    assert_eq!(e.kind(), ErrorKind::ReadOnlyFilesystem);
    assert_eq!(e.message(), "no");
}

#[test]
fn queries_are_handed_on() {
    let fs = sample();
    assert!(fs.try_exists("/d/f").unwrap());
    assert_eq!(fs.read("/d/f").unwrap(), b"content");
    assert_eq!(fs.read_to_string("/d/f").unwrap(), "content");
    assert_eq!(fs.canonicalize("/d/./f").unwrap(), "/d/f");
    let metadata = fs.metadata("/d/f").unwrap();
    assert!(metadata.is_file());
    assert_eq!(metadata.len(), 7);
    assert!(metadata.permissions().readonly());
    let mut listing = fs.read_dir("/d").unwrap();
    assert!(listing.next().unwrap().is_ok());
    assert!(listing.next().is_none());
}

#[test]
fn every_change_is_refused() {
    let mut fs = sample();
    let kind = ErrorKind::ReadOnlyFilesystem;
    assert_eq!(fs.copy("/d/f", "/d/g").unwrap_err().kind(), kind);
    assert_eq!(fs.create_dir("/e").unwrap_err().kind(), kind);
    assert_eq!(fs.create_dir_all("/e/f").unwrap_err().kind(), kind);
    assert_eq!(fs.hard_link("/d/f", "/l").unwrap_err().kind(), kind);
    assert_eq!(fs.remove_dir("/d").unwrap_err().kind(), kind);
    assert_eq!(fs.remove_dir_all("/d").unwrap_err().kind(), kind);
    assert_eq!(fs.remove_file("/d/f").unwrap_err().kind(), kind);
    assert_eq!(fs.rename("/d/f", "/d/g").unwrap_err().kind(), kind);
    assert_eq!(fs.write("/d/f", b"new").unwrap_err().kind(), kind);
    assert_eq!(fs.create_file("/d/g").err().unwrap().kind(), kind);
    assert_eq!(fs.create_new_file("/d/g").err().unwrap().kind(), kind);
    let builder = fs.new_dirbuilder();
    assert_eq!(builder.create(&mut fs, "/e").unwrap_err().kind(), kind);
    let mut options = fs.new_openoptions();
    options.read(true).write(true);
    assert_eq!(options.open(&mut fs, "/d/f").err().unwrap().kind(), kind);
    let mut flags = OpenFlags::new();
    flags.truncate = true;
    assert_eq!(fs.open_with(flags, "/d/f").err().unwrap().kind(), kind);
    assert_eq!(fs.read("/d/f").unwrap(), b"content");
    assert!(!fs.try_exists("/e").unwrap());
}

#[test]
fn files_can_be_read_and_not_written() {
    let mut fs = sample();
    let mut file = fs.open_file("/d/f").unwrap();
    let mut buf = vec![0u8; 4];
    assert_eq!(file.read(&mut fs, &mut buf).unwrap(), 4);
    assert_eq!(buf, b"cont");
    assert_eq!(file.seek(&mut fs, SeekFrom::Start(1)).unwrap(), 1);
    assert_eq!(
        file.write(&mut fs, b"x").unwrap_err().kind(),
        ErrorKind::ReadOnlyFilesystem
    );
    assert_eq!(
        file.set_len(&mut fs, 0).unwrap_err().kind(),
        ErrorKind::ReadOnlyFilesystem
    );
    assert_eq!(fs.read("/d/f").unwrap(), b"content");
}

#[test]
fn permissions_stay_read_only() {
    let fs = sample();
    let mut permissions = fs.metadata("/d").unwrap().permissions();
    permissions.set_readonly(false);
    assert!(permissions.readonly());
}
