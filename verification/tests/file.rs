use std::time::{Duration, SystemTime};

use unifs::memory_fs::file::{offset_position, read_into, resize_to, write_into};
use unifs::memory_fs::open_options::open_at;
use unifs::{
    ErrorKind, FileTimes, MemoryFs, OpenFlags, Permissions, SeekFrom, UniFile, UniFileTimes,
    UniFs, UniMetadata, UniOpenOptions,
};

fn at(seconds: u64) -> SystemTime {
    SystemTime::UNIX_EPOCH + Duration::from_secs(seconds)
}

fn flags(set: &[&str]) -> OpenFlags {
    let mut f = OpenFlags::new();
    for name in set {
        match *name {
            "read" => f.read = true,
            "write" => f.write = true,
            "append" => {
                f.append = true;
                f.write = true;
            }
            "truncate" => f.truncate = true,
            "create" => f.create = true,
            "create_new" => {
                f.create_new = true;
                f.create = true;
            }
            _ => unreachable!(),
        }
    }
    f
}

#[test]
fn buffers_are_read_written_and_resized() {
    let data = b"0123456789".to_vec();
    let mut buf = vec![b'x'; 4];
    assert_eq!(read_into(&data, 3, &mut buf), 4);
    assert_eq!(buf, b"3456");
    let mut buf = vec![b'x'; 4];
    assert_eq!(read_into(&data, 8, &mut buf), 2);
    assert_eq!(buf, b"89xx");
    assert_eq!(read_into(&data, 10, &mut buf), 0);
    assert_eq!(read_into(&data, 99, &mut buf), 0);
    assert_eq!(buf, b"89xx");
    let mut none: Vec<u8> = Vec::new();
    assert_eq!(read_into(&data, 0, &mut none), 0);

    let mut data = b"abcdef".to_vec();
    write_into(&mut data, 2, b"XY");
    assert_eq!(data, b"abXYef");
    write_into(&mut data, 5, b"123");
    assert_eq!(data, b"abXYe123");
    write_into(&mut data, 10, b"!");
    assert_eq!(data, b"abXYe123\0\0!");
    write_into(&mut data, 13, b"");
    assert_eq!(data, b"abXYe123\0\0!\0\0");
    write_into(&mut data, 0, b"");
    assert_eq!(data.len(), 13);

    let mut data = b"abc".to_vec();
    resize_to(&mut data, 5);
    assert_eq!(data, b"abc\0\0");
    resize_to(&mut data, 2);
    assert_eq!(data, b"ab");
    resize_to(&mut data, 2);
    assert_eq!(data, b"ab");
    resize_to(&mut data, 0);
    assert!(data.is_empty());
}

#[test]
fn positions_are_offset_within_bounds() {
    assert_eq!(offset_position(5, -3), Some(2));
    assert_eq!(offset_position(5, -5), Some(0));
    assert_eq!(offset_position(5, -6), None);
    assert_eq!(offset_position(5, 0), Some(5));
    assert_eq!(offset_position(5, 7), Some(12));
    assert_eq!(offset_position(0, i64::MIN), None);
    assert_eq!(offset_position(usize::MAX, 1), None);
    assert_eq!(offset_position(usize::MAX, -1), Some(usize::MAX - 1));
}

#[test]
fn open_follows_the_flags() {
    let mut fs = MemoryFs::new_at(at(1));
    fs.create_dir("/d").unwrap();
    let missing = [
        (flags(&["read"]), ErrorKind::NotFound),
        (flags(&["write"]), ErrorKind::NotFound),
        (flags(&["create"]), ErrorKind::NotFound),
        (flags(&["read", "create"]), ErrorKind::NotFound),
    ];
    for (f, kind) in missing {
        assert_eq!(fs.open_with(f, "/d/f").err().unwrap().kind(), kind);
    }
    assert!(!fs.try_exists("/d/f").unwrap());
    fs.open_with(flags(&["write", "create"]), "/d/f").unwrap();
    assert!(fs.try_exists("/d/f").unwrap());
    fs.open_with(flags(&["append", "create"]), "/d/g").unwrap();
    fs.open_with(flags(&["write", "create_new"]), "/d/h").unwrap();
    assert_eq!(
        fs.open_with(flags(&["write", "create_new"]), "/d/h").err().unwrap().kind(),
        ErrorKind::AlreadyExists
    );
    assert_eq!(
        fs.open_with(flags(&["read"]), "/d").err().unwrap().kind(),
        ErrorKind::InvalidInput
    );
    assert_eq!(
        fs.open_with(flags(&["write", "create"]), "/no/f").err().unwrap().kind(),
        ErrorKind::NotFound
    );
    assert_eq!(
        fs.open_with(flags(&["write", "create"]), "/d/f/x").err().unwrap().kind(),
        ErrorKind::InvalidInput
    );
    assert_eq!(
        fs.open_with(flags(&["read"]), "/../x").err().unwrap().kind(),
        ErrorKind::NotFound
    );

    fs.write("/d/f", b"content").unwrap();
    fs.open_with(flags(&["read"]), "/d/f").unwrap();
    assert_eq!(fs.read("/d/f").unwrap(), b"content");
    fs.open_with(flags(&["read", "truncate"]), "/d/f").unwrap();
    assert_eq!(fs.read("/d/f").unwrap(), b"");

    fs.hard_link("/d/g", "/l").unwrap();
    let through = fs.open_file("/l").unwrap();
    assert_eq!(through.path(), "/d/g");
    fs.hard_link("/l", "/l2").unwrap();
    fs.remove_file("/d/g").unwrap();
    fs.hard_link("/d/h", "/d/g").unwrap();
    assert_eq!(
        fs.open_file("/l").err().unwrap().kind(),
        ErrorKind::InvalidInput
    );
}

#[test]
fn the_builder_sets_the_flags() {
    let mut fs = MemoryFs::new_at(at(1));
    let mut options = fs.new_openoptions();
    options.append(true).create_new(true);
    let file = options.open(&mut fs, "/f").unwrap();
    assert_eq!(file.write(&mut fs, b"ab").unwrap(), 2);
    assert_eq!(
        options.open(&mut fs, "/f").err().unwrap().kind(),
        ErrorKind::AlreadyExists
    );
    options.create_new(false).append(false).truncate(true).read(true);
    let file = options.open(&mut fs, "/f").unwrap();
    assert_eq!(fs.read("/f").unwrap(), b"");
    assert_eq!(file.write(&mut fs, b"cd").unwrap(), 2);
    options.write(false).create(false).truncate(false);
    let file = options.open(&mut fs, "/f").unwrap();
    assert_eq!(
        file.write(&mut fs, b"x").unwrap_err().kind(),
        ErrorKind::PermissionDenied
    );
    assert_eq!(fs.read("/f").unwrap(), b"cd");
    let at_time = open_at(fs.inner_mut(), flags(&["write", "create"]), "/g", at(7)).unwrap();
    assert_eq!(at_time.metadata(&fs).unwrap().created().unwrap(), at(7));
    assert_eq!(fs.metadata("/g").unwrap().created().unwrap(), at(7));
    assert!(fs.metadata("/g").unwrap().modified().is_err());
}

#[test]
fn reading_moves_the_cursor_and_stops_at_the_end() {
    let mut fs = MemoryFs::new_at(at(1));
    fs.write("/f", b"0123456789").unwrap();
    let file = fs.open_file("/f").unwrap();
    let mut buf = vec![0u8; 4];
    assert_eq!(file.read(&mut fs, &mut buf).unwrap(), 4);
    assert_eq!(buf, b"0123");
    assert_eq!(file.read(&mut fs, &mut buf).unwrap(), 4);
    assert_eq!(buf, b"4567");
    assert_eq!(file.read(&mut fs, &mut buf).unwrap(), 2);
    assert_eq!(buf, b"8967");
    assert_eq!(file.read(&mut fs, &mut buf).unwrap(), 0);
    assert_eq!(buf, b"8967");
    let mut empty: Vec<u8> = Vec::new();
    assert_eq!(file.read(&mut fs, &mut empty).unwrap(), 0);
}

#[test]
fn writing_extends_with_zeros_and_overwrites_in_place() {
    let mut fs = MemoryFs::new_at(at(1));
    let mut file = fs.create_file("/f").unwrap();
    assert_eq!(file.write(&mut fs, b"abcdef").unwrap(), 6);
    assert_eq!(file.seek(&mut fs, SeekFrom::Start(2)).unwrap(), 2);
    assert_eq!(file.write(&mut fs, b"XY").unwrap(), 2);
    assert_eq!(fs.read("/f").unwrap(), b"abXYef");
    assert_eq!(file.seek(&mut fs, SeekFrom::End(3)).unwrap(), 9);
    assert_eq!(file.write(&mut fs, b"!").unwrap(), 1);
    assert_eq!(fs.read("/f").unwrap(), b"abXYef\0\0\0!");
    assert_eq!(file.seek(&mut fs, SeekFrom::Current(0)).unwrap(), 10);
    assert_eq!(file.write(&mut fs, b"").unwrap(), 0);
    assert!(file.flush().is_ok());
    assert!(file.sync_all().is_ok());
    assert!(file.sync_data().is_ok());

    let reader = fs.open_file("/f").unwrap();
    assert_eq!(
        reader.write(&mut fs, b"x").unwrap_err().kind(),
        ErrorKind::PermissionDenied
    );
}

#[test]
fn appending_writes_at_the_end_until_a_seek() {
    let mut fs = MemoryFs::new_at(at(1));
    fs.write("/f", b"abc").unwrap();
    let mut file = fs.open_with(flags(&["append"]), "/f").unwrap();
    let other = fs.open_with(flags(&["write"]), "/f").unwrap();
    assert_eq!(file.write(&mut fs, b"de").unwrap(), 2);
    assert_eq!(fs.read("/f").unwrap(), b"abcde");
    assert_eq!(other.write(&mut fs, b"XYZ123").unwrap(), 6);
    assert_eq!(fs.read("/f").unwrap(), b"XYZ123");
    assert_eq!(file.write(&mut fs, b"+").unwrap(), 1);
    assert_eq!(fs.read("/f").unwrap(), b"XYZ123+");
    assert_eq!(file.seek(&mut fs, SeekFrom::Start(0)).unwrap(), 0);
    assert_eq!(file.write(&mut fs, b"_").unwrap(), 1);
    assert_eq!(fs.read("/f").unwrap(), b"_YZ123+");
    assert_eq!(file.write(&mut fs, b"_").unwrap(), 1);
    assert_eq!(fs.read("/f").unwrap(), b"__Z123+");
}

#[test]
fn seeking_fails_before_the_start() {
    let mut fs = MemoryFs::new_at(at(1));
    fs.write("/f", b"0123456789").unwrap();
    let mut file = fs.open_file("/f").unwrap();
    assert_eq!(file.seek(&mut fs, SeekFrom::Start(4)).unwrap(), 4);
    assert_eq!(file.seek(&mut fs, SeekFrom::Current(-4)).unwrap(), 0);
    assert_eq!(
        file.seek(&mut fs, SeekFrom::Current(-1)).unwrap_err().kind(),
        ErrorKind::InvalidInput
    );
    assert_eq!(file.seek(&mut fs, SeekFrom::Current(0)).unwrap(), 0);
    assert_eq!(file.seek(&mut fs, SeekFrom::End(0)).unwrap(), 10);
    assert_eq!(file.seek(&mut fs, SeekFrom::End(-10)).unwrap(), 0);
    assert_eq!(
        file.seek(&mut fs, SeekFrom::End(-11)).unwrap_err().kind(),
        ErrorKind::InvalidInput
    );
    assert_eq!(file.seek(&mut fs, SeekFrom::End(5)).unwrap(), 15);
    let mut buf = vec![0u8; 2];
    assert_eq!(file.read(&mut fs, &mut buf).unwrap(), 0);
    assert_eq!(file.seek(&mut fs, SeekFrom::Current(i64::MIN)).unwrap_err().kind(), ErrorKind::InvalidInput);
    assert_eq!(file.seek(&mut fs, SeekFrom::End(-3)).unwrap(), 7);
    assert_eq!(file.read(&mut fs, &mut buf).unwrap(), 2);
    assert_eq!(buf, b"78");
}

#[test]
fn clones_share_bytes_and_cursor() {
    let mut fs = MemoryFs::new_at(at(1));
    fs.write("/f", b"0123456789").unwrap();
    let mut flags_rw = OpenFlags::new();
    flags_rw.read = true;
    flags_rw.write = true;
    let mut file = fs.open_with(flags_rw, "/f").unwrap();
    let clone = file.try_clone().unwrap();
    let independent = fs.open_with(flags_rw, "/f").unwrap();
    let mut buf = vec![0u8; 3];
    assert_eq!(file.read(&mut fs, &mut buf).unwrap(), 3);
    assert_eq!(clone.read(&mut fs, &mut buf).unwrap(), 3);
    assert_eq!(buf, b"345");
    assert_eq!(independent.read(&mut fs, &mut buf).unwrap(), 3);
    assert_eq!(buf, b"012");
    assert_eq!(file.seek(&mut fs, SeekFrom::Start(8)).unwrap(), 8);
    assert_eq!(clone.write(&mut fs, b"XY").unwrap(), 2);
    assert_eq!(fs.read("/f").unwrap(), b"01234567XY");
    assert_eq!(file.seek(&mut fs, SeekFrom::Current(0)).unwrap(), 10);

    fs.remove_file("/f").unwrap();
    assert!(!fs.try_exists("/f").unwrap());
    assert_eq!(file.seek(&mut fs, SeekFrom::Start(0)).unwrap(), 0);
    let mut buf = vec![0u8; 10];
    assert_eq!(clone.read(&mut fs, &mut buf).unwrap(), 10);
    assert_eq!(buf, b"01234567XY");
}

#[test]
fn a_renamed_file_keeps_its_handles() {
    let mut fs = MemoryFs::new_at(at(1));
    let file = fs.create_file("/a").unwrap();
    fs.rename("/a", "/b").unwrap();
    assert_eq!(file.write(&mut fs, b"after").unwrap(), 5);
    assert_eq!(fs.read("/b").unwrap(), b"after");
}

#[test]
fn set_len_cuts_and_extends() {
    let mut fs = MemoryFs::new_at(at(1));
    fs.write("/f", b"abcdef").unwrap();
    let file = fs.open_file("/f").unwrap();
    file.set_len_at(fs.inner_mut(), 3, at(5)).unwrap();
    assert_eq!(fs.read("/f").unwrap(), b"abc");
    assert_eq!(file.metadata(&fs).unwrap().modified().unwrap(), at(5));
    assert_eq!(file.metadata(&fs).unwrap().len(), 6);
    file.set_len(&mut fs, 5).unwrap();
    assert_eq!(fs.read("/f").unwrap(), b"abc\0\0");
    assert_eq!(fs.metadata("/f").unwrap().len(), 5);
    file.set_len(&mut fs, 0).unwrap();
    assert_eq!(fs.read("/f").unwrap(), b"");
}

#[test]
fn a_handle_keeps_its_own_metadata() {
    let mut fs = MemoryFs::new_at(at(1));
    fs.write("/f", b"abc").unwrap();
    let file = fs.open_file("/f").unwrap();
    let clone = file.try_clone().unwrap();
    assert!(!file.metadata(&fs).unwrap().permissions().readonly);
    file.set_permissions(&mut fs, Permissions { readonly: true }).unwrap();
    assert!(clone.metadata(&fs).unwrap().permissions().readonly);
    assert!(!fs.metadata("/f").unwrap().permissions().readonly);
    let times = FileTimes::new(at(10)).set_accessed(at(11)).set_modified(at(12));
    file.set_times(&mut fs, times).unwrap();
    let seen = clone.metadata(&fs).unwrap();
    assert_eq!(seen.created().unwrap(), at(10));
    assert_eq!(seen.accessed().unwrap(), at(11));
    assert_eq!(seen.modified().unwrap(), at(12));
    file.set_modified(&mut fs, at(20)).unwrap();
    let seen = clone.metadata(&fs).unwrap();
    assert_eq!(seen.modified().unwrap(), at(20));
    assert!(seen.accessed().is_err());
    let defaults = FileTimes::default();
    assert!(defaults.modified.is_none() && defaults.accessed.is_none());
}

#[test]
fn a_handle_is_refused_where_the_filesystem_has_no_cursor_of_its_number() {
    let mut fs = MemoryFs::new_at(at(1));
    let mut other = MemoryFs::new_at(at(1));
    fs.write("/f", b"abc").unwrap();
    let mut file = fs.open_with(flags(&["read", "write"]), "/f").unwrap();
    let mut buf = vec![0u8; 2];
    let kind = ErrorKind::InvalidInput;
    assert_eq!(file.read(&mut other, &mut buf).unwrap_err().kind(), kind);
    assert_eq!(file.write(&mut other, b"x").unwrap_err().kind(), kind);
    assert_eq!(file.seek(&mut other, SeekFrom::Start(0)).unwrap_err().kind(), kind);
    assert_eq!(file.set_len(&mut other, 1).unwrap_err().kind(), kind);
    assert_eq!(file.metadata(&other).unwrap_err().kind(), kind);
    assert_eq!(
        file.set_permissions(&mut other, Permissions { readonly: true }).unwrap_err().kind(),
        kind
    );
    assert_eq!(
        file.set_times(&mut other, FileTimes::new(at(3))).unwrap_err().kind(),
        kind
    );
    assert_eq!(buf, vec![0u8; 2]);
}

#[test]
fn a_handle_acts_on_the_cursor_of_its_number_in_whatever_filesystem_it_is_given() {
    let mut fs = MemoryFs::new_at(at(1));
    let mut other = MemoryFs::new_at(at(1));
    fs.write("/f", b"abc").unwrap();
    other.write("/g", b"XYZW").unwrap();
    let file = fs.open_with(flags(&["read", "write"]), "/f").unwrap();
    let there = other.open_with(flags(&["read", "write"]), "/g").unwrap();
    let mut buf = vec![0u8; 2];
    assert_eq!(file.read(&mut other, &mut buf).unwrap(), 2);
    assert_eq!(buf, b"XY");
    assert_eq!(file.write(&mut other, b"!").unwrap(), 1);
    assert_eq!(other.read("/g").unwrap(), b"XY!W");
    assert_eq!(fs.read("/f").unwrap(), b"abc");
    let mut rest = vec![0u8; 4];
    assert_eq!(there.read(&mut other, &mut rest).unwrap(), 1);
    assert_eq!(rest[0], b'W');
    let mut own = vec![0u8; 3];
    assert_eq!(file.read(&mut fs, &mut own).unwrap(), 3);
    assert_eq!(own, b"abc");
}
