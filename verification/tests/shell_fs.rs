use butterscotch_core::fat32::parse_boot_record;
use butterscotch_core::fat32::Fat;
use butterscotch_core::fat32::FatInfo;
use butterscotch_core::fs::Directory;
use butterscotch_core::io::FileError;
use butterscotch_core::io::Path;
use butterscotch_core::io::Read;
use butterscotch_core::io::Seek;
use butterscotch_core::io::SeekFrom;
use butterscotch_core::io::Write;
use butterscotch_core::ramfile::RamFile;
use butterscotch_core::ramfs::RamFsDirectory;
use butterscotch_core::ramfs::RegularFile;
use butterscotch_core::shell::shell_inner;
use butterscotch_core::shell::string_from_u8_nul_utf;
use butterscotch_core::stdio::add_sink;
use butterscotch_core::stdio::read_line;
use butterscotch_core::stdio::stdin;
use butterscotch_core::stdio::Stdout;

#[test]
fn path_splits_on_slashes() {
    let p = Path::from("a/bb/c");
    let segs: Vec<&str> = p.segments.iter().map(|s| s.as_str()).collect();
    assert_eq!(segs, vec!["a", "bb", "c"]);
    let root = Path::from("top");
    assert_eq!(root.segments.len(), 1);
    assert_eq!(root.segments[0], "top");
}

#[test]
fn ramfile_reads_a_prefix_and_terminates_it() {
    let mut f = RamFile::new(vec![1, 2, 3, 4, 5], true);
    let mut buf = vec![9; 8];
    assert_eq!(f.read(&mut buf), Ok(5));
    assert_eq!(buf, vec![1, 2, 3, 4, 5, 0, 9, 9]);
    // The cursor does not move on reads.
    let mut buf2 = vec![9; 3];
    assert_eq!(f.read(&mut buf2), Ok(3));
    assert_eq!(buf2, vec![1, 2, 3]);
}

#[test]
fn ramfile_write_overwrites_then_appends() {
    let mut f = RamFile::new(vec![1, 2, 3], false);
    assert_eq!(f.seek(SeekFrom::Start(2)), Ok(2));
    assert_eq!(f.write(&vec![7, 8, 9]), Ok(3));
    assert_eq!(f.contents, vec![1, 2, 7, 8, 9]);
    assert_eq!(f.position, 5);
}

#[test]
fn ramfile_refuses_writes_when_read_only() {
    let mut f = RamFile::new(vec![1], true);
    assert_eq!(f.write(&vec![2]), Err(FileError::PermissionsError));
    assert_eq!(f.contents, vec![1]);
}

#[test]
fn ramfile_seek_variants_and_wrap() {
    let mut f = RamFile::new(vec![0; 10], false);
    assert_eq!(f.seek(SeekFrom::Start(4)), Ok(4));
    assert_eq!(f.seek(SeekFrom::Current(3)), Ok(7));
    assert_eq!(f.seek(SeekFrom::End(-2)), Ok(8));
    // A negative target is refused and the cursor stays.
    assert_eq!(f.seek(SeekFrom::Current(-20)), Err(FileError::NegativeSeekError));
    assert_eq!(f.position, 8);
    // A target past the end is reduced once by the length, not clamped.
    assert_eq!(f.seek(SeekFrom::Start(25)), Ok(15));
}

#[test]
fn ramfs_stores_and_reopens_files() {
    let mut root = RamFsDirectory::new();
    let path = Path::from("notes");
    let mut handle = root.create(&path).unwrap();
    // A handle cannot reach the stored file, so it refuses writes rather
    // than keeping bytes the tree would never see.
    assert_eq!(handle.write(&vec![b'h', b'i']), Err(FileError::WriteError));
    let mut ro = root.open(&path, true).unwrap();
    assert_eq!(ro.write(&vec![b'h', b'i']), Err(FileError::PermissionsError));
    // Persisting goes through the write-back.
    root.write_file(&path, &vec![b'h', b'i']).unwrap();
    let mut again = root.open(&path, true).unwrap();
    let mut buf = vec![0; 4];
    assert_eq!(again.read(&mut buf), Ok(2));
    assert_eq!(&buf[..2], b"hi");
}

#[test]
fn ramfs_mkdir_is_idempotent_and_errors_change_nothing() {
    let mut root = RamFsDirectory::new();
    root.mkdir(&Path::from("a/b")).unwrap();
    root.write_file(&Path::from("a/b/f"), &vec![7]).unwrap();
    // A second mkdir of an existing chain changes nothing observable.
    assert_eq!(root.mkdir(&Path::from("a/b")), Ok(()));
    let mut h = root.open(&Path::from("a/b/f"), true).unwrap();
    let mut buf = vec![0; 1];
    assert_eq!(h.read(&mut buf), Ok(1));
    assert_eq!(buf, vec![7]);
    // A refused mkdir leaves the tree as it was, the walked subtree too.
    assert_eq!(root.mkdir(&Path::from("a/b/f/deeper")), Err(FileError::InvalidPath));
    let mut h2 = root.open(&Path::from("a/b/f"), true).unwrap();
    let mut buf2 = vec![0; 1];
    assert_eq!(h2.read(&mut buf2), Ok(1));
    assert_eq!(buf2, vec![7]);
    assert_eq!(root.entries.len(), 1);
}

#[test]
fn ramfs_mkdir_builds_chains_and_rejects_files() {
    let mut root = RamFsDirectory::new();
    assert_eq!(root.mkdir(&Path::from("a/b/c")), Ok(()));
    root.write_file(&Path::from("a/b/c/f"), &vec![1, 2, 3]).unwrap();
    let mut h = root.open(&Path::from("a/b/c/f"), true).unwrap();
    let mut buf = vec![0; 3];
    assert_eq!(h.read(&mut buf), Ok(3));
    assert_eq!(buf, vec![1, 2, 3]);
    // A regular file in the way is an invalid path.
    assert_eq!(root.mkdir(&Path::from("a/b/c/f/g")), Err(FileError::InvalidPath));
}

#[test]
fn ramfs_error_cases() {
    let mut root = RamFsDirectory::new();
    root.mkdir(&Path::from("d")).unwrap();
    assert_eq!(root.open(&Path::from("missing"), true).err(), Some(FileError::NotFound));
    assert_eq!(
        root.open(&Path::from("no/such/file"), true).err(),
        Some(FileError::InvalidPath)
    );
    // Opening a directory path walks into it and runs out of segments.
    assert_eq!(root.open(&Path::from("d"), true).err(), Some(FileError::IsDirectory));
    let f = RegularFile::create();
    let h = f.open(true);
    assert_eq!(h.file.contents.len(), 0);
}

#[test]
fn fat_classifies_a_fat16_boot_record() {
    let mut record = vec![0u8; 512];
    record[11] = 0;  // bytes per sector low
    record[12] = 2;  // 512
    record[13] = 4;  // sectors per cluster
    record[14] = 1;  // reserved sectors
    record[16] = 2;  // tables
    record[17] = 0;
    record[18] = 2;  // 512 root entries
    record[19] = 0x20;
    record[20] = 0x4E;  // 20000 total sectors
    record[22] = 20;  // sectors per fat
    record[39] = 0x78;  // volume id
    match parse_boot_record(&record).unwrap() {
        FatInfo::Fat16(bpb, ebpb) => {
            assert_eq!(bpb.bytes_per_sector, 512);
            assert_eq!(bpb.sectors_per_cluster, 4);
            assert_eq!(bpb.total_sectors_16, 20000);
            assert_eq!(ebpb.volume_id, 0x78);
        },
        other => panic!("wrong classification: {:?}", other),
    }
}

#[test]
fn fat_classifies_exfat_and_fat32() {
    let zero_bps = vec![0u8; 512];
    assert_eq!(parse_boot_record(&zero_bps).unwrap(), FatInfo::ExFat);

    let mut record = vec![0u8; 512];
    record[11] = 0;
    record[12] = 2;  // 512 bytes per sector
    record[13] = 4;  // sectors per cluster
    record[14] = 1;
    record[16] = 2;
    // total sectors in the 32-bit field: 4_000_000
    record[32] = 0x00;
    record[33] = 0x09;
    record[34] = 0x3D;
    record[35] = 0x00;
    // sectors per fat in the 32-bit field: 1000
    record[36] = 0xE8;
    record[37] = 0x03;
    // root cluster 2
    record[44] = 2;
    match parse_boot_record(&record).unwrap() {
        FatInfo::Fat32(_, ebpb) => {
            assert_eq!(ebpb.sectors_per_fat, 1000);
            assert_eq!(ebpb.root_cluster, 2);
        },
        other => panic!("wrong classification: {:?}", other),
    }
}

#[test]
fn fat_reads_its_boot_record_through_a_disk_source() {
    let mut image = vec![0u8; 1024];
    image[11] = 0;
    image[12] = 2;
    image[13] = 1;
    image[19] = 0x10;  // 16 total sectors: few clusters, FAT12
    let disk = RamFile::new(image, true);
    let mut fat = Fat::new(disk).unwrap();
    match fat.fat_info {
        FatInfo::Fat12(bpb, _) => assert_eq!(bpb.bytes_per_sector, 512),
        other => panic!("wrong classification: {:?}", other),
    }
    let sector = fat.read_sector().unwrap();
    assert_eq!(sector.len(), 512);
}

#[test]
fn stdout_fans_out_to_every_sink() {
    let mut out = Stdout::new();
    assert_eq!(add_sink(&mut out), 0);
    assert_eq!(add_sink(&mut out), 1);
    out.write_str("hi").unwrap();
    assert_eq!(out.sinks[0], b"hi");
    assert_eq!(out.sinks[1], b"hi");
    // Byte writes stop at the first zero.
    assert_eq!(out.write(&vec![b'a', b'b', 0, b'c']), Ok(2));
    assert_eq!(out.sinks[0], b"hiab");
    // A multi-byte encoded character goes through whole.
    assert_eq!(out.write(&vec![0xC3, 0xA9, 0]), Ok(2));
    assert_eq!(out.sinks[0], "hiab\u{e9}".as_bytes());
    // Bytes that are no encoding refuse the whole buffer.
    assert_eq!(out.write(&vec![0xff, 0x01]), Err(FileError::InvalidString));
    assert_eq!(out.sinks[0], "hiab\u{e9}".as_bytes());
}

#[test]
fn read_line_edits_with_backspace() {
    let keys: Vec<char> = "ab\u{8}c\ndiscarded".chars().collect();
    assert_eq!(read_line(&keys), "ac\n");
    let keys2: Vec<char> = "\u{8}\u{8}x\n".chars().collect();
    assert_eq!(read_line(&keys2), "x\n");
    let mut buf = String::new();
    let n = stdin().read_line(&mut buf, &keys).unwrap();
    assert_eq!(buf, "ac\n");
    assert_eq!(n, 3);
}

#[test]
fn nul_text_decoding() {
    assert_eq!(string_from_u8_nul_utf(&vec![b'h', b'i', 0, b'x']).unwrap(), "hi");
    assert_eq!(string_from_u8_nul_utf(&vec![b'o', b'k']).unwrap(), "ok");
    // A two-byte encoded character before the terminator decodes.
    assert_eq!(string_from_u8_nul_utf(&vec![0xC3, 0xA9, b'!', 0]).unwrap(), "\u{e9}!");
    // A byte no encoding contains is refused.
    assert_eq!(
        string_from_u8_nul_utf(&vec![0xff, b'a']),
        Err(FileError::InvalidString)
    );
}

#[test]
fn shell_carries_multibyte_text() {
    let mut files = RamFsDirectory::new();
    shell_inner(&mut files, &"put note caf\u{e9}".to_string()).unwrap();
    let cat = shell_inner(&mut files, &"cat note".to_string()).unwrap();
    assert_eq!(cat.output, "caf\u{e9}\n");
}

#[test]
fn shell_answers_the_basic_commands() {
    let mut files = RamFsDirectory::new();
    let help = shell_inner(&mut files, &"help".to_string()).unwrap();
    assert!(help.output.contains("mkdir"));
    let echo = shell_inner(&mut files, &"echo hello there".to_string()).unwrap();
    assert_eq!(echo.output, "echo hello there\n");
    let clear = shell_inner(&mut files, &"clear".to_string()).unwrap();
    assert!(clear.clear_screen);
    let dump = shell_inner(&mut files, &"fsdump".to_string()).unwrap();
    assert!(dump.dump_tree);
    let unknown = shell_inner(&mut files, &"frobnicate".to_string()).unwrap();
    assert_eq!(unknown.output, "Error: Unknown Command\n");
    assert!(shell_inner(&mut files, &"   ".to_string()).is_none());
}

#[test]
fn shell_put_then_cat_roundtrip() {
    let mut files = RamFsDirectory::new();
    shell_inner(&mut files, &"mkdir docs".to_string()).unwrap();
    shell_inner(&mut files, &"put docs/greeting hello".to_string()).unwrap();
    let cat = shell_inner(&mut files, &"cat docs/greeting".to_string()).unwrap();
    assert_eq!(cat.output, "hello\n");
    // cat of a missing file reports the generic error.
    assert!(shell_inner(&mut files, &"cat nothing".to_string()).is_none());
}

#[test]
fn short_disks_report_read_errors() {
    // A source with fewer bytes than a sector: the boot record still
    // parses (zero-filled), but a sector read comes up short.
    let disk = RamFile::new(vec![0u8; 100], true);
    let mut fat = Fat::new(disk).unwrap();
    assert_eq!(fat.read_sector(), Err(FileError::ReadError));
}

#[test]
fn write_past_the_last_offset_is_refused() {
    let mut f = RamFile::new(vec![1], false);
    assert_eq!(f.seek(SeekFrom::Start(u64::MAX)), Ok(u64::MAX - 1));
    assert_eq!(f.write(&vec![5, 6]), Err(FileError::WriteError));
    assert_eq!(f.contents, vec![1]);
}

#[test]
fn tokenizer_drops_empty_pieces() {
    let mut files = RamFsDirectory::new();
    let echo = shell_inner(&mut files, &"\t echo   spaced\tout ".to_string()).unwrap();
    assert_eq!(echo.output, "\t echo   spaced\tout \n");
    let help = shell_inner(&mut files, &"  help  ".to_string()).unwrap();
    assert!(help.output.contains("commands"));
}
