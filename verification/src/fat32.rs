//! FAT volume detection: reads the boot record off a disk source and
//! classifies the volume by its cluster count.

use vstd::prelude::*;
use crate::io::FileError;
use crate::io::Read;
use crate::io::Seek;
use crate::io::SeekFrom;

verus! {

/// Little-endian byte pairs and quads of the boot record.
pub open spec fn le16(b: Seq<u8>, off: int) -> int {
    b[off] + 256 * b[off + 1]
}

pub open spec fn le32(b: Seq<u8>, off: int) -> int {
    b[off] + 256 * b[off + 1] + 65536 * b[off + 2] + 16777216 * b[off + 3]
}

/// The BIOS parameter block common to every FAT flavour, as plain values.
#[derive(Clone, Copy, PartialEq, Eq, Structural, Debug)]
pub struct FatBPB {
    pub bytes_per_sector: u16,
    pub sectors_per_cluster: u8,
    pub reserved_sector_count: u16,
    pub table_count: u8,
    pub root_entry_count: u16,
    pub total_sectors_16: u16,
    pub media_type: u8,
    pub sectors_per_fat: u16,
    pub sectors_per_track: u16,
    pub head_side_count: u16,
    pub hidden_sector_count: u32,
    pub total_sectors_32: u32,
}

/// The extended block of FAT12 and FAT16 volumes.
#[derive(Clone, Copy, PartialEq, Eq, Structural, Debug)]
pub struct Fat16EBPB {
    pub bios_drive_num: u8,
    pub boot_signature: u8,
    pub volume_id: u32,
}

/// The extended block of FAT32 volumes.
#[derive(Clone, Copy, PartialEq, Eq, Structural, Debug)]
pub struct Fat32EBPB {
    pub sectors_per_fat: u32,
    pub flags: u16,
    pub fat_version: u16,
    pub root_cluster: u32,
    pub fsinfo: u16,
    pub backup_bs_sector: u16,
    pub drive_number: u8,
    pub boot_signature: u8,
    pub volume_id: u32,
}

/// The detected volume flavour with its parsed blocks.
#[derive(Clone, Copy, PartialEq, Eq, Structural, Debug)]
pub enum FatInfo {
    ExFat,
    Fat12(FatBPB, Fat16EBPB),
    Fat16(FatBPB, Fat16EBPB),
    Fat32(FatBPB, Fat32EBPB),
}

/// The parameter block the boot record's bytes carry.
pub open spec fn bpb_of(b: Seq<u8>) -> FatBPB {
    FatBPB {
        bytes_per_sector: le16(b, 11) as u16,
        sectors_per_cluster: b[13],
        reserved_sector_count: le16(b, 14) as u16,
        table_count: b[16],
        root_entry_count: le16(b, 17) as u16,
        total_sectors_16: le16(b, 19) as u16,
        media_type: b[21],
        sectors_per_fat: le16(b, 22) as u16,
        sectors_per_track: le16(b, 24) as u16,
        head_side_count: le16(b, 26) as u16,
        hidden_sector_count: le32(b, 28) as u32,
        total_sectors_32: le32(b, 32) as u32,
    }
}

pub open spec fn ebpb16_of(b: Seq<u8>) -> Fat16EBPB {
    Fat16EBPB { bios_drive_num: b[36], boot_signature: b[38], volume_id: le32(b, 39) as u32 }
}

pub open spec fn ebpb32_of(b: Seq<u8>) -> Fat32EBPB {
    Fat32EBPB {
        sectors_per_fat: le32(b, 36) as u32,
        flags: le16(b, 40) as u16,
        fat_version: le16(b, 42) as u16,
        root_cluster: le32(b, 44) as u32,
        fsinfo: le16(b, 48) as u16,
        backup_bs_sector: le16(b, 50) as u16,
        drive_number: b[64],
        boot_signature: b[66],
        volume_id: le32(b, 67) as u32,
    }
}

/// What a 512-byte boot record classifies as.  A zero sector size means an
/// exFAT record; otherwise the data-area cluster count decides between
/// FAT12, FAT16 and FAT32.  A record whose bookkeeping sectors exceed its
/// total, or with a zero cluster size, is unreadable.
pub open spec fn classify_boot_record(b: Seq<u8>) -> Result<FatInfo, FileError> {
    let bps = le16(b, 11);
    if bps == 0 {
        Ok(FatInfo::ExFat)
    } else {
        let total: int = if le16(b, 19) != 0 {
            le16(b, 19)
        } else {
            le32(b, 32)
        };
        let spf: int = if le16(b, 22) != 0 {
            le16(b, 22)
        } else {
            le32(b, 36)
        };
        let root_dir_sectors = (le16(b, 17) * 32 + (bps - 1)) / bps;
        let used = le16(b, 14) + b[16] * spf + root_dir_sectors;
        let spc: int = b[13] as int;
        if total < used || spc == 0 {
            Err(FileError::ReadError)
        } else {
            let clusters = (total - used) / spc;
            if clusters < 4085 {
                Ok(FatInfo::Fat12(bpb_of(b), ebpb16_of(b)))
            } else if clusters < 65525 {
                Ok(FatInfo::Fat16(bpb_of(b), ebpb16_of(b)))
            } else {
                Ok(FatInfo::Fat32(bpb_of(b), ebpb32_of(b)))
            }
        }
    }
}

fn read_le16(b: &Vec<u8>, off: usize) -> (r: u16)
    requires
        off + 2 <= b@.len(),
    ensures
        r == le16(b@, off as int),
{
    let n = b.len();
    proof {
        assert(off + 2 <= n);
    }
    b[off] as u16 + (b[off + 1] as u16) * 256
}

fn read_le32(b: &Vec<u8>, off: usize) -> (r: u32)
    requires
        off + 4 <= b@.len(),
    ensures
        r == le32(b@, off as int),
{
    let n = b.len();
    proof {
        assert(off + 4 <= n);
    }
    b[off] as u32 + (b[off + 1] as u32) * 256 + (b[off + 2] as u32) * 65536 + (b[off
        + 3] as u32) * 16777216
}

/// Parses and classifies a 512-byte boot record.
pub fn parse_boot_record(b: &Vec<u8>) -> (r: Result<FatInfo, FileError>)
    requires
        b@.len() == 512,
    ensures
        r == classify_boot_record(b@),
{
    let bps = read_le16(b, 11);
    if bps == 0 {
        return Ok(FatInfo::ExFat);
    }
    let ts16 = read_le16(b, 19);
    let total: u64 = if ts16 != 0 {
        ts16 as u64
    } else {
        read_le32(b, 32) as u64
    };
    let spf16 = read_le16(b, 22);
    let spf: u64 = if spf16 != 0 {
        spf16 as u64
    } else {
        read_le32(b, 36) as u64
    };
    let root_dir_sectors: u64 = ((read_le16(b, 17) as u64) * 32 + (bps as u64 - 1)) / (bps as u64);
    let table_count = b[16] as u64;
    proof {
        assert(table_count * spf <= 255 * 0xffff_ffff) by (nonlinear_arith)
            requires
                table_count <= 255,
                spf <= 0xffff_ffff,
        ;
    }
    let used: u64 = read_le16(b, 14) as u64 + table_count * spf + root_dir_sectors;
    let spc = b[13];
    if total < used || spc == 0 {
        return Err(FileError::ReadError);
    }
    let clusters = (total - used) / (spc as u64);
    let bpb = FatBPB {
        bytes_per_sector: bps,
        sectors_per_cluster: b[13],
        reserved_sector_count: read_le16(b, 14),
        table_count: b[16],
        root_entry_count: read_le16(b, 17),
        total_sectors_16: read_le16(b, 19),
        media_type: b[21],
        sectors_per_fat: read_le16(b, 22),
        sectors_per_track: read_le16(b, 24),
        head_side_count: read_le16(b, 26),
        hidden_sector_count: read_le32(b, 28),
        total_sectors_32: read_le32(b, 32),
    };
    if clusters < 4085 {
        Ok(
            FatInfo::Fat12(
                bpb,
                Fat16EBPB {
                    bios_drive_num: b[36],
                    boot_signature: b[38],
                    volume_id: read_le32(b, 39),
                },
            ),
        )
    } else if clusters < 65525 {
        Ok(
            FatInfo::Fat16(
                bpb,
                Fat16EBPB {
                    bios_drive_num: b[36],
                    boot_signature: b[38],
                    volume_id: read_le32(b, 39),
                },
            ),
        )
    } else {
        Ok(
            FatInfo::Fat32(
                bpb,
                Fat32EBPB {
                    sectors_per_fat: read_le32(b, 36),
                    flags: read_le16(b, 40),
                    fat_version: read_le16(b, 42),
                    root_cluster: read_le32(b, 44),
                    fsinfo: read_le16(b, 48),
                    backup_bs_sector: read_le16(b, 50),
                    drive_number: b[64],
                    boot_signature: b[66],
                    volume_id: read_le32(b, 67),
                },
            ),
        )
    }
}

/// A FAT volume over any seekable byte source.  The boot record the
/// classification came from is kept, so a caller can audit `fat_info`
/// against it.
pub struct Fat<T> where T: Read + Seek {
    pub disk: T,
    pub fat_info: FatInfo,
    pub boot_record: Vec<u8>,
}

impl<T> Fat<T> where T: Read + Seek {
    /// Reads the boot record at the start of `disk` and classifies the
    /// volume.  A seek or read refusal from the source propagates;
    /// `fat_info` is exactly [`classify_boot_record`] of the kept 512-byte
    /// record (bytes the source did not fill stay zero).  What those bytes
    /// are rests on the source's `Read` implementation, which this crate's
    /// byte stores prove exact.
    pub fn new(disk: T) -> (r: Result<Fat<T>, FileError>)
        ensures
            r matches Ok(f) ==> f.boot_record@.len() == 512 && classify_boot_record(
                f.boot_record@,
            ) == Ok::<FatInfo, FileError>(f.fat_info),
    {
        let mut disk = disk;
        let mut boot_record: Vec<u8> = Vec::new();
        let mut i: usize = 0;
        while i < 512
            invariant
                i == boot_record@.len(),
                0 <= i <= 512,
            decreases 512 - i,
        {
            boot_record.push(0);
            i = i + 1;
        }
        match disk.seek(SeekFrom::Start(0)) {
            Ok(_) => (),
            Err(e) => {
                return Err(e);
            },
        }
        match disk.read(&mut boot_record) {
            Ok(_) => (),
            Err(e) => {
                return Err(e);
            },
        }
        let fat_info = match parse_boot_record(&boot_record) {
            Ok(info) => info,
            Err(e) => {
                return Err(e);
            },
        };
        Ok(Fat { disk, fat_info, boot_record })
    }

    /// Reads the next 512-byte sector from the source.  A source that hands
    /// back fewer bytes than a sector is reported as a read error.
    pub fn read_sector(&mut self) -> (r: Result<Vec<u8>, FileError>)
        ensures
            r matches Ok(v) ==> v@.len() == 512,
    {
        let mut buf: Vec<u8> = Vec::new();
        let mut i: usize = 0;
        while i < 512
            invariant
                i == buf@.len(),
                0 <= i <= 512,
            decreases 512 - i,
        {
            buf.push(0);
            i = i + 1;
        }
        let size = match self.disk.read(&mut buf) {
            Ok(n) => n,
            Err(e) => {
                return Err(e);
            },
        };
        if size != 512 {
            return Err(FileError::ReadError);
        }
        Ok(buf)
    }
}

} // verus!
