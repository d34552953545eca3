use vstd::prelude::*;

use crate::errors::DeviceError;
use crate::geometry::FlashGeometry;

verus! {

/// Serial number written into the boot sector's volume-id field.
pub const VOLUME_ID: u32 = 0x1234_ABCD;

/// Byte `j` (0 = low) of a 16-bit value stored little-endian.
pub open spec fn le16_byte(v: u16, j: int) -> u8 {
    if j == 0 {
        (v as int % 256) as u8
    } else {
        (v as int / 256) as u8
    }
}

/// Byte `j` (0 = low) of a 32-bit value stored little-endian.
pub open spec fn le32_byte(v: u32, j: int) -> u8 {
    if j == 0 {
        (v as int % 256) as u8
    } else if j == 1 {
        (v as int / 256 % 256) as u8
    } else if j == 2 {
        (v as int / 65536 % 256) as u8
    } else {
        (v as int / 16777216 % 256) as u8
    }
}

/// Byte `j` of the boot sector's eight-byte OEM name, "MSDOS5.0".
pub open spec fn oem_name_byte(j: int) -> u8 {
    if j == 0 {
        0x4D
    } else if j == 1 {
        0x53
    } else if j == 2 {
        0x44
    } else if j == 3 {
        0x4F
    } else if j == 4 {
        0x53
    } else if j == 5 {
        0x35
    } else if j == 6 {
        0x2E
    } else {
        0x30
    }
}

/// Byte `j` of the boot sector's eight-byte filesystem-type field,
/// "FAT16   ".
pub open spec fn fs_type_byte(j: int) -> u8 {
    if j == 0 {
        0x46
    } else if j == 1 {
        0x41
    } else if j == 2 {
        0x54
    } else if j == 3 {
        0x31
    } else if j == 4 {
        0x36
    } else {
        0x20
    }
}

/// Sectors per FAT copy for `data_blocks` one-sector clusters: entries
/// for clusters 0 and 1 plus one per cluster, 256 two-byte entries per
/// 512-byte sector, rounded up.
pub open spec fn spec_sectors_per_fat(data_blocks: int) -> int {
    (data_blocks + 2 + 255) / 256
}

/// A pure generator of FAT16 filesystem metadata.
///
/// The volume has one reserved (boot) sector, two FAT copies, a
/// 16-entry (one-sector) root directory, one sector per cluster, and a
/// single file — the flash window exposed to the host — occupying the
/// contiguous cluster run starting at cluster 2.  Every metadata block
/// is computed from these fixed parameters alone, so identical block
/// indices always yield identical bytes.
pub struct VirtualFatImage {
    pub sectors_per_fat: u32,
    pub data_blocks: u32,
    pub media: u8,
    pub file_size: u32,
    pub volume_label: Vec<u8>,
    pub file_name: Vec<u8>,
}

/// A 512-byte vector of zeroes to write fields into.
fn zeroed_block() -> (v: Vec<u8>)
    ensures
        v@.len() == 512,
        forall|j: int| 0 <= j < 512 ==> v@[j] == 0u8,
{
    let mut v: Vec<u8> = Vec::new();
    let mut i: usize = 0;
    while i < 512
        invariant
            i <= 512,
            v@.len() == i,
            forall|j: int| 0 <= j < i ==> v@[j] == 0u8,
        decreases 512 - i,
    {
        v.push(0);
        i = i + 1;
    }
    v
}

/// Store `val` little-endian in `v[off..off + 2]`.
fn put_le16(v: &mut Vec<u8>, off: usize, val: u16)
    requires
        off + 2 <= old(v)@.len(),
    ensures
        final(v)@ == old(v)@.update(off as int, le16_byte(val, 0)).update(
            off as int + 1,
            le16_byte(val, 1),
        ),
{
    let n = v.len();
    assert(off + 2 <= n);
    v.set(off, (val % 256) as u8);
    v.set(off + 1, (val / 256) as u8);
}

/// Store `val` little-endian in `v[off..off + 4]`.
fn put_le32(v: &mut Vec<u8>, off: usize, val: u32)
    requires
        off + 4 <= old(v)@.len(),
    ensures
        final(v)@.len() == old(v)@.len(),
        forall|j: int|
            0 <= j < old(v)@.len() ==> final(v)@[j] == (if off <= j < off + 4 {
                le32_byte(val, j - off)
            } else {
                old(v)@[j]
            }),
{
    let n = v.len();
    assert(off + 4 <= n);
    v.set(off, (val % 256) as u8);
    v.set(off + 1, ((val / 256) % 256) as u8);
    v.set(off + 2, ((val / 65536) % 256) as u8);
    v.set(off + 3, ((val / 16777216) % 256) as u8);
}

impl VirtualFatImage {
    /// Parameters that describe a representable FAT16 volume: 8.3-style
    /// 11-byte label and file name, at least one cluster, cluster
    /// numbers that fit in 16-bit FAT entries, a FAT sized for them, and
    /// the exposed file spanning the whole cluster run.
    pub open spec fn wf(self) -> bool {
        &&& self.volume_label@.len() == 11
        &&& self.file_name@.len() == 11
        &&& 1 <= self.data_blocks
        &&& self.data_blocks + 2 <= 0xFFF0
        &&& self.sectors_per_fat as int == spec_sectors_per_fat(self.data_blocks as int)
        &&& self.file_size as int == self.data_blocks as int * 512
    }

    pub open spec fn spf(self) -> int {
        self.sectors_per_fat as int
    }

    /// Synthesized metadata blocks: boot sector, two FAT copies, one
    /// root-directory sector.
    pub open spec fn synthetic_blocks(self) -> int {
        2 + 2 * self.spf()
    }

    /// Sectors of the whole volume, metadata plus data region.
    pub open spec fn total_sectors(self) -> int {
        self.synthetic_blocks() + self.data_blocks
    }

    /// The 16-bit total-sector count in the boot sector (zero when the
    /// count only fits the 32-bit field).
    pub open spec fn total_sectors_16(self) -> u16 {
        if self.total_sectors() <= 0xFFFF {
            self.total_sectors() as u16
        } else {
            0
        }
    }

    /// The 32-bit total-sector count in the boot sector (zero when the
    /// 16-bit field is used).
    pub open spec fn total_sectors_32(self) -> u32 {
        if self.total_sectors() <= 0xFFFF {
            0
        } else {
            self.total_sectors() as u32
        }
    }

    /// FAT entry for cluster `c`: the media entry, the end-of-chain
    /// entry, a link to the next cluster of the single contiguous file,
    /// its final end-of-chain mark, or free.
    pub open spec fn fat_entry(self, c: int) -> u16 {
        if c == 0 {
            (0xFF00 + self.media as int) as u16
        } else if c == 1 {
            0xFFFF
        } else if c < 2 + self.data_blocks {
            if c == 1 + self.data_blocks {
                0xFFFF
            } else {
                (c + 1) as u16
            }
        } else {
            0
        }
    }

    /// Byte `off` of one FAT copy laid out as little-endian 16-bit
    /// entries.
    pub open spec fn fat_byte(self, off: int) -> u8 {
        le16_byte(self.fat_entry(off / 2), off % 2)
    }

    /// Byte `k` of the boot sector: a jump stub, the OEM name, the BPB
    /// fields (bytes-per-sector 512, one sector per cluster, one
    /// reserved sector, two FATs, 16 root entries, total sectors,
    /// media, sectors per FAT), drive number, extended signature,
    /// volume id, label and filesystem type, and the 0x55 0xAA
    /// signature.
    pub open spec fn boot_byte(self, k: int) -> u8 {
        if k == 0 {
            0xEB
        } else if k == 1 {
            0x3C
        } else if k == 2 {
            0x90
        } else if 3 <= k < 11 {
            oem_name_byte(k - 3)
        } else if k == 11 {
            le16_byte(512, 0)
        } else if k == 12 {
            le16_byte(512, 1)
        } else if k == 13 {
            1
        } else if k == 14 {
            le16_byte(1, 0)
        } else if k == 15 {
            le16_byte(1, 1)
        } else if k == 16 {
            2
        } else if k == 17 {
            le16_byte(16, 0)
        } else if k == 18 {
            le16_byte(16, 1)
        } else if k == 19 {
            le16_byte(self.total_sectors_16(), 0)
        } else if k == 20 {
            le16_byte(self.total_sectors_16(), 1)
        } else if k == 21 {
            self.media
        } else if k == 22 {
            le16_byte(self.sectors_per_fat as u16, 0)
        } else if k == 23 {
            le16_byte(self.sectors_per_fat as u16, 1)
        } else if 32 <= k < 36 {
            le32_byte(self.total_sectors_32(), k - 32)
        } else if k == 36 {
            0x80
        } else if k == 38 {
            0x29
        } else if 39 <= k < 43 {
            le32_byte(VOLUME_ID, k - 39)
        } else if 43 <= k < 54 {
            self.volume_label@[k - 43]
        } else if 54 <= k < 62 {
            fs_type_byte(k - 54)
        } else if k == 510 {
            0x55
        } else if k == 511 {
            0xAA
        } else {
            0
        }
    }

    /// Byte `k` of the root-directory sector: entry 0 (offset 0) is the
    /// volume label, entry 1 (offset 32) the exposed read-only file
    /// starting at cluster 2, all later entries free.
    pub open spec fn dir_byte(self, k: int) -> u8 {
        if 0 <= k < 11 {
            self.volume_label@[k]
        } else if k == 11 {
            0x08
        } else if 32 <= k < 43 {
            self.file_name@[k - 32]
        } else if k == 43 {
            0x01
        } else if k == 58 {
            le16_byte(2, 0)
        } else if k == 59 {
            le16_byte(2, 1)
        } else if 60 <= k < 64 {
            le32_byte(self.file_size, k - 60)
        } else {
            0
        }
    }

    /// Byte `k` of metadata block `i`.
    pub open spec fn block_byte(self, i: int, k: int) -> u8 {
        if i == 0 {
            self.boot_byte(k)
        } else if i < 1 + 2 * self.spf() {
            self.fat_byte(((i - 1) % self.spf()) * 512 + k)
        } else {
            self.dir_byte(k)
        }
    }

    /// The contents of metadata block `i`.
    pub open spec fn spec_block(self, i: int) -> Seq<u8> {
        Seq::new(512, |k: int| self.block_byte(i, k))
    }

    /// Derived bounds every well-formed image satisfies.
    pub proof fn lemma_wf_bounds(self)
        requires
            self.wf(),
        ensures
            1 <= self.spf() <= 256,
            4 <= self.synthetic_blocks() <= 514,
            self.total_sectors() <= 0xFFF0 + 514,
    {
        assert(1 <= (self.data_blocks as int + 2 + 255) / 256 <= 256) by (nonlinear_arith)
            requires
                1 <= self.data_blocks as int,
                self.data_blocks as int + 2 <= 0xFFF0,
        ;
    }

    /// Build the image parameters for a flash window: one cluster per
    /// 512-byte block, the exposed file covering the whole window.  A
    /// window with more clusters than 16-bit FAT entries can number is
    /// rejected.
    pub fn new(geom: FlashGeometry, volume_label: Vec<u8>, file_name: Vec<u8>, media: u8) -> (r:
        Result<VirtualFatImage, DeviceError>)
        requires
            geom.wf(),
            volume_label@.len() == 11,
            file_name@.len() == 11,
        ensures
            match r {
                Ok(img) => {
                    &&& img.wf()
                    &&& geom.flash_blocks() + 2 <= 0xFFF0
                    &&& img.data_blocks as int == geom.flash_blocks()
                    &&& img.media == media
                    &&& img.volume_label@ == volume_label@
                    &&& img.file_name@ == file_name@
                },
                Err(e) => {
                    &&& e == DeviceError::ConfigurationError
                    &&& geom.flash_blocks() + 2 > 0xFFF0
                },
            },
    {
        proof {
            crate::arith::lemma_aligned_apart(
                geom.page_size as int,
                geom.min_address as int,
                geom.max_address as int,
            );
        }
        let data_blocks = (geom.max_address - geom.min_address) / 512;
        if data_blocks + 2 > 0xFFF0 {
            return Err(DeviceError::ConfigurationError);
        }
        let sectors_per_fat = (data_blocks + 2 + 255) / 256;
        let file_size = data_blocks * 512;
        Ok(
            VirtualFatImage {
                sectors_per_fat,
                data_blocks,
                media,
                file_size,
                volume_label,
                file_name,
            },
        )
    }

    /// Number of synthesized metadata blocks in front of the data
    /// region.
    pub fn synthetic_block_count(&self) -> (n: u32)
        requires
            self.wf(),
        ensures
            n as int == self.synthetic_blocks(),
    {
        proof {
            self.lemma_wf_bounds();
        }
        2 + 2 * self.sectors_per_fat
    }

    /// FAT entry for cluster `c`.
    fn fat_entry_val(&self, c: u32) -> (e: u16)
        requires
            self.wf(),
            c <= 0xFFFF,
        ensures
            e == self.fat_entry(c as int),
    {
        if c == 0 {
            0xFF00u16 + self.media as u16
        } else if c == 1 {
            0xFFFF
        } else if c < 2 + self.data_blocks {
            if c == 1 + self.data_blocks {
                0xFFFF
            } else {
                (c + 1) as u16
            }
        } else {
            0
        }
    }

    /// Emit the boot sector.
    #[verifier::loop_isolation(false)]
    #[verifier::rlimit(30)]
    fn boot_block(&self) -> (r: Vec<u8>)
        requires
            self.wf(),
        ensures
            r@.len() == 512,
            forall|k: int| 0 <= k < 512 ==> r@[k] == self.boot_byte(k),
    {
        proof {
            self.lemma_wf_bounds();
        }
        let mut v = zeroed_block();
        let mut j: usize = 0;
        while j < 11
            invariant
                j <= 11,
                v@.len() == 512,
                forall|m: int|
                    0 <= m < 512 ==> v@[m] == (if 43 <= m < 43 + j {
                        self.volume_label@[m - 43]
                    } else {
                        0u8
                    }),
            decreases 11 - j,
        {
            v.set(43 + j, self.volume_label[j]);
            j = j + 1;
        }
        v.set(0, 0xEB);
        v.set(1, 0x3C);
        v.set(2, 0x90);
        v.set(3, 0x4D);
        v.set(4, 0x53);
        v.set(5, 0x44);
        v.set(6, 0x4F);
        v.set(7, 0x53);
        v.set(8, 0x35);
        v.set(9, 0x2E);
        v.set(10, 0x30);
        put_le16(&mut v, 11, 512);
        v.set(13, 1);
        put_le16(&mut v, 14, 1);
        v.set(16, 2);
        put_le16(&mut v, 17, 16);
        let total: u32 = 2 + 2 * self.sectors_per_fat + self.data_blocks;
        let t16: u16 = if total <= 0xFFFF {
            total as u16
        } else {
            0
        };
        put_le16(&mut v, 19, t16);
        v.set(21, self.media);
        put_le16(&mut v, 22, self.sectors_per_fat as u16);
        let t32: u32 = if total <= 0xFFFF {
            0
        } else {
            total
        };
        put_le32(&mut v, 32, t32);
        v.set(36, 0x80);
        v.set(38, 0x29);
        put_le32(&mut v, 39, VOLUME_ID);
        v.set(54, 0x46);
        v.set(55, 0x41);
        v.set(56, 0x54);
        v.set(57, 0x31);
        v.set(58, 0x36);
        v.set(59, 0x20);
        v.set(60, 0x20);
        v.set(61, 0x20);
        v.set(510, 0x55);
        v.set(511, 0xAA);
        proof {
            assert(t16 == self.total_sectors_16());
            assert(t32 == self.total_sectors_32());
            assert forall|k: int| 0 <= k < 512 implies v@[k] == self.boot_byte(k) by {}
        }
        v
    }

    /// Emit sector `fblk` of one FAT copy.
    #[verifier::loop_isolation(false)]
    fn fat_block(&self, fblk: u32) -> (r: Vec<u8>)
        requires
            self.wf(),
            fblk < self.sectors_per_fat,
        ensures
            r@.len() == 512,
            forall|k: int| 0 <= k < 512 ==> r@[k] == self.fat_byte(fblk as int * 512 + k),
    {
        proof {
            self.lemma_wf_bounds();
        }
        let first: u32 = fblk * 256;
        let mut r: Vec<u8> = Vec::new();
        let mut i: u32 = 0;
        while i < 256
            invariant
                i <= 256,
                r@.len() == 2 * i,
                forall|k: int| 0 <= k < 2 * i ==> r@[k] == self.fat_byte(fblk as int * 512 + k),
            decreases 256 - i,
        {
            let e = self.fat_entry_val(first + i);
            r.push((e % 256) as u8);
            r.push((e / 256) as u8);
            proof {
                let c = first as int + i;
                assert(fblk as int * 512 + 2 * i == 2 * c);
                assert((2 * c) / 2 == c && (2 * c) % 2 == 0);
                assert((2 * c + 1) / 2 == c && (2 * c + 1) % 2 == 1);
            }
            i = i + 1;
        }
        r
    }

    /// Emit the root-directory sector.
    #[verifier::loop_isolation(false)]
    #[verifier::rlimit(30)]
    fn dir_block(&self) -> (r: Vec<u8>)
        requires
            self.wf(),
        ensures
            r@.len() == 512,
            forall|k: int| 0 <= k < 512 ==> r@[k] == self.dir_byte(k),
    {
        let mut v = zeroed_block();
        let mut j: usize = 0;
        while j < 11
            invariant
                j <= 11,
                v@.len() == 512,
                forall|m: int|
                    0 <= m < 512 ==> v@[m] == (if 0 <= m < j {
                        self.volume_label@[m]
                    } else {
                        0u8
                    }),
            decreases 11 - j,
        {
            v.set(j, self.volume_label[j]);
            j = j + 1;
        }
        let mut j2: usize = 0;
        while j2 < 11
            invariant
                j2 <= 11,
                v@.len() == 512,
                forall|m: int|
                    0 <= m < 512 ==> v@[m] == (if 0 <= m < 11 {
                        self.volume_label@[m]
                    } else if 32 <= m < 32 + j2 {
                        self.file_name@[m - 32]
                    } else {
                        0u8
                    }),
            decreases 11 - j2,
        {
            v.set(32 + j2, self.file_name[j2]);
            j2 = j2 + 1;
        }
        v.set(11, 0x08);
        v.set(43, 0x01);
        put_le16(&mut v, 58, 2);
        put_le32(&mut v, 60, self.file_size);
        proof {
            assert forall|k: int| 0 <= k < 512 implies v@[k] == self.dir_byte(k) by {}
        }
        v
    }

    /// The contents of metadata block `index`.
    pub fn read_block(&self, index: u32) -> (r: Vec<u8>)
        requires
            self.wf(),
            index < self.synthetic_blocks(),
        ensures
            r@ == self.spec_block(index as int),
    {
        proof {
            self.lemma_wf_bounds();
        }
        let r = if index == 0 {
            self.boot_block()
        } else if index <= 2 * self.sectors_per_fat {
            let fblk = (index - 1) % self.sectors_per_fat;
            self.fat_block(fblk)
        } else {
            self.dir_block()
        };
        proof {
            assert(r@ =~= self.spec_block(index as int));
        }
        r
    }
}

} // verus!
