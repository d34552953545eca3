use ghostfat::device::BlockDevice;
use ghostfat::errors::DeviceError;
use ghostfat::fat::VirtualFatImage;
use ghostfat::flash::MemFlash;
use ghostfat::geometry::FlashGeometry;

const MIN: u32 = 0x0801_0000;
const MAX: u32 = 0x0802_0000;

fn label() -> Vec<u8> {
    b"GHOSTFAT   ".to_vec()
}

fn file_name() -> Vec<u8> {
    b"FIRMWAREBIN".to_vec()
}

fn geometry() -> FlashGeometry {
    FlashGeometry::new(1024, MIN, MAX).unwrap()
}

fn device() -> BlockDevice {
    BlockDevice::new(geometry(), label(), file_name(), 0xF8, 250).unwrap()
}

fn flash() -> MemFlash {
    MemFlash::new(MIN, 1024, MAX - MIN)
}

#[test]
fn flash_backed_portion_is_128_blocks() {
    let d = device();
    let img = VirtualFatImage::new(geometry(), label(), file_name(), 0xF8).unwrap();
    assert_eq!(d.block_count() - img.synthetic_block_count(), 128);
    // one FAT sector suffices for 128 clusters: boot + 2 FATs + root dir
    assert_eq!(img.synthetic_block_count(), 4);
    assert_eq!(d.block_count(), 132);
}

#[test]
fn boot_sector_encodes_bytes_per_sector() {
    let d = device();
    let f = flash();
    let boot = d.read_block(&f, 0).unwrap();
    assert_eq!(boot.len(), 512);
    // jump stub and OEM name
    assert_eq!(&boot[0..3], &[0xEB, 0x3C, 0x90]);
    assert_eq!(&boot[3..11], b"MSDOS5.0");
    // bytes-per-sector little-endian at offset 11
    assert_eq!(boot[11], 0x00);
    assert_eq!(boot[12], 0x02);
    // one sector per cluster, one reserved sector, two FATs, 16 root entries
    assert_eq!(boot[13], 1);
    assert_eq!(boot[14], 1);
    assert_eq!(boot[15], 0);
    assert_eq!(boot[16], 2);
    assert_eq!(boot[17], 16);
    assert_eq!(boot[18], 0);
    // 132 total sectors in the 16-bit field
    assert_eq!(boot[19], 132);
    assert_eq!(boot[20], 0);
    // media descriptor and sectors-per-FAT
    assert_eq!(boot[21], 0xF8);
    assert_eq!(boot[22], 1);
    assert_eq!(boot[23], 0);
    // 32-bit total unused when the 16-bit field fits
    assert_eq!(&boot[32..36], &[0, 0, 0, 0]);
    // volume label mirrored into the boot sector, then the type field
    assert_eq!(&boot[43..54], b"GHOSTFAT   ");
    assert_eq!(&boot[54..62], b"FAT16   ");
    // boot signature
    assert_eq!(boot[510], 0x55);
    assert_eq!(boot[511], 0xAA);
}

#[test]
fn reads_are_deterministic() {
    let d = device();
    let f = flash();
    for i in 0..d.block_count() {
        let a = d.read_block(&f, i).unwrap();
        let b = d.read_block(&f, i).unwrap();
        assert_eq!(a.len(), 512);
        assert_eq!(a, b);
    }
}

#[test]
fn fat_table_links_the_single_file() {
    let d = device();
    let f = flash();
    let fat = d.read_block(&f, 1).unwrap();
    // cluster 0: media entry 0xFFF8; cluster 1: end-of-chain
    assert_eq!(&fat[0..4], &[0xF8, 0xFF, 0xFF, 0xFF]);
    // cluster 2 links to cluster 3
    assert_eq!(&fat[4..6], &[0x03, 0x00]);
    // cluster 128 links to cluster 129
    assert_eq!(&fat[256..258], &[0x81, 0x00]);
    // cluster 129, the file's last cluster, is end-of-chain
    assert_eq!(&fat[258..260], &[0xFF, 0xFF]);
    // clusters past the data region are free
    assert_eq!(&fat[260..262], &[0x00, 0x00]);
    assert_eq!(&fat[510..512], &[0x00, 0x00]);
}

#[test]
fn both_fat_copies_agree() {
    let d = device();
    let f = flash();
    let fat1 = d.read_block(&f, 1).unwrap();
    let fat2 = d.read_block(&f, 2).unwrap();
    assert_eq!(fat1, fat2);
}

#[test]
fn root_directory_lists_label_and_file() {
    let d = device();
    let f = flash();
    let dir = d.read_block(&f, 3).unwrap();
    // entry 0: volume label with the volume-label attribute
    assert_eq!(&dir[0..11], b"GHOSTFAT   ");
    assert_eq!(dir[11], 0x08);
    // entry 1: the exposed read-only file
    assert_eq!(&dir[32..43], b"FIRMWAREBIN");
    assert_eq!(dir[43], 0x01);
    // start cluster 2, little-endian at entry offset 26
    assert_eq!(&dir[58..60], &[0x02, 0x00]);
    // file size 128 * 512 = 0x10000, little-endian at entry offset 28
    assert_eq!(&dir[60..64], &[0x00, 0x00, 0x01, 0x00]);
    // remaining entries are free
    assert!(dir[64..].iter().all(|&b| b == 0));
}

#[test]
fn fresh_flash_blocks_read_erased() {
    let d = device();
    let f = flash();
    let b = d.read_block(&f, 4).unwrap();
    assert_eq!(b, vec![0xFF; 512]);
    let last = d.read_block(&f, 131).unwrap();
    assert_eq!(last, vec![0xFF; 512]);
}

#[test]
fn oversized_window_is_rejected() {
    // 32 MiB of one-sector clusters cannot be numbered in 16-bit entries
    let g = FlashGeometry::new(2048, 0x0800_0000, 0x0800_0000 + 0x0200_0000).unwrap();
    let r = BlockDevice::new(g, label(), file_name(), 0xF8, 250);
    assert_eq!(r.err(), Some(DeviceError::ConfigurationError));
}

#[test]
fn invalid_geometry_is_rejected() {
    // unknown page size
    assert_eq!(
        FlashGeometry::new(4096, MIN, MAX).err(),
        Some(DeviceError::ConfigurationError)
    );
    // unaligned window
    assert_eq!(
        FlashGeometry::new(1024, MIN + 512, MAX).err(),
        Some(DeviceError::ConfigurationError)
    );
    // empty window
    assert_eq!(
        FlashGeometry::new(1024, MIN, MIN).err(),
        Some(DeviceError::ConfigurationError)
    );
}

#[test]
fn geometry_from_capacity_follows_the_part() {
    // a 256 KiB part erases in 2 KiB pages and ends at base + capacity
    let g = FlashGeometry::from_capacity(256, MIN).unwrap();
    assert_eq!(g.page_size, 2048);
    assert_eq!(g.min_address, MIN);
    assert_eq!(g.max_address, 0x0800_0000 + 256 * 1024);
    // a 64 KiB part erases in 1 KiB pages, but its window would be empty
    let r = FlashGeometry::from_capacity(64, MIN);
    assert_eq!(r.err(), Some(DeviceError::ConfigurationError));
}
