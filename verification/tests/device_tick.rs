use ghostfat::device::{BlockDevice, FLUSH_IDLE_MS};
use ghostfat::errors::DeviceError;
use ghostfat::flash::{FlashOp, MemFlash};
use ghostfat::geometry::FlashGeometry;

const MIN: u32 = 0x0801_0000;
const MAX: u32 = 0x0802_0000;
const PAGE: u32 = 1024;
const SYNTH: u32 = 4;

fn label() -> Vec<u8> {
    b"GHOSTFAT   ".to_vec()
}

fn file_name() -> Vec<u8> {
    b"FIRMWAREBIN".to_vec()
}

fn device() -> BlockDevice {
    let g = FlashGeometry::new(PAGE, MIN, MAX).unwrap();
    BlockDevice::new(g, label(), file_name(), 0xF8, FLUSH_IDLE_MS).unwrap()
}

fn flash() -> MemFlash {
    MemFlash::new(MIN, PAGE, MAX - MIN)
}

#[test]
fn idle_tick_flushes_exactly_one_erase_program_cycle() {
    let mut d = device();
    let mut f = flash();
    let data = vec![0xAAu8; 512];
    // write 512 bytes of 0xAA to the first flash-backed block
    d.write_block(&mut f, SYNTH, &data).unwrap();
    assert_eq!(f.op_count(), 0);
    // the idle threshold is exceeded: exactly one erase then one program
    d.tick(&mut f, 1000);
    assert_eq!(f.op_count(), 2);
    assert_eq!(f.op_at(0), FlashOp::Erase(MIN));
    assert_eq!(f.op_at(1), FlashOp::Program(MIN));
    for a in 0..512u32 {
        assert_eq!(f.byte_at(MIN + a), 0xAA);
    }
    // further idle ticks have nothing left to commit
    d.tick(&mut f, 1000);
    assert_eq!(f.op_count(), 2);
}

#[test]
fn tick_below_threshold_defers_the_commit() {
    let mut d = device();
    let mut f = flash();
    let data = vec![0xBBu8; 512];
    d.write_block(&mut f, SYNTH, &data).unwrap();
    d.tick(&mut f, 100);
    d.tick(&mut f, 100);
    // 200 ms of inactivity is below the 250 ms window
    assert_eq!(f.op_count(), 0);
    // the staged block is still served coherently
    assert_eq!(d.read_block(&f, SYNTH).unwrap(), data);
    // one more tick crosses the window
    d.tick(&mut f, 100);
    assert_eq!(f.op_count(), 2);
}

#[test]
fn writes_restart_the_inactivity_window() {
    let mut d = device();
    let mut f = flash();
    let data = vec![0xCCu8; 512];
    d.write_block(&mut f, SYNTH, &data).unwrap();
    d.tick(&mut f, 200);
    // a new write arrives before the window closes
    d.write_block(&mut f, SYNTH + 1, &data).unwrap();
    d.tick(&mut f, 200);
    assert_eq!(f.op_count(), 0);
    d.tick(&mut f, 200);
    assert_eq!(f.op_count(), 2);
}

#[test]
fn read_after_write_holds_before_any_flush() {
    let mut d = device();
    let mut f = flash();
    let data: Vec<u8> = (0..512).map(|i| (i % 251) as u8).collect();
    d.write_block(&mut f, SYNTH + 3, &data).unwrap();
    assert_eq!(f.op_count(), 0);
    assert_eq!(d.read_block(&f, SYNTH + 3).unwrap(), data);
    // neighbouring blocks are unaffected
    assert_eq!(d.read_block(&f, SYNTH + 2).unwrap(), vec![0xFF; 512]);
    assert_eq!(d.read_block(&f, SYNTH + 4).unwrap(), vec![0xFF; 512]);
}

#[test]
fn out_of_range_blocks_are_rejected() {
    let mut d = device();
    let mut f = flash();
    let count = d.block_count();
    assert_eq!(count, 132);
    assert_eq!(d.read_block(&f, count).err(), Some(DeviceError::OutOfRange));
    assert_eq!(
        d.read_block(&f, u32::MAX).err(),
        Some(DeviceError::OutOfRange)
    );
    let data = vec![0u8; 512];
    assert_eq!(
        d.write_block(&mut f, count, &data).err(),
        Some(DeviceError::OutOfRange)
    );
    assert_eq!(f.op_count(), 0);
}

#[test]
fn metadata_writes_are_accepted_and_discarded() {
    let mut d = device();
    let mut f = flash();
    let before = d.read_block(&f, 0).unwrap();
    let garbage = vec![0xEEu8; 512];
    // a host updating its FAT copy must not corrupt the volume
    d.write_block(&mut f, 0, &garbage).unwrap();
    d.write_block(&mut f, 1, &garbage).unwrap();
    d.write_block(&mut f, 3, &garbage).unwrap();
    assert_eq!(f.op_count(), 0);
    assert_eq!(d.read_block(&f, 0).unwrap(), before);
    assert_ne!(d.read_block(&f, 1).unwrap(), garbage);
}

#[test]
fn page_switch_commits_before_buffering_the_next_page() {
    let mut d = device();
    let mut f = flash();
    let first = vec![0x11u8; 512];
    let second = vec![0x22u8; 512];
    // blocks 4 and 6 sit in different 1 KiB pages
    d.write_block(&mut f, SYNTH, &first).unwrap();
    d.write_block(&mut f, SYNTH + 2, &second).unwrap();
    assert_eq!(f.op_count(), 2);
    assert_eq!(f.op_at(0), FlashOp::Erase(MIN));
    assert_eq!(f.op_at(1), FlashOp::Program(MIN));
    assert_eq!(f.byte_at(MIN), 0x11);
    assert_eq!(f.byte_at(MIN + PAGE), 0xFF);
    assert_eq!(d.read_block(&f, SYNTH + 2).unwrap(), second);
}

#[test]
fn failed_commit_surfaces_and_drops_the_stale_page() {
    let mut d = device();
    let mut f = flash();
    let first = vec![0x33u8; 512];
    let second = vec![0x44u8; 512];
    d.write_block(&mut f, SYNTH, &first).unwrap();
    f.set_fail_erase(true);
    // the page switch must commit the first page, which now fails
    let r = d.write_block(&mut f, SYNTH + 2, &second);
    assert_eq!(r, Err(DeviceError::FlashOperationFailed));
    assert_eq!(f.op_count(), 1);
    assert_eq!(f.op_at(0), FlashOp::Erase(MIN));
    f.set_fail_erase(false);
    // the staged data is gone, not silently kept behind a stale flag
    assert_eq!(d.read_block(&f, SYNTH).unwrap(), vec![0xFF; 512]);
}

#[test]
fn committed_data_survives_in_physical_flash() {
    let mut d = device();
    let mut f = flash();
    let data: Vec<u8> = (0..512).map(|i| (255 - i % 256) as u8).collect();
    d.write_block(&mut f, SYNTH + 5, &data).unwrap();
    d.tick(&mut f, 1000);
    // a fresh device over the same flash serves the committed bytes
    let d2 = device();
    assert_eq!(d2.read_block(&f, SYNTH + 5).unwrap(), data);
}
