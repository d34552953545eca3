use ghostfat::cache::FlashPageCache;
use ghostfat::errors::DeviceError;
use ghostfat::flash::{FlashOp, MemFlash};
use ghostfat::geometry::FlashGeometry;

const MIN: u32 = 0x0801_0000;
const MAX: u32 = 0x0802_0000;
const PAGE: u32 = 1024;

fn geometry() -> FlashGeometry {
    FlashGeometry::new(PAGE, MIN, MAX).unwrap()
}

fn flash() -> MemFlash {
    MemFlash::new(MIN, PAGE, MAX - MIN)
}

#[test]
fn boundary_writes_fail_without_touching_flash() {
    let g = geometry();
    let mut c = FlashPageCache::new(g);
    let mut f = flash();
    let data = vec![0x55u8; 512];
    // one block below the writable window
    let r = c.stage_write(&mut f, MIN - 512, &data);
    assert_eq!(r, Err(DeviceError::ConfigurationError));
    // at the end of the writable window
    let r = c.stage_write(&mut f, MAX, &data);
    assert_eq!(r, Err(DeviceError::ConfigurationError));
    // past the end
    let r = c.stage_write(&mut f, MAX - 256, &data);
    assert_eq!(r, Err(DeviceError::ConfigurationError));
    // straddling a page boundary
    let r = c.stage_write(&mut f, MIN + PAGE - 256, &data);
    assert_eq!(r, Err(DeviceError::ConfigurationError));
    assert_eq!(f.op_count(), 0);
    assert!(!c.dirty_flag());
    assert_eq!(c.cached_page(), None);
}

#[test]
fn staged_bytes_are_read_back_before_any_flush() {
    let g = geometry();
    let mut c = FlashPageCache::new(g);
    let mut f = flash();
    let data: Vec<u8> = (0..512).map(|i| i as u8).collect();
    c.stage_write(&mut f, MIN + 512, &data).unwrap();
    // nothing committed yet
    assert_eq!(f.op_count(), 0);
    assert!(c.dirty_flag());
    assert_eq!(c.cached_page(), Some(MIN));
    // the staged block reads back, the rest of the page is untouched
    assert_eq!(c.read(&f, MIN + 512, 512), data);
    assert_eq!(c.read(&f, MIN, 512), vec![0xFF; 512]);
    // physical flash still erased
    assert_eq!(f.byte_at(MIN + 512), 0xFF);
}

#[test]
fn page_switch_commits_the_previous_page_first() {
    let g = geometry();
    let mut c = FlashPageCache::new(g);
    let mut f = flash();
    let first = vec![0x11u8; 512];
    let second = vec![0x22u8; 512];
    c.stage_write(&mut f, MIN, &first).unwrap();
    assert_eq!(f.op_count(), 0);
    // a write to another page must commit the first page before buffering
    c.stage_write(&mut f, MIN + PAGE, &second).unwrap();
    assert_eq!(f.op_count(), 2);
    assert_eq!(f.op_at(0), FlashOp::Erase(MIN));
    assert_eq!(f.op_at(1), FlashOp::Program(MIN));
    // the first page is physically committed ...
    assert_eq!(f.byte_at(MIN), 0x11);
    assert_eq!(f.byte_at(MIN + 511), 0x11);
    // ... with its untouched half preserved by read-before-write
    assert_eq!(f.byte_at(MIN + 512), 0xFF);
    // the second page is only staged
    assert_eq!(f.byte_at(MIN + PAGE), 0xFF);
    assert_eq!(c.read(&f, MIN + PAGE, 512), second);
}

#[test]
fn flush_is_idempotent() {
    let g = geometry();
    let mut c = FlashPageCache::new(g);
    let mut f = flash();
    let data = vec![0x33u8; 512];
    c.stage_write(&mut f, MIN, &data).unwrap();
    c.flush(&mut f).unwrap();
    assert_eq!(f.op_count(), 2);
    assert_eq!(f.op_at(0), FlashOp::Erase(MIN));
    assert_eq!(f.op_at(1), FlashOp::Program(MIN));
    assert_eq!(f.byte_at(MIN), 0x33);
    // a second flush with nothing staged issues no hardware operation
    c.flush(&mut f).unwrap();
    assert_eq!(f.op_count(), 2);
    // and a flush on a fresh cache is a no-op too
    let mut c2 = FlashPageCache::new(g);
    c2.flush(&mut f).unwrap();
    assert_eq!(f.op_count(), 2);
}

#[test]
fn staging_into_the_buffered_page_issues_no_commit() {
    let g = geometry();
    let mut c = FlashPageCache::new(g);
    let mut f = flash();
    let a = vec![0x44u8; 512];
    let b = vec![0x55u8; 512];
    c.stage_write(&mut f, MIN, &a).unwrap();
    c.stage_write(&mut f, MIN + 512, &b).unwrap();
    // both halves of the page are still only staged
    assert_eq!(f.op_count(), 0);
    assert_eq!(c.read(&f, MIN, 512), a);
    assert_eq!(c.read(&f, MIN + 512, 512), b);
    // one commit writes both
    c.flush(&mut f).unwrap();
    assert_eq!(f.op_count(), 2);
    assert_eq!(f.byte_at(MIN), 0x44);
    assert_eq!(f.byte_at(MIN + 512), 0x55);
}

#[test]
fn failed_erase_invalidates_the_cache() {
    let g = geometry();
    let mut c = FlashPageCache::new(g);
    let mut f = flash();
    let data = vec![0x66u8; 512];
    c.stage_write(&mut f, MIN, &data).unwrap();
    f.set_fail_erase(true);
    let r = c.flush(&mut f);
    assert_eq!(r, Err(DeviceError::FlashOperationFailed));
    // the failed attempt was issued, and the stale page was dropped
    assert_eq!(f.op_count(), 1);
    assert_eq!(f.op_at(0), FlashOp::Erase(MIN));
    assert!(!c.dirty_flag());
    assert_eq!(c.cached_page(), None);
    // reads now reflect the physical flash, not lost staged data
    f.set_fail_erase(false);
    assert_eq!(c.read(&f, MIN, 512), vec![0xFF; 512]);
}

#[test]
fn failed_commit_leaves_other_pages_untouched() {
    let g = geometry();
    let mut c = FlashPageCache::new(g);
    let mut f = flash();
    // commit real data into the second page first
    let keep = vec![0x5Au8; 512];
    c.stage_write(&mut f, MIN + PAGE, &keep).unwrap();
    c.flush(&mut f).unwrap();
    assert_eq!(f.byte_at(MIN + PAGE), 0x5A);
    // now a commit of the first page fails mid-cycle
    let lost = vec![0x66u8; 512];
    c.stage_write(&mut f, MIN, &lost).unwrap();
    f.set_fail_program(true);
    let r = c.flush(&mut f);
    assert_eq!(r, Err(DeviceError::FlashOperationFailed));
    // the second page's committed bytes are intact
    assert_eq!(f.byte_at(MIN + PAGE), 0x5A);
    assert_eq!(f.byte_at(MIN + PAGE + 511), 0x5A);
}

#[test]
fn failed_program_invalidates_the_cache() {
    let g = geometry();
    let mut c = FlashPageCache::new(g);
    let mut f = flash();
    let data = vec![0x77u8; 512];
    c.stage_write(&mut f, MIN, &data).unwrap();
    f.set_fail_program(true);
    let r = c.flush(&mut f);
    assert_eq!(r, Err(DeviceError::FlashOperationFailed));
    assert_eq!(f.op_count(), 2);
    assert_eq!(f.op_at(0), FlashOp::Erase(MIN));
    assert_eq!(f.op_at(1), FlashOp::Program(MIN));
    assert!(!c.dirty_flag());
    assert_eq!(c.cached_page(), None);
}
