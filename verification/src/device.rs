use vstd::prelude::*;

use crate::arith;
use crate::cache::{eff_byte, FlashPageCache};
use crate::errors::DeviceError;
use crate::fat::VirtualFatImage;
use crate::flash::{splice, FlashDevice, FlashOp};
use crate::geometry::FlashGeometry;

verus! {

/// Default host-inactivity window, in milliseconds, after which a dirty
/// page is committed to flash.
pub const FLUSH_IDLE_MS: u32 = 250;

/// Idle-time accounting for the deferred-flush policy: a periodic tick
/// accumulates elapsed time, and a staged write restarts the window.
pub struct FlushTimer {
    idle_ms: u32,
    threshold_ms: u32,
}

impl FlushTimer {
    /// Milliseconds of host inactivity seen so far.
    pub closed spec fn idle(self) -> int {
        self.idle_ms as int
    }

    /// The inactivity window that makes a flush due.
    pub closed spec fn threshold(self) -> int {
        self.threshold_ms as int
    }

    /// A timer with nothing elapsed yet.
    pub fn new(threshold_ms: u32) -> (t: FlushTimer)
        ensures
            t.idle() == 0,
            t.threshold() == threshold_ms,
    {
        FlushTimer { idle_ms: 0, threshold_ms }
    }

    /// A write arrived: restart the inactivity window.
    pub fn note_write(&mut self)
        ensures
            final(self).idle() == 0,
            final(self).threshold() == old(self).threshold(),
    {
        self.idle_ms = 0;
    }

    /// Account `elapsed_ms` more idle time (saturating) and say whether
    /// the window has been reached.
    pub fn advance(&mut self, elapsed_ms: u32) -> (due: bool)
        ensures
            final(self).threshold() == old(self).threshold(),
            final(self).idle() == (if old(self).idle() + elapsed_ms <= u32::MAX {
                old(self).idle() + elapsed_ms
            } else {
                u32::MAX as int
            }),
            due <==> final(self).idle() >= final(self).threshold(),
    {
        if elapsed_ms > u32::MAX - self.idle_ms {
            self.idle_ms = u32::MAX;
        } else {
            self.idle_ms = self.idle_ms + elapsed_ms;
        }
        self.idle_ms >= self.threshold_ms
    }
}

/// The block device the mass-storage layer talks to.
///
/// Logical 512-byte blocks below `synthetic_blocks()` are FAT metadata
/// synthesized by the [`VirtualFatImage`]; the rest map one-to-one onto
/// the writable flash window, read and written through the
/// [`FlashPageCache`] so staged writes are visible before they are
/// committed.
pub struct BlockDevice {
    image: VirtualFatImage,
    cache: FlashPageCache,
    timer: FlushTimer,
}

impl BlockDevice {
    /// The metadata generator.
    pub closed spec fn image(self) -> VirtualFatImage {
        self.image
    }

    /// The page cache.
    pub closed spec fn cache(self) -> FlashPageCache {
        self.cache
    }

    /// The flush timer.
    pub closed spec fn timer(self) -> FlushTimer {
        self.timer
    }

    /// The flash geometry served.
    pub open spec fn geom(self) -> FlashGeometry {
        self.cache().geom()
    }

    /// A consistent device: valid cache and image, with one cluster of
    /// the image per block of the flash window.
    pub open spec fn wf(self) -> bool {
        &&& self.cache().wf()
        &&& self.image().wf()
        &&& self.image().data_blocks as int == self.geom().flash_blocks()
    }

    /// The device can sit in front of flash device `f`.
    pub open spec fn compat<F: FlashDevice>(self, f: F) -> bool {
        self.cache().compat(f)
    }

    /// Total addressable logical blocks.
    pub open spec fn spec_block_count(self) -> int {
        self.image().synthetic_blocks() + self.geom().flash_blocks()
    }

    /// The flash address backing logical block `i`.
    pub open spec fn flash_addr(self, i: int) -> int {
        self.geom().min_address + (i - self.image().synthetic_blocks()) * 512
    }

    /// The 512 bytes the host observes at block `i`: synthesized
    /// metadata below `synthetic_blocks()`, the effective (staged or
    /// physical) flash bytes above.
    pub open spec fn spec_block<F: FlashDevice>(self, f: F, i: int) -> Seq<u8> {
        if i < self.image().synthetic_blocks() {
            self.image().spec_block(i)
        } else {
            Seq::new(512, |k: int| eff_byte(self.cache(), f, self.flash_addr(i) + k))
        }
    }

    /// What a read of block `i` returns.
    pub open spec fn spec_read<F: FlashDevice>(self, f: F, i: int) -> Option<Seq<u8>> {
        if 0 <= i < self.spec_block_count() {
            Some(self.spec_block(f, i))
        } else {
            None
        }
    }

    /// Build a device for a flash window.  A window too large for
    /// 16-bit FAT entries is rejected.
    pub fn new(
        geom: FlashGeometry,
        volume_label: Vec<u8>,
        file_name: Vec<u8>,
        media: u8,
        flush_idle_ms: u32,
    ) -> (r: Result<BlockDevice, DeviceError>)
        requires
            geom.wf(),
            volume_label@.len() == 11,
            file_name@.len() == 11,
        ensures
            match r {
                Ok(d) => {
                    &&& d.wf()
                    &&& d.geom() == geom
                    &&& geom.flash_blocks() + 2 <= 0xFFF0
                    &&& d.image().media == media
                    &&& d.image().volume_label@ == volume_label@
                    &&& d.image().file_name@ == file_name@
                    &&& !d.cache().is_dirty()
                    &&& d.cache().page() is None
                    &&& d.timer().idle() == 0
                    &&& d.timer().threshold() == flush_idle_ms
                },
                Err(e) => {
                    &&& e == DeviceError::ConfigurationError
                    &&& geom.flash_blocks() + 2 > 0xFFF0
                },
            },
    {
        let image = match VirtualFatImage::new(geom, volume_label, file_name, media) {
            Ok(img) => img,
            Err(e) => {
                return Err(e);
            },
        };
        let cache = FlashPageCache::new(geom);
        let timer = FlushTimer::new(flush_idle_ms);
        Ok(BlockDevice { image, cache, timer })
    }

    /// Total addressable logical blocks, as reported in the capacity
    /// response.
    pub fn block_count(&self) -> (n: u32)
        requires
            self.wf(),
        ensures
            n as int == self.spec_block_count(),
    {
        let g = self.cache.geometry();
        let synth = self.image.synthetic_block_count();
        synth + (g.max_address - g.min_address) / 512
    }

    /// The capacity reported to the mass-storage layer: block count and
    /// fixed block size.
    pub fn capacity(&self) -> (r: (u32, u32))
        requires
            self.wf(),
        ensures
            r.0 as int == self.spec_block_count(),
            r.1 == 512,
    {
        (self.block_count(), 512)
    }

    /// Facts needed to address flash-backed block `i`.
    proof fn lemma_flash_addr<F: FlashDevice>(self, f: F, i: int)
        requires
            self.wf(),
            self.compat(f),
            self.image().synthetic_blocks() <= i < self.spec_block_count(),
        ensures
            self.geom().min_address <= self.flash_addr(i),
            self.flash_addr(i) + 512 <= self.geom().max_address,
            self.flash_addr(i) % (self.geom().page_size as int) + 512 <= self.geom().page_size,
            self.geom().writable(self.flash_addr(i), 512),
    {
        let g = self.geom();
        let t = g.max_address - g.min_address;
        let rel = i - self.image().synthetic_blocks();
        arith::lemma_sub_mod(g.max_address as int, g.min_address as int, g.page_size as int);
        arith::lemma_mod_divides_trans(t as int, g.page_size as int);
        arith::lemma_block_in_region(t as int, rel);
        vstd::arithmetic::div_mod::lemma_mod_multiples_basic(rel, 512);
        arith::lemma_mod_add_multiple(g.min_address as int, rel * 512, g.page_size as int);
        arith::lemma_block_in_page(g.page_size as int, rel * 512);
    }

    /// Serve a host read of logical block `index`.
    pub fn read_block<F: FlashDevice>(&self, f: &F, index: u32) -> (r: Result<
        Vec<u8>,
        DeviceError,
    >)
        requires
            self.wf(),
            self.compat(*f),
        ensures
            match r {
                Ok(b) => {
                    &&& index < self.spec_block_count()
                    &&& b@.len() == 512
                    &&& b@ == self.spec_block(*f, index as int)
                    &&& Some(b@) == self.spec_read(*f, index as int)
                },
                Err(e) => {
                    &&& e == DeviceError::OutOfRange
                    &&& index >= self.spec_block_count()
                    &&& self.spec_read(*f, index as int) is None
                },
            },
    {
        let g = self.cache.geometry();
        let synth = self.image.synthetic_block_count();
        let flash_blocks = (g.max_address - g.min_address) / 512;
        if index >= synth + flash_blocks {
            return Err(DeviceError::OutOfRange);
        }
        if index < synth {
            let b = self.image.read_block(index);
            Ok(b)
        } else {
            let rel = index - synth;
            proof {
                self.lemma_flash_addr(*f, index as int);
            }
            let addr = g.min_address + rel * 512;
            let b = self.cache.read(f, addr, 512);
            proof {
                assert(b@ =~= self.spec_block(*f, index as int));
            }
            Ok(b)
        }
    }

    /// Serve a host write of logical block `index`.
    ///
    /// Writes to the synthesized metadata region are accepted and
    /// discarded: the metadata is regenerated, never stored, so a host
    /// updating its FAT copy cannot corrupt anything.  Writes to the
    /// flash region are staged in the page cache and restart the flush
    /// timer's inactivity window; staging commits a previously dirty
    /// page on a page switch, as `stage_write` states.
    pub fn write_block<F: FlashDevice>(&mut self, f: &mut F, index: u32, data: &[u8]) -> (r:
        Result<(), DeviceError>)
        requires
            old(self).wf(),
            old(self).compat(*old(f)),
            data@.len() == 512,
        ensures
            final(self).wf(),
            final(self).compat(*final(f)),
            final(self).geom() == old(self).geom(),
            final(self).image() == old(self).image(),
            final(self).timer().threshold() == old(self).timer().threshold(),
            final(f).base() == old(f).base(),
            final(f).psize() == old(f).psize(),
            final(f).mem().len() == old(f).mem().len(),
            final(f).erase_may_fail() == old(f).erase_may_fail(),
            final(f).program_may_fail() == old(f).program_may_fail(),
            (r matches Err(e) && e == DeviceError::OutOfRange) <==> index >= old(
                self,
            ).spec_block_count(),
            index >= old(self).spec_block_count() ==> *final(self) == *old(self) && *final(f)
                == *old(f),
            index < old(self).image().synthetic_blocks() ==> r is Ok && *final(self) == *old(self)
                && *final(f) == *old(f),
            old(self).image().synthetic_blocks() <= index < old(self).spec_block_count() && !(old(
                self,
            ).cache().is_dirty() && !old(self).cache().holds_page(
                old(self).flash_addr(index as int),
            )) ==> r is Ok,
            index < old(self).spec_block_count() && !old(f).erase_may_fail() && !old(
                f,
            ).program_may_fail() ==> r is Ok,
            r is Ok && old(self).image().synthetic_blocks() <= index ==> {
                &&& final(self).cache().is_dirty()
                &&& final(self).cache().holds_page(old(self).flash_addr(index as int))
                &&& final(self).timer().idle() == 0
                &&& final(self).spec_block(*final(f), index as int) == data@
                &&& forall|j: int|
                    0 <= j < old(self).spec_block_count() && j != index ==> final(self).spec_block(
                        *final(f),
                        j,
                    ) == old(self).spec_block(*old(f), j)
            },
            r is Ok && old(self).image().synthetic_blocks() <= index && !(old(
                self,
            ).cache().is_dirty() && !old(self).cache().holds_page(
                old(self).flash_addr(index as int),
            )) ==> *final(f) == *old(f),
            r is Ok && old(self).image().synthetic_blocks() <= index && old(self).cache().is_dirty()
                && !old(self).cache().holds_page(old(self).flash_addr(index as int)) ==> (old(
                self,
            ).cache().page() matches Some(q) ==> {
                &&& final(f).mem() == splice(
                    old(f).mem(),
                    q as int - old(f).base(),
                    old(self).cache().buffer(),
                )
                &&& final(f).oplog() == old(f).oplog() + seq![
                    FlashOp::Erase(q),
                    FlashOp::Program(q),
                ]
            }),
            r matches Err(e) && e == DeviceError::FlashOperationFailed ==> {
                &&& old(self).image().synthetic_blocks() <= index < old(self).spec_block_count()
                &&& old(self).cache().is_dirty()
                &&& final(self).cache().page() is None
                &&& !final(self).cache().is_dirty()
                &&& (old(self).cache().page() matches Some(q) ==> {
                    &&& (final(f).oplog() == old(f).oplog() + seq![FlashOp::Erase(q)]
                        || final(f).oplog() == old(f).oplog() + seq![
                            FlashOp::Erase(q),
                            FlashOp::Program(q),
                        ])
                    &&& forall|j: int|
                        0 <= j < old(f).mem().len() && !(q as int - old(f).base() <= j < q as int
                            - old(f).base() + old(f).psize()) ==> final(f).mem()[j] == old(
                            f,
                        ).mem()[j]
                })
            },
            r matches Err(e) ==> e == DeviceError::OutOfRange
                || e == DeviceError::FlashOperationFailed,
    {
        let g = self.cache.geometry();
        let synth = self.image.synthetic_block_count();
        let flash_blocks = (g.max_address - g.min_address) / 512;
        if index >= synth + flash_blocks {
            return Err(DeviceError::OutOfRange);
        }
        if index < synth {
            return Ok(());
        }
        let rel = index - synth;
        proof {
            self.lemma_flash_addr(*f, index as int);
        }
        let addr = g.min_address + rel * 512;
        match self.cache.stage_write(f, addr, data) {
            Ok(()) => {
                self.timer.note_write();
                proof {
                    assert(self.spec_block(*f, index as int) =~= data@);
                    assert forall|j: int|
                        0 <= j < old(self).spec_block_count() && j != index implies self.spec_block(
                        *f,
                        j,
                    ) == old(self).spec_block(*old(f), j) by {
                        if j >= old(self).image().synthetic_blocks() {
                            old(self).lemma_flash_addr(*old(f), j);
                            arith::lemma_blocks_disjoint(j - old(
                                self,
                            ).image().synthetic_blocks(), rel as int);
                            assert(self.spec_block(*f, j) =~= old(self).spec_block(*old(f), j));
                        } else {
                            assert(self.spec_block(*f, j) =~= old(self).spec_block(*old(f), j));
                        }
                    }
                }
                Ok(())
            },
            Err(e) => Err(e),
        }
    }

    /// Periodic tick: account `elapsed_ms` of idle time and, once the
    /// inactivity window is reached, commit any dirty page so staged
    /// writes are not held in volatile memory indefinitely.  With
    /// nothing staged (or the window not yet reached) no flash operation
    /// is issued.
    pub fn tick<F: FlashDevice>(&mut self, f: &mut F, elapsed_ms: u32)
        requires
            old(self).wf(),
            old(self).compat(*old(f)),
        ensures
            final(self).wf(),
            final(self).compat(*final(f)),
            final(self).geom() == old(self).geom(),
            final(self).image() == old(self).image(),
            final(f).base() == old(f).base(),
            final(f).psize() == old(f).psize(),
            final(f).mem().len() == old(f).mem().len(),
            final(f).erase_may_fail() == old(f).erase_may_fail(),
            final(f).program_may_fail() == old(f).program_may_fail(),
            final(self).timer().threshold() == old(self).timer().threshold(),
            final(self).timer().idle() == (if old(self).timer().idle() + elapsed_ms <= u32::MAX {
                old(self).timer().idle() + elapsed_ms
            } else {
                u32::MAX as int
            }),
            !(final(self).timer().idle() >= old(self).timer().threshold() && old(
                self,
            ).cache().is_dirty()) ==> *final(f) == *old(f) && final(self).cache() == old(
                self,
            ).cache(),
            final(self).timer().idle() >= old(self).timer().threshold() && old(
                self,
            ).cache().is_dirty() ==> (old(self).cache().page() matches Some(p) ==> ({
                ||| {
                    &&& !final(self).cache().is_dirty()
                    &&& final(self).cache().page() == old(self).cache().page()
                    &&& final(f).mem() == splice(
                        old(f).mem(),
                        p as int - old(f).base(),
                        old(self).cache().buffer(),
                    )
                    &&& final(f).oplog() == old(f).oplog() + seq![
                        FlashOp::Erase(p),
                        FlashOp::Program(p),
                    ]
                    &&& forall|a: int|
                        old(f).base() <= a < old(f).base() + old(f).mem().len() ==> eff_byte(
                            final(self).cache(),
                            *final(f),
                            a,
                        ) == eff_byte(old(self).cache(), *old(f), a)
                }
                ||| {
                    &&& !final(self).cache().is_dirty()
                    &&& final(self).cache().page() is None
                    &&& (final(f).oplog() == old(f).oplog() + seq![FlashOp::Erase(p)]
                        || final(f).oplog() == old(f).oplog() + seq![
                            FlashOp::Erase(p),
                            FlashOp::Program(p),
                        ])
                    &&& forall|j: int|
                        0 <= j < old(f).mem().len() && !(p as int - old(f).base() <= j < p as int
                            - old(f).base() + old(f).psize()) ==> final(f).mem()[j] == old(
                            f,
                        ).mem()[j]
                }
            })),
            final(self).timer().idle() >= old(self).timer().threshold() && old(
                self,
            ).cache().is_dirty() && !old(f).erase_may_fail() && !old(f).program_may_fail() ==> (old(
                self,
            ).cache().page() matches Some(p) ==> {
                &&& !final(self).cache().is_dirty()
                &&& final(self).cache().page() == old(self).cache().page()
                &&& final(f).mem() == splice(
                    old(f).mem(),
                    p as int - old(f).base(),
                    old(self).cache().buffer(),
                )
                &&& final(f).oplog() == old(f).oplog() + seq![
                    FlashOp::Erase(p),
                    FlashOp::Program(p),
                ]
            }),
    {
        let due = self.timer.advance(elapsed_ms);
        if due {
            let _ = self.cache.flush(f);
        }
    }
}

/// Every valid block index reads as exactly 512 bytes, computed purely
/// from the device and flash state, so repeated reads with no
/// intervening write return identical bytes.
pub proof fn lemma_read_block_len<F: FlashDevice>(d: BlockDevice, f: F, i: int)
    requires
        d.wf(),
        0 <= i < d.spec_block_count(),
    ensures
        d.spec_read(f, i) matches Some(b) && b.len() == 512,
{
}

/// Read-after-write coherence: the block contents a successful write of
/// `data` to flash-backed block `i` leaves behind — `write_block`
/// ensures they equal `data` — are exactly what a read of that block
/// returns, before any flush has happened.
pub proof fn lemma_read_after_write<F: FlashDevice>(d: BlockDevice, f: F, i: int, data: Seq<u8>)
    requires
        d.wf(),
        d.image().synthetic_blocks() <= i < d.spec_block_count(),
        d.spec_block(f, i) == data,
    ensures
        d.spec_read(f, i) == Some(data),
{
}

} // verus!
