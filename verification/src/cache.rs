use vstd::prelude::*;

use crate::arith;
use crate::errors::DeviceError;
use crate::flash::{erased_page, splice, FlashDevice, FlashOp};
use crate::geometry::FlashGeometry;

verus! {

/// A single-page write buffer in front of the physical flash.
///
/// At most one page is buffered at a time.  Writes are overlaid on an
/// in-memory copy of the page and committed to flash in one erase/program
/// cycle, either when a write moves to a different page or on an explicit
/// flush.  Reads are served from the buffer while it is dirty, so staged
/// writes are visible before they are committed.
pub struct FlashPageCache {
    geom: FlashGeometry,
    current_page: Option<u32>,
    buf: Vec<u8>,
    dirty: bool,
}

/// The byte the host observes at address `a`: the staged copy where a
/// dirty buffered page covers `a`, the physical byte otherwise.
pub open spec fn eff_byte<F: FlashDevice>(c: FlashPageCache, f: F, a: int) -> u8 {
    match c.page() {
        Some(p) => if c.is_dirty() && p as int <= a < p as int + c.geom().page_size as int {
            c.buffer()[a - p as int]
        } else {
            f.mem()[a - f.base()]
        },
        None => f.mem()[a - f.base()],
    }
}

impl FlashPageCache {
    /// The geometry the cache was built for.
    pub closed spec fn geom(self) -> FlashGeometry {
        self.geom
    }

    /// The buffered page's first address, if a page is buffered.
    pub closed spec fn page(self) -> Option<u32> {
        self.current_page
    }

    /// Whether the buffer is ahead of the physical flash.
    pub closed spec fn is_dirty(self) -> bool {
        self.dirty
    }

    /// The buffered page contents.
    pub closed spec fn buffer(self) -> Seq<u8> {
        self.buf@
    }

    /// Structural invariant: a valid geometry, a buffer of exactly one
    /// page, dirty only with a page loaded, and any loaded page aligned
    /// and inside the writable window.
    pub open spec fn wf(self) -> bool {
        &&& self.geom().wf()
        &&& self.buffer().len() == self.geom().page_size
        &&& (self.is_dirty() ==> self.page() is Some)
        &&& match self.page() {
            Some(p) => {
                &&& p as int % self.geom().page_size as int == 0
                &&& self.geom().min_address <= p
                &&& p as int + self.geom().page_size as int <= self.geom().max_address as int
            },
            None => true,
        }
    }

    /// The cache can sit in front of flash device `f`: matching page
    /// size, and the writable window contained in the device's region.
    pub open spec fn compat<F: FlashDevice>(self, f: F) -> bool {
        &&& f.inv()
        &&& f.psize() == self.geom().page_size
        &&& f.base() <= self.geom().min_address as int
        &&& self.geom().max_address as int <= f.base() + f.mem().len()
    }

    /// Whether the buffered page is the one containing `addr`.
    pub open spec fn holds_page(self, addr: int) -> bool {
        match self.page() {
            Some(q) => q as int == self.geom().page_of(addr),
            None => false,
        }
    }

    /// An empty cache for the given geometry.
    pub fn new(geom: FlashGeometry) -> (c: FlashPageCache)
        requires
            geom.wf(),
        ensures
            c.wf(),
            c.geom() == geom,
            c.page() is None,
            !c.is_dirty(),
    {
        let mut buf: Vec<u8> = Vec::new();
        let mut i: u32 = 0;
        while i < geom.page_size
            invariant
                i <= geom.page_size,
                buf@.len() == i,
            decreases geom.page_size - i,
        {
            buf.push(0);
            i = i + 1;
        }
        FlashPageCache { geom, current_page: None, buf, dirty: false }
    }

    /// The geometry the cache serves.
    pub fn geometry(&self) -> (g: FlashGeometry)
        ensures
            g == self.geom(),
    {
        self.geom
    }

    /// Whether a staged page is waiting to be committed.
    pub fn dirty_flag(&self) -> (d: bool)
        ensures
            d == self.is_dirty(),
    {
        self.dirty
    }

    /// The buffered page's first address, if any.
    pub fn cached_page(&self) -> (p: Option<u32>)
        ensures
            p == self.page(),
    {
        self.current_page
    }

    /// Read `len` bytes at `addr` (all within one page), serving staged
    /// bytes from the buffer and everything else from the flash.
    pub fn read<F: FlashDevice>(&self, f: &F, addr: u32, len: u32) -> (r: Vec<u8>)
        requires
            self.wf(),
            self.compat(*f),
            self.geom().min_address <= addr,
            addr as int + len as int <= self.geom().max_address as int,
            addr as int % self.geom().page_size as int + len as int
                <= self.geom().page_size as int,
        ensures
            r@.len() == len,
            forall|k: int| 0 <= k < len ==> r@[k] == eff_byte(*self, *f, addr + k),
    {
        proof {
            f.inv_facts();
        }
        let psz = self.geom.page_size;
        let from_buffer = match self.current_page {
            Some(p) => self.dirty && p <= addr && addr < p + psz,
            None => false,
        };
        if from_buffer {
            let p = self.current_page.unwrap();
            proof {
                arith::lemma_mod_in_page(psz as int, p as int, addr as int);
            }
            let off = (addr - p) as usize;
            let mut r: Vec<u8> = Vec::new();
            let mut i: usize = 0;
            while i < len as usize
                invariant
                    i <= len,
                    r@.len() == i,
                    self.wf(),
                    self.is_dirty(),
                    self.page() == Some(p),
                    psz == self.geom().page_size,
                    off == addr - p,
                    addr as int - p as int + len as int <= psz as int,
                    p <= addr,
                    forall|j: int| 0 <= j < i ==> r@[j] == self.buffer()[off + j],
                decreases len - i,
            {
                r.push(self.buf[off + i]);
                i = i + 1;
            }
            proof {
                assert forall|k: int| 0 <= k < len implies r@[k] == eff_byte(*self, *f, addr + k)
                by {
                    assert(p as int <= addr + k < p as int + psz as int);
                }
            }
            r
        } else {
            let r = f.read(addr, len);
            proof {
                assert forall|k: int| 0 <= k < len implies r@[k] == eff_byte(*self, *f, addr + k)
                by {
                    if self.is_dirty() {
                        let q = self.page().unwrap();
                        arith::lemma_align_floor(
                            self.geom().page_size as int,
                            self.geom().min_address as int,
                            addr as int,
                        );
                        let page = self.geom().page_of(addr as int);
                        if q as int != page {
                            arith::lemma_aligned_apart(
                                self.geom().page_size as int,
                                q as int,
                                page,
                            );
                        }
                        assert(!(q as int <= addr + k < q as int + self.geom().page_size as int));
                    }
                }
            }
            r
        }
    }

    /// Erase then program the buffered dirty page.  On failure the page
    /// is dropped from the cache so a stale dirty flag can never mask
    /// lost data.
    fn commit<F: FlashDevice>(&mut self, f: &mut F) -> (r: Result<(), DeviceError>)
        requires
            old(self).wf(),
            old(self).compat(*old(f)),
            old(self).is_dirty(),
        ensures
            final(self).wf(),
            final(self).geom() == old(self).geom(),
            final(self).buffer() == old(self).buffer(),
            final(self).compat(*final(f)),
            final(f).base() == old(f).base(),
            final(f).psize() == old(f).psize(),
            final(f).mem().len() == old(f).mem().len(),
            final(f).erase_may_fail() == old(f).erase_may_fail(),
            final(f).program_may_fail() == old(f).program_may_fail(),
            !old(f).erase_may_fail() && !old(f).program_may_fail() ==> r is Ok,
            old(self).page() matches Some(p) ==> match r {
                Ok(()) => {
                    &&& final(self).page() == old(self).page()
                    &&& !final(self).is_dirty()
                    &&& final(f).mem() == splice(
                        old(f).mem(),
                        p as int - old(f).base(),
                        old(self).buffer(),
                    )
                    &&& final(f).oplog() == old(f).oplog() + seq![
                        FlashOp::Erase(p),
                        FlashOp::Program(p),
                    ]
                },
                Err(e) => {
                    &&& e == DeviceError::FlashOperationFailed
                    &&& final(self).page() is None
                    &&& !final(self).is_dirty()
                    &&& (final(f).oplog() == old(f).oplog() + seq![FlashOp::Erase(p)]
                        || final(f).oplog() == old(f).oplog() + seq![
                            FlashOp::Erase(p),
                            FlashOp::Program(p),
                        ])
                    &&& forall|j: int|
                        0 <= j < old(f).mem().len() && !(p as int - old(f).base() <= j < p as int
                            - old(f).base() + old(f).psize()) ==> final(f).mem()[j] == old(
                            f,
                        ).mem()[j]
                },
            },
    {
        proof {
            f.inv_facts();
        }
        let p = self.current_page.unwrap();
        proof {
            arith::lemma_sub_mod(p as int, f.base(), f.psize());
        }
        match f.erase_page(p) {
            Ok(()) => {},
            Err(_) => {
                self.current_page = None;
                self.dirty = false;
                proof {
                    assert(f.oplog() =~= old(f).oplog() + seq![FlashOp::Erase(p)]);
                }
                return Err(DeviceError::FlashOperationFailed);
            },
        }
        proof {
            assert(f.mem().subrange(
                p as int - f.base(),
                p as int - f.base() + f.psize(),
            ) =~= erased_page(f.psize()));
        }
        match f.program_page(p, self.buf.as_slice()) {
            Ok(()) => {},
            Err(_) => {
                self.current_page = None;
                self.dirty = false;
                proof {
                    assert(f.oplog() =~= old(f).oplog() + seq![
                        FlashOp::Erase(p),
                        FlashOp::Program(p),
                    ]);
                }
                return Err(DeviceError::FlashOperationFailed);
            },
        }
        self.dirty = false;
        proof {
            assert(f.mem() =~= splice(
                old(f).mem(),
                p as int - old(f).base(),
                old(self).buffer(),
            ));
            assert(f.oplog() =~= old(f).oplog() + seq![FlashOp::Erase(p), FlashOp::Program(p)]);
        }
        Ok(())
    }

    /// Stage a write of `data` at `addr`, entirely inside one flash page
    /// of the writable window.  A dirty page other than the target is
    /// committed first — never silently discarded — then the target page
    /// is loaded (read-before-write, so untouched bytes survive), the
    /// data overlaid and the page marked dirty.
    #[verifier::loop_isolation(false)]
    pub fn stage_write<F: FlashDevice>(&mut self, f: &mut F, addr: u32, data: &[u8]) -> (r: Result<
        (),
        DeviceError,
    >)
        requires
            old(self).wf(),
            old(self).compat(*old(f)),
        ensures
            final(self).wf(),
            final(self).geom() == old(self).geom(),
            final(self).compat(*final(f)),
            final(f).base() == old(f).base(),
            final(f).psize() == old(f).psize(),
            final(f).mem().len() == old(f).mem().len(),
            final(f).erase_may_fail() == old(f).erase_may_fail(),
            final(f).program_may_fail() == old(f).program_may_fail(),
            (r matches Err(e) && e == DeviceError::ConfigurationError) <==> !old(
                self,
            ).geom().writable(addr as int, data@.len() as int),
            !old(self).geom().writable(addr as int, data@.len() as int) ==> *final(self) == *old(
                self,
            ) && *final(f) == *old(f),
            old(self).geom().writable(addr as int, data@.len() as int) && !(old(self).is_dirty()
                && !old(self).holds_page(addr as int)) ==> r is Ok,
            old(self).geom().writable(addr as int, data@.len() as int) && !old(
                f,
            ).erase_may_fail() && !old(f).program_may_fail() ==> r is Ok,
            r is Ok ==> old(self).geom().writable(addr as int, data@.len() as int),
            r is Ok ==> final(self).is_dirty() && final(self).holds_page(addr as int),
            r is Ok ==> forall|a: int|
                old(f).base() <= a < old(f).base() + old(f).mem().len() ==> eff_byte(
                    *final(self),
                    *final(f),
                    a,
                ) == (if addr as int <= a < addr as int + data@.len() {
                    data@[a - (addr as int)]
                } else {
                    eff_byte(*old(self), *old(f), a)
                }),
            r is Ok && !(old(self).is_dirty() && !old(self).holds_page(addr as int)) ==> *final(f)
                == *old(f),
            r is Ok && old(self).is_dirty() && !old(self).holds_page(addr as int) ==> (old(
                self,
            ).page() matches Some(q) ==> {
                &&& final(f).mem() == splice(
                    old(f).mem(),
                    q as int - old(f).base(),
                    old(self).buffer(),
                )
                &&& final(f).oplog() == old(f).oplog() + seq![
                    FlashOp::Erase(q),
                    FlashOp::Program(q),
                ]
            }),
            r matches Err(e) && e == DeviceError::FlashOperationFailed ==> {
                &&& old(self).geom().writable(addr as int, data@.len() as int)
                &&& old(self).is_dirty() && !old(self).holds_page(addr as int)
                &&& final(self).page() is None && !final(self).is_dirty()
                &&& (old(self).page() matches Some(q) ==> {
                    &&& (final(f).oplog() == old(f).oplog() + seq![FlashOp::Erase(q)]
                        || final(f).oplog() == old(f).oplog() + seq![
                            FlashOp::Erase(q),
                            FlashOp::Program(q),
                        ])
                    &&& forall|j: int|
                        0 <= j < old(f).mem().len() && !(q as int - old(f).base() <= j < q as int
                            - old(f).base() + old(f).psize()) ==> final(f).mem()[j] == old(
                            f,
                        ).mem()[j]
                })
            },
            r matches Err(e) ==> e == DeviceError::ConfigurationError
                || e == DeviceError::FlashOperationFailed,
    {
        proof {
            f.inv_facts();
        }
        let g = self.geom;
        let ok = g.min_address <= addr && addr < g.max_address && data.len() <= (g.max_address
            - addr) as usize && data.len() <= (g.page_size - addr % g.page_size) as usize;
        if !ok {
            return Err(DeviceError::ConfigurationError);
        }
        let page: u32 = addr - addr % g.page_size;
        proof {
            arith::lemma_align_floor(g.page_size as int, g.min_address as int, addr as int);
            arith::lemma_align_ceil(g.page_size as int, g.max_address as int, addr as int);
        }
        if self.dirty {
            let q = self.current_page.unwrap();
            if q != page {
                proof {
                    arith::lemma_aligned_apart(g.page_size as int, q as int, page as int);
                }
                match self.commit(f) {
                    Ok(()) => {},
                    Err(e) => {
                        return Err(e);
                    },
                }
            }
        }
        let ghost mid_self = *self;
        let ghost mid_f = *f;
        let holds = match self.current_page {
            Some(q) => self.dirty && q == page,
            None => false,
        };
        if !holds {
            let loaded = f.read(page, g.page_size);
            self.buf = loaded;
            self.current_page = Some(page);
        }
        self.dirty = true;
        let ghost base_buf = self.buf@;
        let off = (addr - page) as usize;
        let mut i: usize = 0;
        while i < data.len()
            invariant
                i <= data.len(),
                self.geom == g,
                self.current_page == Some(page),
                self.dirty,
                self.buf@.len() == g.page_size,
                forall|j: int|
                    0 <= j < self.buf@.len() ==> self.buf@[j] == (if off <= j < off + i {
                        data@[j - off]
                    } else {
                        base_buf[j]
                    }),
            decreases data.len() - i,
        {
            self.buf.set(off + i, data[i]);
            i = i + 1;
        }
        proof {
            let dlen = data@.len() as int;
            let base = old(f).base();
            let psz = g.page_size as int;
            if old(self).is_dirty() && !old(self).holds_page(addr as int) {
                let q = old(self).page().unwrap();
                arith::lemma_aligned_apart(psz, q as int, page as int);
            }
            assert forall|a: int| base <= a < base + old(f).mem().len() implies eff_byte(
                *self,
                *f,
                a,
            ) == (if addr as int <= a < addr as int + dlen {
                data@[a - (addr as int)]
            } else {
                eff_byte(*old(self), *old(f), a)
            }) by {
                if page as int <= a < page as int + psz {
                    if addr as int <= a < addr as int + dlen {
                        assert(self.buffer()[a - page as int] == data@[a - (addr as int)]);
                    } else {
                        assert(self.buffer()[a - page as int] == base_buf[a - page as int]);
                        if !(mid_self.is_dirty() && mid_self.page() == Some(page)) {
                            assert(base_buf[a - page as int] == mid_f.mem()[a - base]);
                        }
                    }
                } else {
                    assert(eff_byte(*self, *f, a) == mid_f.mem()[a - base]);
                }
            }
        }
        Ok(())
    }

    /// Commit the dirty page if there is one.  With nothing staged this
    /// is a no-op: no state changes and no hardware operation is issued,
    /// so a second flush right after a successful one costs nothing.
    pub fn flush<F: FlashDevice>(&mut self, f: &mut F) -> (r: Result<(), DeviceError>)
        requires
            old(self).wf(),
            old(self).compat(*old(f)),
        ensures
            final(self).wf(),
            final(self).geom() == old(self).geom(),
            final(self).compat(*final(f)),
            final(f).base() == old(f).base(),
            final(f).psize() == old(f).psize(),
            final(f).mem().len() == old(f).mem().len(),
            final(f).erase_may_fail() == old(f).erase_may_fail(),
            final(f).program_may_fail() == old(f).program_may_fail(),
            !old(f).erase_may_fail() && !old(f).program_may_fail() ==> r is Ok,
            !old(self).is_dirty() ==> r is Ok && *final(self) == *old(self) && *final(f)
                == *old(f),
            old(self).is_dirty() ==> (old(self).page() matches Some(p) ==> match r {
                Ok(()) => {
                    &&& final(self).page() == old(self).page()
                    &&& !final(self).is_dirty()
                    &&& final(f).mem() == splice(
                        old(f).mem(),
                        p as int - old(f).base(),
                        old(self).buffer(),
                    )
                    &&& final(f).oplog() == old(f).oplog() + seq![
                        FlashOp::Erase(p),
                        FlashOp::Program(p),
                    ]
                    &&& forall|a: int|
                        old(f).base() <= a < old(f).base() + old(f).mem().len() ==> eff_byte(
                            *final(self),
                            *final(f),
                            a,
                        ) == eff_byte(*old(self), *old(f), a)
                },
                Err(e) => {
                    &&& e == DeviceError::FlashOperationFailed
                    &&& final(self).page() is None
                    &&& !final(self).is_dirty()
                    &&& (final(f).oplog() == old(f).oplog() + seq![FlashOp::Erase(p)]
                        || final(f).oplog() == old(f).oplog() + seq![
                            FlashOp::Erase(p),
                            FlashOp::Program(p),
                        ])
                    &&& forall|j: int|
                        0 <= j < old(f).mem().len() && !(p as int - old(f).base() <= j < p as int
                            - old(f).base() + old(f).psize()) ==> final(f).mem()[j] == old(
                            f,
                        ).mem()[j]
                },
            }),
    {
        if !self.dirty {
            return Ok(());
        }
        proof {
            f.inv_facts();
        }
        let r = self.commit(f);
        proof {
            if r is Ok {
                let p = old(self).page().unwrap();
                assert forall|a: int|
                    old(f).base() <= a < old(f).base() + old(f).mem().len() implies eff_byte(
                    *self,
                    *f,
                    a,
                ) == eff_byte(*old(self), *old(f), a) by {
                    assert(f.mem()[a - f.base()] == splice(
                        old(f).mem(),
                        p as int - old(f).base(),
                        old(self).buffer(),
                    )[a - old(f).base()]);
                }
            }
        }
        r
    }
}

} // verus!
