use vstd::prelude::*;

use crate::errors::FlashError;

verus! {

/// One physical operation issued to the flash, for observing erase and
/// program ordering.
#[derive(Clone, Copy, Debug, PartialEq, Eq, Structural)]
pub enum FlashOp {
    /// A page erase at the given address was attempted.
    Erase(u32),
    /// A page program at the given address was attempted.
    Program(u32),
}

/// `mem` with `data` overlaid starting at offset `off`.
pub open spec fn splice(mem: Seq<u8>, off: int, data: Seq<u8>) -> Seq<u8> {
    Seq::new(mem.len(), |j: int| if off <= j < off + data.len() {
        data[j - off]
    } else {
        mem[j]
    })
}

/// `len` bytes in the erased state.
pub open spec fn erased_page(len: int) -> Seq<u8> {
    Seq::new(len as nat, |j: int| 0xFFu8)
}

/// The synchronous flash primitives the page cache builds on: page
/// erase, page program and plain reads over a contiguous byte region.
///
/// `mem()` is the current contents of the region starting at `base()`,
/// `psize()` the erase/program granularity, and `oplog()` the sequence of
/// erase/program operations issued so far, oldest first.  Erase and
/// program may fail (a hardware fault); a failure leaves every byte
/// outside the target page unchanged but nothing is promised about the
/// page itself, which is why callers invalidate any buffered copy of
/// it.
pub trait FlashDevice: Sized {
    /// Internal consistency of the driver state.
    spec fn inv(&self) -> bool;

    /// First byte address of the device's region.
    spec fn base(&self) -> int;

    /// Erase/program granularity in bytes.
    spec fn psize(&self) -> int;

    /// Current contents of the region.
    spec fn mem(&self) -> Seq<u8>;

    /// Erase/program operations issued so far, oldest first.
    spec fn oplog(&self) -> Seq<FlashOp>;

    /// Whether the next page erase is allowed to fail.  A driver for
    /// real hardware, whose faults nothing can rule out, defines this as
    /// constantly true; the in-memory device defines it as its fault
    /// injection flag, so that success is owed whenever injection is
    /// off.
    spec fn erase_may_fail(&self) -> bool;

    /// Whether the next page program is allowed to fail, as for
    /// `erase_may_fail`.
    spec fn program_may_fail(&self) -> bool;

    /// Facts every consistent device provides: a positive, base-aligned
    /// page size, a region of whole pages, and addresses that fit in 32
    /// bits.
    proof fn inv_facts(&self)
        requires
            self.inv(),
        ensures
            self.psize() > 0,
            self.base() >= 0,
            self.base() % self.psize() == 0,
            self.mem().len() as int % self.psize() == 0,
            self.base() + self.mem().len() <= 0x1_0000_0000,
    ;

    /// Read `len` bytes starting at `addr` straight from the region.
    fn read(&self, addr: u32, len: u32) -> (r: Vec<u8>)
        requires
            self.inv(),
            self.base() <= addr as int,
            addr as int + len as int <= self.base() + self.mem().len(),
        ensures
            r@ == self.mem().subrange(
                addr as int - self.base(),
                addr as int + len as int - self.base(),
            ),
    ;

    /// Erase the page at `addr`; on success every byte of it reads
    /// 0xFF.  Success or failure, no byte outside the target page
    /// changes.
    fn erase_page(&mut self, addr: u32) -> (r: Result<(), FlashError>)
        requires
            old(self).inv(),
            old(self).base() <= addr as int,
            addr as int + old(self).psize() <= old(self).base() + old(self).mem().len(),
            (addr as int - old(self).base()) % old(self).psize() == 0,
        ensures
            final(self).inv(),
            final(self).base() == old(self).base(),
            final(self).psize() == old(self).psize(),
            final(self).mem().len() == old(self).mem().len(),
            final(self).erase_may_fail() == old(self).erase_may_fail(),
            final(self).program_may_fail() == old(self).program_may_fail(),
            final(self).oplog() == old(self).oplog().push(FlashOp::Erase(addr)),
            !old(self).erase_may_fail() ==> r is Ok,
            r is Ok ==> final(self).mem() == splice(
                old(self).mem(),
                addr as int - old(self).base(),
                erased_page(old(self).psize()),
            ),
            forall|j: int|
                0 <= j < old(self).mem().len() && !(addr as int - old(self).base() <= j < addr
                    as int - old(self).base() + old(self).psize()) ==> final(self).mem()[j] == old(
                    self,
                ).mem()[j],
            r matches Err(e) ==> e == FlashError::EraseFailed,
    ;

    /// Program the freshly erased page at `addr` with one page of data.
    /// Success or failure, no byte outside the target page changes.
    fn program_page(&mut self, addr: u32, data: &[u8]) -> (r: Result<(), FlashError>)
        requires
            old(self).inv(),
            old(self).base() <= addr as int,
            addr as int + old(self).psize() <= old(self).base() + old(self).mem().len(),
            (addr as int - old(self).base()) % old(self).psize() == 0,
            data@.len() == old(self).psize(),
            old(self).mem().subrange(
                addr as int - old(self).base(),
                addr as int - old(self).base() + old(self).psize(),
            ) == erased_page(old(self).psize()),
        ensures
            final(self).inv(),
            final(self).base() == old(self).base(),
            final(self).psize() == old(self).psize(),
            final(self).mem().len() == old(self).mem().len(),
            final(self).erase_may_fail() == old(self).erase_may_fail(),
            final(self).program_may_fail() == old(self).program_may_fail(),
            final(self).oplog() == old(self).oplog().push(FlashOp::Program(addr)),
            !old(self).program_may_fail() ==> r is Ok,
            r is Ok ==> final(self).mem() == splice(
                old(self).mem(),
                addr as int - old(self).base(),
                data@,
            ),
            forall|j: int|
                0 <= j < old(self).mem().len() && !(addr as int - old(self).base() <= j < addr
                    as int - old(self).base() + old(self).psize()) ==> final(self).mem()[j] == old(
                    self,
                ).mem()[j],
            r matches Err(e) ==> e == FlashError::ProgramFailed,
    ;
}

/// An in-memory flash device: a byte array with page semantics and a log
/// of the erase/program operations issued to it.  It stands in for real
/// hardware when exercising the staging logic, and can be told to fail
/// its next operations to exercise the fault paths.
pub struct MemFlash {
    base_address: u32,
    page_size: u32,
    data: Vec<u8>,
    ops: Vec<FlashOp>,
    fail_erase: bool,
    fail_program: bool,
}

impl MemFlash {
    /// A device of `len` bytes starting at `base_address`, fully erased.
    pub fn new(base_address: u32, page_size: u32, len: u32) -> (r: MemFlash)
        requires
            page_size > 0,
            base_address as int % page_size as int == 0,
            len as int % page_size as int == 0,
            base_address as int + len as int <= 0x1_0000_0000,
        ensures
            r.inv(),
            r.base() == base_address,
            r.psize() == page_size,
            r.mem() == erased_page(len as int),
            r.oplog() == Seq::<FlashOp>::empty(),
            !r.erase_may_fail(),
            !r.program_may_fail(),
    {
        let mut data: Vec<u8> = Vec::new();
        let mut i: u32 = 0;
        while i < len
            invariant
                i <= len,
                data@.len() == i,
                forall|j: int| 0 <= j < i ==> data@[j] == 0xFFu8,
            decreases len - i,
        {
            data.push(0xFF);
            i = i + 1;
        }
        let r = MemFlash {
            base_address,
            page_size,
            data,
            ops: Vec::new(),
            fail_erase: false,
            fail_program: false,
        };
        proof {
            assert(r.mem() =~= erased_page(len as int));
            assert(r.oplog() =~= Seq::<FlashOp>::empty());
        }
        r
    }

    /// Make every following erase fail (or succeed again).
    pub fn set_fail_erase(&mut self, v: bool)
        ensures
            final(self).inv() == old(self).inv(),
            final(self).base() == old(self).base(),
            final(self).psize() == old(self).psize(),
            final(self).mem() == old(self).mem(),
            final(self).oplog() == old(self).oplog(),
            final(self).erase_may_fail() == v,
            final(self).program_may_fail() == old(self).program_may_fail(),
    {
        self.fail_erase = v;
    }

    /// Make every following program fail (or succeed again).
    pub fn set_fail_program(&mut self, v: bool)
        ensures
            final(self).inv() == old(self).inv(),
            final(self).base() == old(self).base(),
            final(self).psize() == old(self).psize(),
            final(self).mem() == old(self).mem(),
            final(self).oplog() == old(self).oplog(),
            final(self).erase_may_fail() == old(self).erase_may_fail(),
            final(self).program_may_fail() == v,
    {
        self.fail_program = v;
    }

    /// Number of erase/program operations issued so far.
    pub fn op_count(&self) -> (n: usize)
        ensures
            n == self.oplog().len(),
    {
        self.ops.len()
    }

    /// The `i`-th operation issued, oldest first.
    pub fn op_at(&self, i: usize) -> (op: FlashOp)
        requires
            i < self.oplog().len(),
        ensures
            op == self.oplog()[i as int],
    {
        self.ops[i]
    }

    /// The current byte at `addr`.
    pub fn byte_at(&self, addr: u32) -> (b: u8)
        requires
            self.inv(),
            self.base() <= addr as int,
            addr as int + 1 <= self.base() + self.mem().len(),
        ensures
            b == self.mem()[addr as int - self.base()],
    {
        self.data[(addr - self.base_address) as usize]
    }
}

impl FlashDevice for MemFlash {
    closed spec fn inv(&self) -> bool {
        &&& self.page_size > 0
        &&& self.base_address as int % self.page_size as int == 0
        &&& self.data@.len() as int % self.page_size as int == 0
        &&& self.base_address as int + self.data@.len() <= 0x1_0000_0000
    }

    closed spec fn base(&self) -> int {
        self.base_address as int
    }

    closed spec fn psize(&self) -> int {
        self.page_size as int
    }

    closed spec fn mem(&self) -> Seq<u8> {
        self.data@
    }

    closed spec fn oplog(&self) -> Seq<FlashOp> {
        self.ops@
    }

    closed spec fn erase_may_fail(&self) -> bool {
        self.fail_erase
    }

    closed spec fn program_may_fail(&self) -> bool {
        self.fail_program
    }

    proof fn inv_facts(&self) {
    }

    fn read(&self, addr: u32, len: u32) -> (r: Vec<u8>) {
        let start = addr - self.base_address;
        let mut r: Vec<u8> = Vec::new();
        let mut i: u32 = 0;
        while i < len
            invariant
                i <= len,
                r@.len() == i,
                self.inv(),
                self.base() <= addr as int,
                addr as int + len as int <= self.base() + self.mem().len(),
                start == addr - self.base_address,
                forall|j: int| 0 <= j < i ==> r@[j] == self.mem()[start + j],
            decreases len - i,
        {
            r.push(self.data[(start + i) as usize]);
            i = i + 1;
        }
        proof {
            assert(r@ =~= self.mem().subrange(
                addr as int - self.base(),
                addr as int + len as int - self.base(),
            ));
        }
        r
    }

    fn erase_page(&mut self, addr: u32) -> (r: Result<(), FlashError>) {
        self.ops.push(FlashOp::Erase(addr));
        if self.fail_erase {
            return Err(FlashError::EraseFailed);
        }
        let start = addr - self.base_address;
        let psz = self.page_size;
        let mut i: u32 = 0;
        while i < psz
            invariant
                i <= psz,
                psz == self.page_size,
                start == addr - self.base_address,
                self.base_address == old(self).base_address,
                self.page_size == old(self).page_size,
                self.ops@ == old(self).ops@.push(FlashOp::Erase(addr)),
                self.fail_erase == old(self).fail_erase,
                self.fail_program == old(self).fail_program,
                self.data@.len() == old(self).data@.len(),
                addr as int + psz as int <= self.base() + self.data@.len(),
                self.base() + self.data@.len() <= 0x1_0000_0000,
                self.base() <= addr as int,
                forall|j: int|
                    0 <= j < self.data@.len() ==> self.data@[j] == (if start <= j < start + i {
                        0xFFu8
                    } else {
                        old(self).data@[j]
                    }),
            decreases psz - i,
        {
            self.data.set((start + i) as usize, 0xFF);
            i = i + 1;
        }
        proof {
            assert(self.mem() =~= splice(
                old(self).mem(),
                addr as int - old(self).base(),
                erased_page(old(self).psize()),
            ));
        }
        Ok(())
    }

    fn program_page(&mut self, addr: u32, data: &[u8]) -> (r: Result<(), FlashError>) {
        self.ops.push(FlashOp::Program(addr));
        if self.fail_program {
            return Err(FlashError::ProgramFailed);
        }
        let start = addr - self.base_address;
        let psz = self.page_size;
        let mut i: u32 = 0;
        while i < psz
            invariant
                i <= psz,
                psz == self.page_size,
                start == addr - self.base_address,
                self.base_address == old(self).base_address,
                self.page_size == old(self).page_size,
                self.ops@ == old(self).ops@.push(FlashOp::Program(addr)),
                self.fail_erase == old(self).fail_erase,
                self.fail_program == old(self).fail_program,
                self.data@.len() == old(self).data@.len(),
                data@.len() == psz,
                addr as int + psz as int <= self.base() + self.data@.len(),
                self.base() + self.data@.len() <= 0x1_0000_0000,
                self.base() <= addr as int,
                forall|j: int|
                    0 <= j < self.data@.len() ==> self.data@[j] == (if start <= j < start + i {
                        data@[j - start]
                    } else {
                        old(self).data@[j]
                    }),
            decreases psz - i,
        {
            self.data.set((start + i) as usize, data[i as usize]);
            i = i + 1;
        }
        proof {
            assert(self.mem() =~= splice(old(self).mem(), addr as int - old(self).base(), data@));
        }
        Ok(())
    }
}

} // verus!
