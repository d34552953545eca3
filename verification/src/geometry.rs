use vstd::prelude::*;

use crate::errors::DeviceError;

verus! {

/// First byte address of on-chip flash on the target family.
pub const FLASH_BASE: u32 = 0x0800_0000;

/// Size in bytes of one logical block exposed to the host.
pub const BLOCK_SIZE: u32 = 512;

/// Shape of the writable flash window.
///
/// `page_size` is the erase/program granularity, `min_address` the first
/// writable byte (above the firmware image), `max_address` the end of the
/// usable region.
#[derive(Clone, Copy, Debug, PartialEq, Eq, Structural)]
pub struct FlashGeometry {
    pub page_size: u32,
    pub min_address: u32,
    pub max_address: u32,
}

impl FlashGeometry {
    /// A usable geometry: a known page size and a non-empty, page-aligned
    /// writable window.
    pub open spec fn wf(self) -> bool {
        &&& (self.page_size == 1024 || self.page_size == 2048)
        &&& self.min_address as int % self.page_size as int == 0
        &&& self.max_address as int % self.page_size as int == 0
        &&& self.min_address < self.max_address
    }

    /// Number of 512-byte blocks backed by the writable window.
    pub open spec fn flash_blocks(self) -> int {
        (self.max_address - self.min_address) / (BLOCK_SIZE as int)
    }

    /// Whether a write of `len` bytes at `addr` stays inside the writable
    /// window and inside a single flash page.
    pub open spec fn writable(self, addr: int, len: int) -> bool {
        &&& self.min_address <= addr < self.max_address
        &&& addr + len <= self.max_address
        &&& addr % (self.page_size as int) + len <= self.page_size
    }

    /// First address of the page containing `addr`.
    pub open spec fn page_of(self, addr: int) -> int {
        addr - addr % (self.page_size as int)
    }

    /// Validate an explicit geometry.
    pub fn new(page_size: u32, min_address: u32, max_address: u32) -> (r: Result<
        FlashGeometry,
        DeviceError,
    >)
        ensures
            match r {
                Ok(g) => g == (FlashGeometry { page_size, min_address, max_address }) && g.wf(),
                Err(e) => {
                    &&& e == DeviceError::ConfigurationError
                    &&& !(FlashGeometry { page_size, min_address, max_address }).wf()
                },
            },
    {
        let ok = (page_size == 1024 || page_size == 2048) && min_address % page_size == 0
            && max_address % page_size == 0 && min_address < max_address;
        if ok {
            Ok(FlashGeometry { page_size, min_address, max_address })
        } else {
            Err(DeviceError::ConfigurationError)
        }
    }

    /// Derive a geometry from the flash capacity reported by the part:
    /// parts above 128 KiB erase in 2 KiB pages, smaller parts in 1 KiB
    /// pages, and the region ends at `FLASH_BASE + capacity`.  The call
    /// fails exactly when that end overflows the address space or the
    /// derived geometry is not well-formed.
    pub fn from_capacity(flash_size_kib: u32, min_address: u32) -> (r: Result<
        FlashGeometry,
        DeviceError,
    >)
        ensures
            ({
                let page_size: u32 = if flash_size_kib > 128 {
                    2048u32
                } else {
                    1024u32
                };
                let end = FLASH_BASE + flash_size_kib * 1024;
                let derived = (FlashGeometry {
                    page_size,
                    min_address,
                    max_address: end as u32,
                });
                &&& (r is Ok <==> end <= u32::MAX && derived.wf())
                &&& match r {
                    Ok(g) => g == derived && g.wf(),
                    Err(e) => e == DeviceError::ConfigurationError,
                }
            }),
    {
        let page_size: u32 = if flash_size_kib > 128 {
            2048
        } else {
            1024
        };
        if flash_size_kib > (u32::MAX - FLASH_BASE) / 1024 {
            proof {
                crate::arith::lemma_mul_gt_from_div(
                    flash_size_kib as int,
                    (u32::MAX - FLASH_BASE) as int,
                    1024,
                );
            }
            return Err(DeviceError::ConfigurationError);
        }
        proof {
            crate::arith::lemma_mul_le_from_div(
                flash_size_kib as int,
                (u32::MAX - FLASH_BASE) as int,
                1024,
            );
        }
        let max_address: u32 = FLASH_BASE + flash_size_kib * 1024;
        FlashGeometry::new(page_size, min_address, max_address)
    }
}

} // verus!
