//! Heap/stack overlap detection: track the heap's high-water mark through
//! observed calls to the program's heap-growth symbol, and fail the run
//! when the stack pointer dips below that mark.

use crate::image;
use crate::image::{symbol_addr_in, ImageParseError};
use crate::inst::wrap_add64;
use vstd::prelude::*;

verus! {

/// An overlap failure: the stack pointer fell below the heap mark.
#[derive(Debug)]
pub struct OverlapIncident {
    pub sp: u64,
    pub heap: u64,
}

/// The detector's whole state: the heap-growth symbol's address, absent
/// when the image has none — detection is then permanently inert — and the
/// current heap high-water mark, starting at the image's end-of-data
/// symbol.
pub struct MachineOverlap {
    pub sbrk_addr: Option<u64>,
    pub sbrk_heap: u64,
}

impl MachineOverlap {
    /// A detector for a heap-growth symbol at `sbrk_addr` whose mark starts
    /// at `heap_start`.
    pub fn new(sbrk_addr: Option<u64>, heap_start: u64) -> (r: MachineOverlap)
        ensures
            r.sbrk_addr == sbrk_addr,
            r.sbrk_heap == heap_start,
    {
        MachineOverlap { sbrk_addr, sbrk_heap: heap_start }
    }

    /// A detector for an executable image — it is built exactly when the
    /// image parses: the heap-growth symbol is `_sbrk`, and the mark starts
    /// at `_end`, or at zero when the image has no such symbol.
    pub fn from_image(program: &[u8]) -> (r: Result<MachineOverlap, ImageParseError>)
        ensures
            (r is Ok) == image::elf_parses(program@),
            r matches Ok(d) ==> d.sbrk_addr == symbol_addr_in(
                image::elf_syms_of(program@),
                "_sbrk"@,
            ) && d.sbrk_heap == (
                match symbol_addr_in(image::elf_syms_of(program@), "_end"@) {
                    Some(a) => a,
                    None => 0u64,
                }
            ),
    {
        let elf = match image::parse_elf(program) {
            Ok(elf) => elf,
            Err(e) => {
                return Err(e);
            },
        };
        let sbrk_addr = elf.symbol_addr("_sbrk");
        let heap_start = match elf.symbol_addr("_end") {
            Some(a) => a,
            None => 0,
        };
        Ok(MachineOverlap { sbrk_addr, sbrk_heap: heap_start })
    }

    /// One per-instruction check and update, run before the instruction is
    /// evaluated.  With a heap-growth symbol present, a stack pointer below
    /// the mark fails with both addresses — a stack pointer equal to the
    /// mark does not — and a return transition that resolved to a frame
    /// entered via that symbol moves the mark to the frame's entry-time
    /// return-value register plus the current one.  With no heap-growth
    /// symbol the detector does nothing at all.
    pub fn step(
        &mut self,
        sp: u64,
        returned_frame: Option<(u64, u64)>,
        current_a0: u64,
    ) -> (r: Result<(), OverlapIncident>)
        ensures
            final(self).sbrk_addr == old(self).sbrk_addr,
            old(self).sbrk_addr is None ==> r is Ok && *final(self) == *old(self),
            old(self).sbrk_addr is Some ==> ((r is Ok) <==> sp >= old(self).sbrk_heap),
            r matches Err(e) ==> e.sp == sp && e.heap == old(self).sbrk_heap && *final(self)
                == *old(self),
            old(self).sbrk_addr matches Some(sa) ==> (r is Ok ==> final(self).sbrk_heap == (
                match returned_frame {
                    Some((frame_entry, entry_a0)) => if frame_entry == sa {
                        wrap_add64(entry_a0, current_a0)
                    } else {
                        old(self).sbrk_heap
                    },
                    None => old(self).sbrk_heap,
                }
            )),
    {
        let sa = match self.sbrk_addr {
            Some(sa) => sa,
            None => {
                return Ok(());
            },
        };
        if sp < self.sbrk_heap {
            return Err(OverlapIncident { sp, heap: self.sbrk_heap });
        }
        if let Some((frame_entry, entry_a0)) = returned_frame {
            if frame_entry == sa {
                // The heap-growth call hands back the old break in the
                // return-value register; adding the entry-time value of that
                // register — the requested increment, possibly negative in
                // two's complement — yields the new break.
                self.sbrk_heap = entry_a0.wrapping_add(current_a0);
            }
        }
        Ok(())
    }
}

/// The heap high-water mark moves by exactly the delta handed to the
/// heap-growth call: when a return from that call is observed — the call
/// having been entered with increment `delta` and returning the old mark —
/// the new mark is the old mark plus `delta`, modulo the register width.
pub proof fn lemma_heap_mark_moves_by_delta(
    pre: MachineOverlap,
    post: MachineOverlap,
    delta: u64,
    returned_a0: u64,
)
    requires
        post.sbrk_heap == wrap_add64(delta, returned_a0),
        returned_a0 == pre.sbrk_heap,
    ensures
        post.sbrk_heap == wrap_add64(pre.sbrk_heap, delta),
{
}

} // verus!
