use vstd::prelude::*;

verus! {

/// State of an OAM DMA transfer (a write to `$4014`): 256 bytes are copied
/// from CPU page `page` to PPU OAM, one byte per two CPU cycles, after an
/// alignment wait.
#[derive(Clone, Copy, PartialEq, Eq, Structural, Debug)]
pub struct Dma {
    pub page: u8,
    pub wait: bool,
    pub count: u8,
    pub read_buffer: u8,
}

/// What the bus must do for the DMA on this CPU cycle.
#[derive(Clone, Copy, PartialEq, Eq, Structural, Debug)]
pub enum DmaAction {
    /// Nothing (alignment cycle).
    Idle,
    /// Read this CPU address and hand the byte back through `read_buffer`.
    Read(u16),
    /// Write this byte to OAM; `last` is set on the 256th byte, after which
    /// the transfer is over.
    WriteOam { byte: u8, last: bool },
}

/// The CPU address of byte `count` of page `page`.
pub open spec fn dma_address(page: u8, count: u8) -> u16 {
    (page as int * 256 + count as int) as u16
}

impl Dma {
    /// The action for the CPU cycle numbered `cpu_cycle`: the wait ends on an
    /// odd cycle; afterwards even cycles read and odd cycles write.
    pub open spec fn action(&self, cpu_cycle: usize) -> DmaAction {
        if self.wait {
            DmaAction::Idle
        } else if cpu_cycle % 2 == 0 {
            DmaAction::Read(dma_address(self.page, self.count))
        } else {
            DmaAction::WriteOam { byte: self.read_buffer, last: self.count == 255 }
        }
    }

    /// The transfer state after the CPU cycle numbered `cpu_cycle`.
    pub open spec fn stepped(self, cpu_cycle: usize) -> Dma {
        if self.wait {
            if cpu_cycle % 2 == 1 {
                Dma { wait: false, ..self }
            } else {
                self
            }
        } else if cpu_cycle % 2 == 1 && self.count < 255 {
            Dma { count: (self.count + 1) as u8, ..self }
        } else {
            self
        }
    }

    /// One CPU cycle of the transfer. On `Read(address)` the caller reads
    /// the bus and stores the byte in `read_buffer`; on `WriteOam` it writes
    /// the byte to OAM and ends the transfer if it was the last.
    pub fn step(&mut self, cpu_cycle: usize) -> (r: DmaAction)
        ensures
            r == old(self).action(cpu_cycle),
            *final(self) == old(self).stepped(cpu_cycle),
    {
        if self.wait {
            if cpu_cycle % 2 == 1 {
                self.wait = false;
            }
            DmaAction::Idle
        } else if cpu_cycle % 2 == 0 {
            let p = self.page;
            assert(((p as u16) << 8) == p as u16 * 256) by (bit_vector);
            let address = ((self.page as u16) << 8) + self.count as u16;
            DmaAction::Read(address)
        } else {
            let last = self.count == u8::MAX;
            if !last {
                self.count += 1;
            }
            DmaAction::WriteOam { byte: self.read_buffer, last }
        }
    }
}

/// Every read of a transfer stays inside its page, at the offset given by
/// the count of bytes already copied.
pub proof fn lemma_reads_stay_in_page(d: Dma, cpu_cycle: usize)
    ensures
        d.action(cpu_cycle) matches DmaAction::Read(address) ==> address / 256 == d.page
            && address % 256 == d.count,
{
}

/// After the wait, each pair of CPU cycles (read on even, write on odd)
/// copies one byte and moves to the next; the 256th write ends the transfer.
pub proof fn lemma_read_then_write_advances(d: Dma, even: usize)
    requires
        !d.wait,
        even % 2 == 0,
        even < usize::MAX,
    ensures
        d.stepped(even) == d,
        d.action((even + 1) as usize) == (DmaAction::WriteOam { byte: d.read_buffer, last: d.count == 255 }),
        d.count < 255 ==> d.stepped((even + 1) as usize).count == d.count + 1,
{
}

} // verus!
