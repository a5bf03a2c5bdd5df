use vstd::prelude::*;
use crate::apu::{Apu, FrameCounterMode, frame_period};
use crate::dma::Dma;
use crate::dmc::Dmc;
use crate::noise::Noise;
use crate::pulse::Pulse;
use crate::triangle::Triangle;
use crate::wire::{
    Interrupt,
    Field,
    Kind,
    kind,
    magic,
    known_version,
    field_at,
    field_bytes,
    fields_at,
    fields_bytes,
    fields_len,
    field_len,
    fields_fit,
    field_fits,
    no_field_at,
    kinds,
    read_byte,
    read_flag,
    read_present,
    read_code,
    read_buffered,
    read_word,
    read_long,
    read_quad,
    read_block,
    read_version,
    read_pulse,
    read_triangle,
    read_noise,
    read_dmc,
    push_byte,
    push_flag,
    push_code,
    push_buffered,
    push_word,
    push_long,
    push_quad,
    push_block,
    push_version,
    push_pulse,
    push_triangle,
    push_noise,
    push_dmc,
    lemma_field_determined,
    lemma_fields_push,
    lemma_fields_prefix,
    lemma_fields_read_back,
    lemma_fields_determined,
    lemma_kinds_take,
};

verus! {

// ---------------------------------------------------------------------------
// The emulator state held in a save.
// ---------------------------------------------------------------------------

#[derive(Clone, Copy, PartialEq, Eq, Structural, Debug)]
pub enum LoadError {
    /// The data does not start with a known format tag, so nothing is
    /// loaded from it.
    UnknownFormat,
    /// The data ends before the fields that its format tag announces.
    Truncated,
}

#[derive(Clone, Debug, PartialEq, Eq)]
pub struct CpuState {
    pub pc: u16,
    pub sp: u8,
    pub a: u8,
    pub x: u8,
    pub y: u8,
    pub status: u8,
    pub cycles: u32,
    pub interrupt: Option<Interrupt>,
    pub clock_cycles: u32,
}

#[derive(Clone, Debug, PartialEq, Eq)]
pub struct PpuState {
    pub ctrl: u8,
    pub mask: u8,
    pub status: u8,
    pub dot: u16,
    pub scanline: u16,
    pub frame: u32,
    pub clock_cycles: u32,
    pub cur_address: u16,
    pub tmp_address: u16,
    pub scroll_x_fine: u8,
    pub write_latch: bool,
    pub read_buffer: u8,
    pub oam_address: u8,
    pub nametables: Vec<u8>,
    pub palettes: Vec<u8>,
    pub oam: Vec<u8>,
}

/// The DMC playback state kept by a version 2 save: everything but the IRQ
/// enable, the loop flag and the rate, which `$4010` sets.
#[derive(Clone, Copy, PartialEq, Eq, Structural, Debug)]
pub struct DmcState {
    pub timer: u16,
    pub output: u8,
    pub sample_address: u16,
    pub sample_length: u16,
    pub current_address: u16,
    pub bytes_remaining: u16,
    pub sample_buffer: Option<u8>,
    pub shift_register: u8,
    pub bits_remaining: u8,
    pub silence: bool,
    pub irq_flag: bool,
    pub irq_pending: bool,
}

/// The whole APU as a version 3 save keeps it: the status register, the
/// frame counter and every channel. The cycle count is stored apart, as the
/// save's `apu_cycles`; the mute flags are a debugging setting of the host
/// and are not part of the emulated state.
#[derive(Clone, Copy, PartialEq, Eq, Structural, Debug)]
pub struct ApuState {
    pub status: u8,
    pub mode: FrameCounterMode,
    pub irq_inhibit: bool,
    pub frame: u64,
    pub square_1: Pulse,
    pub square_2: Pulse,
    pub triangle: Triangle,
    pub noise: Noise,
    pub dmc: Dmc,
}

/// The APU channel state of a save, by format version.
#[derive(Clone, Copy, PartialEq, Eq, Structural, Debug)]
pub enum ApuSave {
    /// `NESSAVE1`: no channel state.
    Legacy,
    /// `NESSAVE2`: the DMC's playback state.
    DmcOnly(DmcState),
    /// `NESSAVE3`: the whole APU.
    Full(ApuState),
}

/// A complete emulator save: CPU, dividers, work RAM, PPU, APU cycle count
/// and channel state, controllers, OAM DMA, cartridge RAM and mapper state.
#[derive(Clone, Debug, PartialEq, Eq)]
pub struct SaveState {
    pub cpu: CpuState,
    pub cpu_divider: u8,
    pub sample_accumulator: u64,
    pub wram: Vec<u8>,
    pub ppu: PpuState,
    pub apu_cycles: u32,
    pub apu: ApuSave,
    pub controller_1: u8,
    pub controller_2: u8,
    pub dma: Option<Dma>,
    pub prg_ram: Vec<u8>,
    pub chr: Vec<u8>,
    pub mapper_state: Vec<u8>,
}

impl ApuSave {
    /// The format version that stores this channel state.
    pub open spec fn version(self) -> u8 {
        match self {
            ApuSave::Legacy => 1,
            ApuSave::DmcOnly(_) => 2,
            ApuSave::Full(_) => 3,
        }
    }
}

pub open spec fn cpu_kinds() -> Seq<Kind> {
    seq![
        Kind::Word, Kind::Byte, Kind::Byte, Kind::Byte, Kind::Byte, Kind::Byte, Kind::Long,
        Kind::Code, Kind::Long,
    ]
}

pub open spec fn ppu_kinds() -> Seq<Kind> {
    seq![
        Kind::Byte, Kind::Byte, Kind::Byte, Kind::Word, Kind::Word, Kind::Long, Kind::Long,
        Kind::Word, Kind::Word, Kind::Byte, Kind::Flag, Kind::Byte, Kind::Byte, Kind::Block,
        Kind::Block, Kind::Block,
    ]
}

pub open spec fn head_kinds() -> Seq<Kind> {
    seq![Kind::Version] + cpu_kinds() + seq![Kind::Byte, Kind::Quad, Kind::Block] + ppu_kinds()
        + seq![Kind::Long]
}

pub open spec fn dmc_state_kinds() -> Seq<Kind> {
    seq![
        Kind::Word, Kind::Byte, Kind::Word, Kind::Word, Kind::Word, Kind::Word, Kind::Buffered,
        Kind::Byte, Kind::Byte, Kind::Flag, Kind::Flag, Kind::Flag,
    ]
}

/// The whole APU: status, frame-counter mode, IRQ inhibit, frame-counter
/// position, then one record per channel.
pub open spec fn apu_state_kinds() -> Seq<Kind> {
    seq![
        Kind::Byte, Kind::Flag, Kind::Flag, Kind::Quad, Kind::Pulse, Kind::Pulse, Kind::Triangle,
        Kind::Noise, Kind::Dmc,
    ]
}

/// The kinds of the channel section of a save of version `v`.
pub open spec fn apu_kinds(v: u8) -> Seq<Kind> {
    if v == 3 {
        apu_state_kinds()
    } else if v == 2 {
        dmc_state_kinds()
    } else {
        seq![]
    }
}

pub open spec fn controller_kinds() -> Seq<Kind> {
    seq![Kind::Byte, Kind::Byte, Kind::Present]
}

pub open spec fn dma_state_kinds() -> Seq<Kind> {
    seq![Kind::Byte, Kind::Flag, Kind::Byte, Kind::Byte]
}

pub open spec fn dma_kinds(present: bool) -> Seq<Kind> {
    if present {
        dma_state_kinds()
    } else {
        seq![]
    }
}

pub open spec fn tail_kinds() -> Seq<Kind> {
    seq![Kind::Block, Kind::Block, Kind::Block]
}

/// The kinds of the fields up to and including the DMA presence flag.
pub open spec fn front_layout(v: u8) -> Seq<Kind> {
    head_kinds() + apu_kinds(v) + controller_kinds()
}

/// The kinds of all fields of a save.
pub open spec fn full_layout(v: u8, with_dma: bool) -> Seq<Kind> {
    front_layout(v) + dma_kinds(with_dma) + tail_kinds()
}

impl DmcState {
    pub open spec fn fields(&self) -> Seq<Field> {
        seq![
            Field::Word(self.timer),
            Field::Byte(self.output),
            Field::Word(self.sample_address),
            Field::Word(self.sample_length),
            Field::Word(self.current_address),
            Field::Word(self.bytes_remaining),
            Field::Buffered(self.sample_buffer),
            Field::Byte(self.shift_register),
            Field::Byte(self.bits_remaining),
            Field::Flag(self.silence),
            Field::Flag(self.irq_flag),
            Field::Flag(self.irq_pending),
        ]
    }
}

impl ApuState {
    pub open spec fn fields(&self) -> Seq<Field> {
        seq![
            Field::Byte(self.status),
            Field::Flag(self.mode == FrameCounterMode::FiveStep),
            Field::Flag(self.irq_inhibit),
            Field::Quad(self.frame),
            Field::Pulse(self.square_1),
            Field::Pulse(self.square_2),
            Field::Triangle(self.triangle),
            Field::Noise(self.noise),
            Field::Dmc(self.dmc),
        ]
    }
}

pub open spec fn apu_fields(apu: ApuSave) -> Seq<Field> {
    match apu {
        ApuSave::Legacy => seq![],
        ApuSave::DmcOnly(m) => m.fields(),
        ApuSave::Full(a) => a.fields(),
    }
}

pub open spec fn dma_state_fields(d: Dma) -> Seq<Field> {
    seq![Field::Byte(d.page), Field::Flag(d.wait), Field::Byte(d.count), Field::Byte(d.read_buffer)]
}

pub open spec fn dma_fields(dma: Option<Dma>) -> Seq<Field> {
    match dma {
        Some(d) => dma_state_fields(d),
        None => seq![],
    }
}

impl CpuState {
    pub open spec fn fields(&self) -> Seq<Field> {
        seq![
            Field::Word(self.pc),
            Field::Byte(self.sp),
            Field::Byte(self.a),
            Field::Byte(self.x),
            Field::Byte(self.y),
            Field::Byte(self.status),
            Field::Long(self.cycles),
            Field::Code(self.interrupt),
            Field::Long(self.clock_cycles),
        ]
    }
}

impl PpuState {
    pub open spec fn fields(&self) -> Seq<Field> {
        seq![
            Field::Byte(self.ctrl),
            Field::Byte(self.mask),
            Field::Byte(self.status),
            Field::Word(self.dot),
            Field::Word(self.scanline),
            Field::Long(self.frame),
            Field::Long(self.clock_cycles),
            Field::Word(self.cur_address),
            Field::Word(self.tmp_address),
            Field::Byte(self.scroll_x_fine),
            Field::Flag(self.write_latch),
            Field::Byte(self.read_buffer),
            Field::Byte(self.oam_address),
            Field::Block(self.nametables@),
            Field::Block(self.palettes@),
            Field::Block(self.oam@),
        ]
    }
}

impl SaveState {
    /// The fields of the state, in the order the format stores them.
    pub open spec fn head_fields(&self) -> Seq<Field> {
        seq![Field::Version(self.apu.version())] + self.cpu.fields() + seq![
            Field::Byte(self.cpu_divider),
            Field::Quad(self.sample_accumulator),
            Field::Block(self.wram@),
        ] + self.ppu.fields() + seq![Field::Long(self.apu_cycles)]
    }

    pub open spec fn controller_fields(&self) -> Seq<Field> {
        seq![
            Field::Byte(self.controller_1),
            Field::Byte(self.controller_2),
            Field::Present(self.dma is Some),
        ]
    }

    pub open spec fn tail_fields(&self) -> Seq<Field> {
        seq![
            Field::Block(self.prg_ram@),
            Field::Block(self.chr@),
            Field::Block(self.mapper_state@),
        ]
    }

    pub open spec fn fields(&self) -> Seq<Field> {
        self.head_fields() + apu_fields(self.apu) + self.controller_fields() + dma_fields(self.dma)
            + self.tail_fields()
    }

    /// Every block fits the 32-bit length of the format.
    pub open spec fn fits(&self) -> bool {
        &&& self.wram@.len() <= u32::MAX
        &&& self.ppu.nametables@.len() <= u32::MAX
        &&& self.ppu.palettes@.len() <= u32::MAX
        &&& self.ppu.oam@.len() <= u32::MAX
        &&& self.prg_ram@.len() <= u32::MAX
        &&& self.chr@.len() <= u32::MAX
        &&& self.mapper_state@.len() <= u32::MAX
    }
}

proof fn lemma_kinds_add(a: Seq<Field>, b: Seq<Field>)
    ensures
        kinds(a + b) == kinds(a) + kinds(b),
{
    assert(kinds(a + b) =~= kinds(a) + kinds(b));
}

proof fn lemma_fields_fit_add(a: Seq<Field>, b: Seq<Field>)
    requires
        fields_fit(a),
        fields_fit(b),
    ensures
        fields_fit(a + b),
{
    assert forall|k: int| 0 <= k < (a + b).len() implies field_fits(#[trigger] (a + b)[k]) by {
        if k < a.len() {
            assert((a + b)[k] == a[k]);
        } else {
            assert((a + b)[k] == b[k - a.len()]);
        }
    }
}

/// Equal concatenations with equal first parts have equal second parts.
proof fn lemma_add_cancel(a1: Seq<Field>, b1: Seq<Field>, a2: Seq<Field>, b2: Seq<Field>)
    requires
        a1 + b1 == a2 + b2,
        a1.len() == a2.len(),
    ensures
        a1 == a2,
        b1 == b2,
{
    assert(a1 =~= (a1 + b1).subrange(0, a1.len() as int));
    assert(a2 =~= (a2 + b2).subrange(0, a2.len() as int));
    assert(b1 =~= (a1 + b1).subrange(a1.len() as int, (a1 + b1).len() as int));
    assert(b2 =~= (a2 + b2).subrange(a2.len() as int, (a2 + b2).len() as int));
}

/// The channel section of a save has the kinds its version announces, and
/// holds no block or version field.
proof fn lemma_apu_fields(apu: ApuSave)
    ensures
        kinds(apu_fields(apu)) == apu_kinds(apu.version()),
        apu_fields(apu).len() == apu_kinds(apu.version()).len(),
        fields_fit(apu_fields(apu)),
{
    assert(kinds(apu_fields(apu)) =~= apu_kinds(apu.version()));
    assert(apu_fields(apu).len() == kinds(apu_fields(apu)).len());
}

/// The shape of a save's field sequence is fixed by its format version and by
/// whether a DMA was in flight; the version is the first field and the DMA
/// presence flag the last field of the front part.
pub proof fn lemma_layout(s: SaveState)
    ensures
        kinds(s.fields()) == full_layout(s.apu.version(), s.dma is Some),
        s.fields().len() == full_layout(s.apu.version(), s.dma is Some).len(),
        s.fields()[0] == Field::Version(s.apu.version()),
        s.fields()[front_layout(s.apu.version()).len() - 1] == Field::Present(s.dma is Some),
        s.fits() ==> fields_fit(s.fields()),
{
    let fs = s.fields();
    let v = s.apu.version();
    let h = s.head_fields();
    let m = apu_fields(s.apu);
    let c = s.controller_fields();
    let d = dma_fields(s.dma);
    let t = s.tail_fields();
    lemma_apu_fields(s.apu);
    assert(kinds(h) =~= head_kinds());
    assert(kinds(c) =~= controller_kinds());
    assert(kinds(d) =~= dma_kinds(s.dma is Some));
    assert(kinds(t) =~= tail_kinds());
    lemma_kinds_add(h, m);
    lemma_kinds_add(h + m, c);
    lemma_kinds_add(h + m + c, d);
    lemma_kinds_add(h + m + c + d, t);
    assert(kinds(fs) == full_layout(v, s.dma is Some));
    assert(fs.len() == kinds(fs).len());
    let front = h + m + c;
    assert(front.len() == kinds(front).len());
    assert(front.len() == front_layout(v).len());
    assert(fs[front.len() - 1] == front[front.len() - 1]);
    assert(front[front.len() - 1] == c[2]);
    assert(fs[0] == h[0]);
    if s.fits() {
        assert(fields_fit(h));
        assert(fields_fit(c));
        assert(fields_fit(d));
        assert(fields_fit(t));
        lemma_fields_fit_add(h, m);
        lemma_fields_fit_add(h + m, c);
        lemma_fields_fit_add(h + m + c, d);
        lemma_fields_fit_add(h + m + c + d, t);
    }
}


/// The kinds of the front part of a save's fields, fixed by its version.
pub proof fn lemma_front_layout(t: SaveState)
    ensures
        t.fields().len() >= front_layout(t.apu.version()).len(),
        forall|j: int|
            0 <= j < front_layout(t.apu.version()).len() ==> kind(#[trigger] t.fields()[j])
                == front_layout(t.apu.version())[j],
{
    lemma_layout(t);
    let fs = t.fields();
    let front = front_layout(t.apu.version());
    let full = full_layout(t.apu.version(), t.dma is Some);
    assert forall|j: int| 0 <= j < front.len() implies kind(#[trigger] fs[j]) == front[j] by {
        assert(kinds(fs)[j] == kind(fs[j]));
        assert(full[j] == front[j]);
    }
}

/// The kinds of all of a save's fields.
pub proof fn lemma_full_layout(t: SaveState)
    ensures
        t.fields().len() == full_layout(t.apu.version(), t.dma is Some).len(),
        forall|j: int|
            0 <= j < t.fields().len() ==> kind(#[trigger] t.fields()[j]) == full_layout(
                t.apu.version(),
                t.dma is Some,
            )[j],
{
    lemma_layout(t);
    let fs = t.fields();
    assert forall|j: int| 0 <= j < fs.len() implies kind(#[trigger] fs[j]) == full_layout(
        t.apu.version(),
        t.dma is Some,
    )[j] by {
        assert(kinds(fs)[j] == kind(fs[j]));
    }
}

// ---------------------------------------------------------------------------
// Decoding state: a cursor over the data, the fields read so far, and the
// kinds every save the data could read as starts with.
// ---------------------------------------------------------------------------

/// `fs` is the field sequence of some save state that `d` reads as.
pub open spec fn save_reads(d: Seq<u8>, fs: Seq<Field>) -> bool {
    exists|t: SaveState| #[trigger] t.fields() == fs && fields_at(d, 0, fs)
}

struct Reader<'a> {
    data: &'a [u8],
    pos: usize,
    /// Fields read so far.
    read: Ghost<Seq<Field>>,
    /// Kinds every candidate sequence starts with.
    layout: Ghost<Seq<Kind>>,
}

impl<'a> Reader<'a> {
    spec fn candidate_ok(&self, fs: Seq<Field>) -> bool {
        &&& fields_at(self.data@, 0, fs)
        &&& fs.len() >= self.layout@.len()
        &&& fs.take(self.read@.len() as int) == self.read@
        &&& forall|j: int| 0 <= j < self.layout@.len() ==> kind(#[trigger] fs[j]) == self.layout@[j]
    }

    #[verifier::opaque]
    spec fn inv(&self) -> bool {
        &&& fields_at(self.data@, 0, self.read@)
        &&& self.pos == fields_len(self.read@)
        &&& self.read@.len() <= self.layout@.len()
        &&& forall|fs: Seq<Field>| #[trigger] save_reads(self.data@, fs) ==> self.candidate_ok(fs)
    }

    /// The next field is of kind `k`.
    spec fn expects(&self, k: Kind) -> bool {
        &&& self.read@.len() < self.layout@.len()
        &&& self.layout@[self.read@.len() as int] == k
    }

    spec fn none_left(&self) -> bool {
        forall|fs: Seq<Field>| !(#[trigger] save_reads(self.data@, fs))
    }

    /// `next` is `self` after reading the field `f`.
    spec fn advanced(&self, next: Reader, f: Field) -> bool {
        &&& next.data@ == self.data@
        &&& next.layout@ == self.layout@
        &&& next.read@ == self.read@.push(f)
        &&& next.inv()
    }

    /// The next fields are of kinds `ks`.
    spec fn expects_all(&self, ks: Seq<Kind>) -> bool {
        &&& self.read@.len() + ks.len() <= self.layout@.len()
        &&& self.layout@.subrange(self.read@.len() as int, self.read@.len() + ks.len() as int) == ks
    }

    /// `next` is `self` after reading the fields `fs`.
    spec fn advanced_by(&self, next: Reader, fs: Seq<Field>) -> bool {
        &&& next.data@ == self.data@
        &&& next.layout@ == self.layout@
        &&& next.read@ == self.read@ + fs
        &&& next.inv()
    }

    proof fn lemma_accept(&self, f: Field)
        requires
            self.inv(),
            self.expects(kind(f)),
            field_at(self.data@, self.pos as int, f),
        ensures
            fields_at(self.data@, 0, self.read@.push(f)),
            fields_len(self.read@.push(f)) == self.pos + field_len(f),
            forall|fs: Seq<Field>| #[trigger] save_reads(self.data@, fs) ==> fs.take(
                self.read@.len() + 1 as int,
            ) == self.read@.push(f),
    {
        reveal(Reader::inv);
        let d = self.data@;
        let read = self.read@;
        let k = read.len() as int;
        lemma_fields_push(d, 0, read, f);
        assert forall|fs: Seq<Field>| #[trigger] save_reads(self.data@, fs) implies fs.take(k + 1)
            == read.push(f) by {
            assert(self.candidate_ok(fs));
            lemma_fields_prefix(d, 0, fs, k);
            assert(kind(fs[k]) == self.layout@[k]);
            lemma_field_determined(d, self.pos as int, fs[k], f);
            assert(fs.take(k + 1) =~= read.push(f));
        }
    }

    proof fn lemma_reject(&self, k: Kind)
        requires
            self.inv(),
            self.expects(k),
            no_field_at(self.data@, self.pos as int, k),
        ensures
            self.none_left(),
    {
        reveal(Reader::inv);
        let d = self.data@;
        let n = self.read@.len() as int;
        assert forall|fs: Seq<Field>| !(#[trigger] save_reads(self.data@, fs)) by {
            if save_reads(self.data@, fs) {
                assert(self.candidate_ok(fs));
                lemma_fields_prefix(d, 0, fs, n);
                assert(kind(fs[n]) == self.layout@[n]);
            }
        }
    }

    fn byte(&mut self) -> (r: Result<u8, LoadError>)
        requires
            old(self).inv(),
            old(self).expects(Kind::Byte),
        ensures
            r matches Ok(b) ==> old(self).advanced(*final(self), Field::Byte(b)),
            r matches Err(e) ==> e == LoadError::Truncated && old(self).none_left(),
            final(self).data@ == old(self).data@,
    {
        proof {
            reveal(Reader::inv);
        }
        match read_byte(self.data, self.pos) {
            Some(b) => {
                proof {
                    self.lemma_accept(Field::Byte(b));
                }
                assert(self.pos + 1 <= self.data.len());
                self.pos = self.pos + 1;
                self.read = Ghost(self.read@.push(Field::Byte(b)));
                Ok(b)
            },
            None => {
                proof {
                    self.lemma_reject(Kind::Byte);
                }
                Err(LoadError::Truncated)
            },
        }
    }
    fn flag(&mut self) -> (r: Result<bool, LoadError>)
        requires
            old(self).inv(),
            old(self).expects(Kind::Flag),
        ensures
            r matches Ok(v) ==> old(self).advanced(*final(self), Field::Flag(v)),
            r matches Err(e) ==> e == LoadError::Truncated && old(self).none_left(),
            final(self).data@ == old(self).data@,
    {
        proof {
            reveal(Reader::inv);
        }
        match read_flag(self.data, self.pos) {
            Some(v) => {
                proof {
                    self.lemma_accept(Field::Flag(v));
                }
                assert(self.pos + 1 <= self.data.len());
                self.pos = self.pos + 1;
                self.read = Ghost(self.read@.push(Field::Flag(v)));
                Ok(v)
            },
            None => {
                proof {
                    self.lemma_reject(Kind::Flag);
                }
                Err(LoadError::Truncated)
            },
        }
    }

    fn present(&mut self) -> (r: Result<bool, LoadError>)
        requires
            old(self).inv(),
            old(self).expects(Kind::Present),
        ensures
            r matches Ok(v) ==> old(self).advanced(*final(self), Field::Present(v)),
            r matches Err(e) ==> e == LoadError::Truncated && old(self).none_left(),
            final(self).data@ == old(self).data@,
    {
        proof {
            reveal(Reader::inv);
        }
        match read_present(self.data, self.pos) {
            Some(v) => {
                proof {
                    self.lemma_accept(Field::Present(v));
                }
                assert(self.pos + 1 <= self.data.len());
                self.pos = self.pos + 1;
                self.read = Ghost(self.read@.push(Field::Present(v)));
                Ok(v)
            },
            None => {
                proof {
                    self.lemma_reject(Kind::Present);
                }
                Err(LoadError::Truncated)
            },
        }
    }

    fn code(&mut self) -> (r: Result<Option<Interrupt>, LoadError>)
        requires
            old(self).inv(),
            old(self).expects(Kind::Code),
        ensures
            r matches Ok(v) ==> old(self).advanced(*final(self), Field::Code(v)),
            r matches Err(e) ==> e == LoadError::Truncated && old(self).none_left(),
            final(self).data@ == old(self).data@,
    {
        proof {
            reveal(Reader::inv);
        }
        match read_code(self.data, self.pos) {
            Some(v) => {
                proof {
                    self.lemma_accept(Field::Code(v));
                }
                assert(self.pos + 1 <= self.data.len());
                self.pos = self.pos + 1;
                self.read = Ghost(self.read@.push(Field::Code(v)));
                Ok(v)
            },
            None => {
                proof {
                    self.lemma_reject(Kind::Code);
                }
                Err(LoadError::Truncated)
            },
        }
    }

    fn buffered(&mut self) -> (r: Result<Option<u8>, LoadError>)
        requires
            old(self).inv(),
            old(self).expects(Kind::Buffered),
        ensures
            r matches Ok(v) ==> old(self).advanced(*final(self), Field::Buffered(v)),
            r matches Err(e) ==> e == LoadError::Truncated && old(self).none_left(),
            final(self).data@ == old(self).data@,
    {
        proof {
            reveal(Reader::inv);
        }
        match read_buffered(self.data, self.pos) {
            Some(v) => {
                proof {
                    self.lemma_accept(Field::Buffered(v));
                }
                assert(self.pos + 2 <= self.data.len());
                self.pos = self.pos + 2;
                self.read = Ghost(self.read@.push(Field::Buffered(v)));
                Ok(v)
            },
            None => {
                proof {
                    self.lemma_reject(Kind::Buffered);
                }
                Err(LoadError::Truncated)
            },
        }
    }

    fn word(&mut self) -> (r: Result<u16, LoadError>)
        requires
            old(self).inv(),
            old(self).expects(Kind::Word),
        ensures
            r matches Ok(v) ==> old(self).advanced(*final(self), Field::Word(v)),
            r matches Err(e) ==> e == LoadError::Truncated && old(self).none_left(),
            final(self).data@ == old(self).data@,
    {
        proof {
            reveal(Reader::inv);
        }
        match read_word(self.data, self.pos) {
            Some(v) => {
                proof {
                    self.lemma_accept(Field::Word(v));
                }
                assert(self.pos + 2 <= self.data.len());
                self.pos = self.pos + 2;
                self.read = Ghost(self.read@.push(Field::Word(v)));
                Ok(v)
            },
            None => {
                proof {
                    self.lemma_reject(Kind::Word);
                }
                Err(LoadError::Truncated)
            },
        }
    }

    fn pulse(&mut self) -> (r: Result<Pulse, LoadError>)
        requires
            old(self).inv(),
            old(self).expects(Kind::Pulse),
        ensures
            r matches Ok(v) ==> old(self).advanced(*final(self), Field::Pulse(v)),
            r matches Err(e) ==> e == LoadError::Truncated && old(self).none_left(),
            final(self).data@ == old(self).data@,
    {
        proof {
            reveal(Reader::inv);
        }
        match read_pulse(self.data, self.pos) {
            Some(v) => {
                proof {
                    self.lemma_accept(Field::Pulse(v));
                }
                assert(self.pos + 22 <= self.data.len());
                self.pos = self.pos + 22;
                self.read = Ghost(self.read@.push(Field::Pulse(v)));
                Ok(v)
            },
            None => {
                proof {
                    self.lemma_reject(Kind::Pulse);
                }
                Err(LoadError::Truncated)
            },
        }
    }

    fn triangle(&mut self) -> (r: Result<Triangle, LoadError>)
        requires
            old(self).inv(),
            old(self).expects(Kind::Triangle),
        ensures
            r matches Ok(v) ==> old(self).advanced(*final(self), Field::Triangle(v)),
            r matches Err(e) ==> e == LoadError::Truncated && old(self).none_left(),
            final(self).data@ == old(self).data@,
    {
        proof {
            reveal(Reader::inv);
        }
        match read_triangle(self.data, self.pos) {
            Some(v) => {
                proof {
                    self.lemma_accept(Field::Triangle(v));
                }
                assert(self.pos + 11 <= self.data.len());
                self.pos = self.pos + 11;
                self.read = Ghost(self.read@.push(Field::Triangle(v)));
                Ok(v)
            },
            None => {
                proof {
                    self.lemma_reject(Kind::Triangle);
                }
                Err(LoadError::Truncated)
            },
        }
    }

    fn noise(&mut self) -> (r: Result<Noise, LoadError>)
        requires
            old(self).inv(),
            old(self).expects(Kind::Noise),
        ensures
            r matches Ok(v) ==> old(self).advanced(*final(self), Field::Noise(v)),
            r matches Err(e) ==> e == LoadError::Truncated && old(self).none_left(),
            final(self).data@ == old(self).data@,
    {
        proof {
            reveal(Reader::inv);
        }
        match read_noise(self.data, self.pos) {
            Some(v) => {
                proof {
                    self.lemma_accept(Field::Noise(v));
                }
                assert(self.pos + 16 <= self.data.len());
                self.pos = self.pos + 16;
                self.read = Ghost(self.read@.push(Field::Noise(v)));
                Ok(v)
            },
            None => {
                proof {
                    self.lemma_reject(Kind::Noise);
                }
                Err(LoadError::Truncated)
            },
        }
    }

    fn dmc(&mut self) -> (r: Result<Dmc, LoadError>)
        requires
            old(self).inv(),
            old(self).expects(Kind::Dmc),
        ensures
            r matches Ok(v) ==> old(self).advanced(*final(self), Field::Dmc(v)),
            r matches Err(e) ==> e == LoadError::Truncated && old(self).none_left(),
            final(self).data@ == old(self).data@,
    {
        proof {
            reveal(Reader::inv);
        }
        match read_dmc(self.data, self.pos) {
            Some(v) => {
                proof {
                    self.lemma_accept(Field::Dmc(v));
                }
                assert(self.pos + 22 <= self.data.len());
                self.pos = self.pos + 22;
                self.read = Ghost(self.read@.push(Field::Dmc(v)));
                Ok(v)
            },
            None => {
                proof {
                    self.lemma_reject(Kind::Dmc);
                }
                Err(LoadError::Truncated)
            },
        }
    }

    fn long(&mut self) -> (r: Result<u32, LoadError>)
        requires
            old(self).inv(),
            old(self).expects(Kind::Long),
        ensures
            r matches Ok(v) ==> old(self).advanced(*final(self), Field::Long(v)),
            r matches Err(e) ==> e == LoadError::Truncated && old(self).none_left(),
            final(self).data@ == old(self).data@,
    {
        proof {
            reveal(Reader::inv);
        }
        match read_long(self.data, self.pos) {
            Some(v) => {
                proof {
                    self.lemma_accept(Field::Long(v));
                }
                assert(self.pos + 4 <= self.data.len());
                self.pos = self.pos + 4;
                self.read = Ghost(self.read@.push(Field::Long(v)));
                Ok(v)
            },
            None => {
                proof {
                    self.lemma_reject(Kind::Long);
                }
                Err(LoadError::Truncated)
            },
        }
    }

    fn quad(&mut self) -> (r: Result<u64, LoadError>)
        requires
            old(self).inv(),
            old(self).expects(Kind::Quad),
        ensures
            r matches Ok(v) ==> old(self).advanced(*final(self), Field::Quad(v)),
            r matches Err(e) ==> e == LoadError::Truncated && old(self).none_left(),
            final(self).data@ == old(self).data@,
    {
        proof {
            reveal(Reader::inv);
        }
        match read_quad(self.data, self.pos) {
            Some(v) => {
                proof {
                    self.lemma_accept(Field::Quad(v));
                }
                assert(self.pos + 8 <= self.data.len());
                self.pos = self.pos + 8;
                self.read = Ghost(self.read@.push(Field::Quad(v)));
                Ok(v)
            },
            None => {
                proof {
                    self.lemma_reject(Kind::Quad);
                }
                Err(LoadError::Truncated)
            },
        }
    }

    fn block(&mut self) -> (r: Result<Vec<u8>, LoadError>)
        requires
            old(self).inv(),
            old(self).expects(Kind::Block),
        ensures
            r matches Ok(v) ==> old(self).advanced(*final(self), Field::Block(v@)),
            r matches Err(e) ==> e == LoadError::Truncated && old(self).none_left(),
            final(self).data@ == old(self).data@,
    {
        proof {
            reveal(Reader::inv);
        }
        match read_block(self.data, self.pos) {
            Some(v) => {
                proof {
                    self.lemma_accept(Field::Block(v@));
                }
                assert(self.pos + 4 + v.len() <= self.data.len());
                self.pos = self.pos + 4 + v.len();
                self.read = Ghost(self.read@.push(Field::Block(v@)));
                Ok(v)
            },
            None => {
                proof {
                    self.lemma_reject(Kind::Block);
                }
                Err(LoadError::Truncated)
            },
        }
    }

    fn version(&mut self) -> (r: Result<u8, LoadError>)
        requires
            old(self).inv(),
            old(self).expects(Kind::Version),
            old(self).pos == 0,
        ensures
            r matches Ok(v) ==> old(self).advanced(*final(self), Field::Version(v)),
            r matches Err(e) ==> old(self).none_left() && no_field_at(old(self).data@, 0, Kind::Version)
                && (e == LoadError::UnknownFormat <==> old(self).data@.len() >= 8),
            final(self).data@ == old(self).data@,
    {
        proof {
            reveal(Reader::inv);
        }
        match read_version(self.data, self.pos) {
            Some(v) => {
                proof {
                    self.lemma_accept(Field::Version(v));
                }
                self.pos = self.pos + 8;
                self.read = Ghost(self.read@.push(Field::Version(v)));
                Ok(v)
            },
            None => {
                proof {
                    self.lemma_reject(Kind::Version);
                }
                if self.data.len() >= 8 {
                    Err(LoadError::UnknownFormat)
                } else {
                    Err(LoadError::Truncated)
                }
            },
        }
    }
    fn set_layout(&mut self, Ghost(layout): Ghost<Seq<Kind>>)
        requires
            old(self).inv(),
            old(self).read@.len() <= layout.len(),
            forall|fs: Seq<Field>| #[trigger] save_reads(old(self).data@, fs) ==> fs.len() >= layout.len()
                && forall|j: int| 0 <= j < layout.len() ==> kind(#[trigger] fs[j]) == layout[j],
        ensures
            final(self).data@ == old(self).data@,
            final(self).pos == old(self).pos,
            final(self).read@ == old(self).read@,
            final(self).layout@ == layout,
            final(self).inv(),
    {
        proof {
            reveal(Reader::inv);
        }
        self.layout = Ghost(layout);
        assert forall|fs: Seq<Field>| #[trigger] save_reads(self.data@, fs) implies self.candidate_ok(
            fs,
        ) by {
            assert(old(self).candidate_ok(fs));
        }
    }
}



/// Reads the CPU registers.
fn read_cpu(rd: &mut Reader) -> (r: Result<CpuState, LoadError>)
    requires
        old(rd).inv(),
        old(rd).expects_all(cpu_kinds()),
    ensures
        r matches Ok(v) ==> old(rd).advanced_by(*final(rd), v.fields()),
        r matches Err(e) ==> e == LoadError::Truncated && old(rd).none_left(),
        final(rd).data@ == old(rd).data@,
{
    let ghost start = rd.read@;
    let pc = match rd.word() {
        Ok(v) => v,
        Err(e) => return Err(e),
    };
    let sp = match rd.byte() {
        Ok(v) => v,
        Err(e) => return Err(e),
    };
    let a = match rd.byte() {
        Ok(v) => v,
        Err(e) => return Err(e),
    };
    let x = match rd.byte() {
        Ok(v) => v,
        Err(e) => return Err(e),
    };
    let y = match rd.byte() {
        Ok(v) => v,
        Err(e) => return Err(e),
    };
    let status = match rd.byte() {
        Ok(v) => v,
        Err(e) => return Err(e),
    };
    let cycles = match rd.long() {
        Ok(v) => v,
        Err(e) => return Err(e),
    };
    let interrupt = match rd.code() {
        Ok(v) => v,
        Err(e) => return Err(e),
    };
    let clock_cycles = match rd.long() {
        Ok(v) => v,
        Err(e) => return Err(e),
    };
    let v = CpuState { pc, sp, a, x, y, status, cycles, interrupt, clock_cycles };
    assert(rd.read@ =~= start + v.fields());
    Ok(v)
}

/// Reads the PPU registers and memories.
#[verifier::rlimit(40)]
fn read_ppu(rd: &mut Reader) -> (r: Result<PpuState, LoadError>)
    requires
        old(rd).inv(),
        old(rd).expects_all(ppu_kinds()),
    ensures
        r matches Ok(v) ==> old(rd).advanced_by(*final(rd), v.fields()),
        r matches Err(e) ==> e == LoadError::Truncated && old(rd).none_left(),
        final(rd).data@ == old(rd).data@,
{
    let ghost start = rd.read@;
    let ctrl = match rd.byte() {
        Ok(v) => v,
        Err(e) => return Err(e),
    };
    let mask = match rd.byte() {
        Ok(v) => v,
        Err(e) => return Err(e),
    };
    let status = match rd.byte() {
        Ok(v) => v,
        Err(e) => return Err(e),
    };
    let dot = match rd.word() {
        Ok(v) => v,
        Err(e) => return Err(e),
    };
    let scanline = match rd.word() {
        Ok(v) => v,
        Err(e) => return Err(e),
    };
    let frame = match rd.long() {
        Ok(v) => v,
        Err(e) => return Err(e),
    };
    let clock_cycles = match rd.long() {
        Ok(v) => v,
        Err(e) => return Err(e),
    };
    let cur_address = match rd.word() {
        Ok(v) => v,
        Err(e) => return Err(e),
    };
    let tmp_address = match rd.word() {
        Ok(v) => v,
        Err(e) => return Err(e),
    };
    let scroll_x_fine = match rd.byte() {
        Ok(v) => v,
        Err(e) => return Err(e),
    };
    let write_latch = match rd.flag() {
        Ok(v) => v,
        Err(e) => return Err(e),
    };
    let read_buffer = match rd.byte() {
        Ok(v) => v,
        Err(e) => return Err(e),
    };
    let oam_address = match rd.byte() {
        Ok(v) => v,
        Err(e) => return Err(e),
    };
    let nametables = match rd.block() {
        Ok(v) => v,
        Err(e) => return Err(e),
    };
    let palettes = match rd.block() {
        Ok(v) => v,
        Err(e) => return Err(e),
    };
    let oam = match rd.block() {
        Ok(v) => v,
        Err(e) => return Err(e),
    };
    let v = PpuState {
        ctrl,
        mask,
        status,
        dot,
        scanline,
        frame,
        clock_cycles,
        cur_address,
        tmp_address,
        scroll_x_fine,
        write_latch,
        read_buffer,
        oam_address,
        nametables,
        palettes,
        oam,
    };
    assert(rd.read@ =~= start + v.fields());
    Ok(v)
}

/// Reads the DMC channel state.
fn read_dmc_state(rd: &mut Reader) -> (r: Result<DmcState, LoadError>)
    requires
        old(rd).inv(),
        old(rd).expects_all(dmc_state_kinds()),
    ensures
        r matches Ok(v) ==> old(rd).advanced_by(*final(rd), v.fields()),
        r matches Err(e) ==> e == LoadError::Truncated && old(rd).none_left(),
        final(rd).data@ == old(rd).data@,
{
    let ghost start = rd.read@;
    let timer = match rd.word() {
        Ok(v) => v,
        Err(e) => return Err(e),
    };
    let output = match rd.byte() {
        Ok(v) => v,
        Err(e) => return Err(e),
    };
    let sample_address = match rd.word() {
        Ok(v) => v,
        Err(e) => return Err(e),
    };
    let sample_length = match rd.word() {
        Ok(v) => v,
        Err(e) => return Err(e),
    };
    let current_address = match rd.word() {
        Ok(v) => v,
        Err(e) => return Err(e),
    };
    let bytes_remaining = match rd.word() {
        Ok(v) => v,
        Err(e) => return Err(e),
    };
    let sample_buffer = match rd.buffered() {
        Ok(v) => v,
        Err(e) => return Err(e),
    };
    let shift_register = match rd.byte() {
        Ok(v) => v,
        Err(e) => return Err(e),
    };
    let bits_remaining = match rd.byte() {
        Ok(v) => v,
        Err(e) => return Err(e),
    };
    let silence = match rd.flag() {
        Ok(v) => v,
        Err(e) => return Err(e),
    };
    let irq_flag = match rd.flag() {
        Ok(v) => v,
        Err(e) => return Err(e),
    };
    let irq_pending = match rd.flag() {
        Ok(v) => v,
        Err(e) => return Err(e),
    };
    let v = DmcState {
        timer,
        output,
        sample_address,
        sample_length,
        current_address,
        bytes_remaining,
        sample_buffer,
        shift_register,
        bits_remaining,
        silence,
        irq_flag,
        irq_pending,
    };
    assert(rd.read@ =~= start + v.fields());
    Ok(v)
}

/// Reads an in-flight OAM DMA.
fn read_dma(rd: &mut Reader) -> (r: Result<Dma, LoadError>)
    requires
        old(rd).inv(),
        old(rd).expects_all(dma_state_kinds()),
    ensures
        r matches Ok(v) ==> old(rd).advanced_by(*final(rd), dma_state_fields(v)),
        r matches Err(e) ==> e == LoadError::Truncated && old(rd).none_left(),
        final(rd).data@ == old(rd).data@,
{
    let ghost start = rd.read@;
    let page = match rd.byte() {
        Ok(v) => v,
        Err(e) => return Err(e),
    };
    let wait = match rd.flag() {
        Ok(v) => v,
        Err(e) => return Err(e),
    };
    let count = match rd.byte() {
        Ok(v) => v,
        Err(e) => return Err(e),
    };
    let read_buffer = match rd.byte() {
        Ok(v) => v,
        Err(e) => return Err(e),
    };
    let v = Dma { page, wait, count, read_buffer };
    assert(rd.read@ =~= start + dma_state_fields(v));
    Ok(v)
}


/// Reads the whole APU: status, frame counter and the five channel records.
fn read_apu(rd: &mut Reader) -> (r: Result<ApuState, LoadError>)
    requires
        old(rd).inv(),
        old(rd).expects_all(apu_state_kinds()),
    ensures
        r matches Ok(v) ==> old(rd).advanced_by(*final(rd), v.fields()),
        r matches Err(e) ==> e == LoadError::Truncated && old(rd).none_left(),
        final(rd).data@ == old(rd).data@,
{
    let ghost start = rd.read@;
    let status = match rd.byte() {
        Ok(v) => v,
        Err(e) => return Err(e),
    };
    let five_step = match rd.flag() {
        Ok(v) => v,
        Err(e) => return Err(e),
    };
    let irq_inhibit = match rd.flag() {
        Ok(v) => v,
        Err(e) => return Err(e),
    };
    let frame = match rd.quad() {
        Ok(v) => v,
        Err(e) => return Err(e),
    };
    let square_1 = match rd.pulse() {
        Ok(v) => v,
        Err(e) => return Err(e),
    };
    let square_2 = match rd.pulse() {
        Ok(v) => v,
        Err(e) => return Err(e),
    };
    let triangle = match rd.triangle() {
        Ok(v) => v,
        Err(e) => return Err(e),
    };
    let noise = match rd.noise() {
        Ok(v) => v,
        Err(e) => return Err(e),
    };
    let dmc = match rd.dmc() {
        Ok(v) => v,
        Err(e) => return Err(e),
    };
    let mode = if five_step {
        FrameCounterMode::FiveStep
    } else {
        FrameCounterMode::FourStep
    };
    let v = ApuState { status, mode, irq_inhibit, frame, square_1, square_2, triangle, noise, dmc };
    assert(rd.read@ =~= start + v.fields());
    Ok(v)
}

/// When no version field reads at the start, the first eight bytes (if there
/// are eight) are no format tag.
proof fn lemma_no_format_tag(d: Seq<u8>)
    requires
        no_field_at(d, 0, Kind::Version),
    ensures
        d.len() >= 8 ==> d.subrange(0, 8) != magic(1) && d.subrange(0, 8) != magic(2)
            && d.subrange(0, 8) != magic(3),
{
    assert(!field_at(d, 0, Field::Version(1)));
    assert(!field_at(d, 0, Field::Version(2)));
    assert(!field_at(d, 0, Field::Version(3)));
}

/// Positions of the fields in the layout of a save.
proof fn lemma_layout_parts(v: u8, with_dma: bool)
    ensures
        front_layout(v)[0] == Kind::Version,
        front_layout(v).subrange(1, 10) == cpu_kinds(),
        front_layout(v)[10] == Kind::Byte,
        front_layout(v)[11] == Kind::Quad,
        front_layout(v)[12] == Kind::Block,
        front_layout(v).subrange(13, 29) == ppu_kinds(),
        front_layout(v)[29] == Kind::Long,
        front_layout(v).subrange(30, 30 + apu_kinds(v).len() as int) == apu_kinds(v),
        apu_kinds(v).len() == if v == 3 { 9int } else if v == 2 { 12int } else { 0int },
        ({
            let c = 30 + apu_kinds(v).len() as int;
            &&& front_layout(v).len() == c + 3
            &&& front_layout(v)[c] == Kind::Byte
            &&& front_layout(v)[c + 1] == Kind::Byte
            &&& front_layout(v)[c + 2] == Kind::Present
            &&& full_layout(v, with_dma).subrange(0, c + 3) == front_layout(v)
            &&& with_dma ==> full_layout(v, with_dma).subrange(c + 3, c + 7) == dma_state_kinds()
            &&& ({
                let t = if with_dma { c + 7 } else { c + 3 };
                &&& full_layout(v, with_dma).len() == t + 3
                &&& full_layout(v, with_dma)[t] == Kind::Block
                &&& full_layout(v, with_dma)[t + 1] == Kind::Block
                &&& full_layout(v, with_dma)[t + 2] == Kind::Block
            })
        }),
{
    let front = front_layout(v);
    let full = full_layout(v, with_dma);
    let c = 30 + apu_kinds(v).len() as int;
    assert(front.subrange(1, 10) =~= cpu_kinds());
    assert(front.subrange(13, 29) =~= ppu_kinds());
    assert(front.subrange(30, c) =~= apu_kinds(v));
    assert(full.subrange(0, c + 3) =~= front);
    if with_dma {
        assert(full.subrange(c + 3, c + 7) =~= dma_state_kinds());
    }
}

/// Reads the channel section of a save of version `v`.
fn read_apu_section(rd: &mut Reader, v: u8) -> (r: Result<ApuSave, LoadError>)
    requires
        old(rd).inv(),
        known_version(v),
        old(rd).expects_all(apu_kinds(v)),
    ensures
        r matches Ok(a) ==> a.version() == v && old(rd).advanced_by(*final(rd), apu_fields(a)),
        r matches Err(e) ==> e == LoadError::Truncated && old(rd).none_left(),
        final(rd).data@ == old(rd).data@,
{
    if v == 3 {
        match read_apu(rd) {
            Ok(a) => Ok(ApuSave::Full(a)),
            Err(e) => Err(e),
        }
    } else if v == 2 {
        match read_dmc_state(rd) {
            Ok(m) => Ok(ApuSave::DmcOnly(m)),
            Err(e) => Err(e),
        }
    } else {
        assert(rd.read@ + apu_fields(ApuSave::Legacy) =~= rd.read@);
        Ok(ApuSave::Legacy)
    }
}

/// Reads every field of a save, in order.
#[verifier::rlimit(30)]
fn decode_fields(rd: &mut Reader) -> (r: Result<SaveState, LoadError>)
    requires
        old(rd).inv(),
        old(rd).pos == 0,
        old(rd).read@ == Seq::<Field>::empty(),
        old(rd).layout@ == seq![Kind::Version],
    ensures
        final(rd).data@ == old(rd).data@,
        r matches Ok(s) ==> final(rd).inv() && final(rd).read@ == s.fields()
            && final(rd).layout@ == full_layout(s.apu.version(), s.dma is Some),
        r is Err ==> old(rd).none_left(),
        (r matches Err(e) && e == LoadError::UnknownFormat) <==> (old(rd).data@.len() >= 8
            && old(rd).data@.subrange(0, 8) != magic(1) && old(rd).data@.subrange(0, 8) != magic(2)
            && old(rd).data@.subrange(0, 8) != magic(3)),
{
    let ghost d = rd.data@;
    let version = match rd.version() {
        Ok(v) => v,
        Err(e) => {
            proof {
                lemma_no_format_tag(d);
            }
            return Err(e);
        },
    };
    proof {
        assert(field_at(d, 0, Field::Version(version))) by {
            reveal(Reader::inv);
        }
        assert(known_version(version));
        assert(d.subrange(0, 8) == magic(version));
        lemma_layout_parts(version, false);
        assert forall|fs: Seq<Field>| #[trigger] save_reads(d, fs) implies fs.len() >= front_layout(
            version,
        ).len() && forall|j: int|
            0 <= j < front_layout(version).len() ==> kind(#[trigger] fs[j]) == front_layout(
                version,
            )[j] by {
            let t = choose|t: SaveState| #[trigger] t.fields() == fs && fields_at(d, 0, fs);
            reveal(Reader::inv);
            assert(rd.candidate_ok(fs));
            assert(fs[0] == fs.take(1)[0]);
            lemma_layout(t);
            lemma_front_layout(t);
        }
    }
    rd.set_layout(Ghost(front_layout(version)));
    let cpu = match read_cpu(rd) {
        Ok(v) => v,
        Err(e) => return Err(e),
    };
    let cpu_divider = match rd.byte() {
        Ok(v) => v,
        Err(e) => return Err(e),
    };
    let sample_accumulator = match rd.quad() {
        Ok(v) => v,
        Err(e) => return Err(e),
    };
    let wram = match rd.block() {
        Ok(v) => v,
        Err(e) => return Err(e),
    };
    let ppu = match read_ppu(rd) {
        Ok(v) => v,
        Err(e) => return Err(e),
    };
    let apu_cycles = match rd.long() {
        Ok(v) => v,
        Err(e) => return Err(e),
    };
    let apu = match read_apu_section(rd, version) {
        Ok(v) => v,
        Err(e) => return Err(e),
    };
    let controller_1 = match rd.byte() {
        Ok(v) => v,
        Err(e) => return Err(e),
    };
    let controller_2 = match rd.byte() {
        Ok(v) => v,
        Err(e) => return Err(e),
    };
    let has_dma = match rd.present() {
        Ok(v) => v,
        Err(e) => return Err(e),
    };
    proof {
        lemma_layout_parts(version, has_dma);
        let n = front_layout(version).len() - 1;
        assert forall|fs: Seq<Field>| #[trigger] save_reads(d, fs) implies fs.len() >= full_layout(
            version,
            has_dma,
        ).len() && forall|j: int|
            0 <= j < full_layout(version, has_dma).len() ==> kind(#[trigger] fs[j])
                == full_layout(version, has_dma)[j] by {
            let t = choose|t: SaveState| #[trigger] t.fields() == fs && fields_at(d, 0, fs);
            reveal(Reader::inv);
            assert(rd.candidate_ok(fs));
            assert(fs[0] == fs.take(1)[0]);
            assert(fs[n] == fs.take(n + 1)[n]);
            lemma_layout(t);
            lemma_full_layout(t);
        }
    }
    rd.set_layout(Ghost(full_layout(version, has_dma)));
    let dma = if has_dma {
        match read_dma(rd) {
            Ok(v) => Some(v),
            Err(e) => return Err(e),
        }
    } else {
        None
    };
    let prg_ram = match rd.block() {
        Ok(v) => v,
        Err(e) => return Err(e),
    };
    let chr = match rd.block() {
        Ok(v) => v,
        Err(e) => return Err(e),
    };
    let mapper_state = match rd.block() {
        Ok(v) => v,
        Err(e) => return Err(e),
    };
    let s = SaveState {
        cpu,
        cpu_divider,
        sample_accumulator,
        wram,
        ppu,
        apu_cycles,
        apu,
        controller_1,
        controller_2,
        dma,
        prg_ram,
        chr,
        mapper_state,
    };
    assert(rd.read@ =~= s.fields());
    Ok(s)
}

/// Decodes a save of any of the three format versions.
///
/// `Ok` carries the one state whose fields the data reads as; the data may
/// run on past the last field. `UnknownFormat` means the data does not start
/// with a format tag; `Truncated` that it ends too early.
pub fn decode(data: &[u8]) -> (r: Result<SaveState, LoadError>)
    ensures
        r matches Ok(s) ==> fields_at(data@, 0, s.fields()) && forall|t: SaveState|
            #[trigger] fields_at(data@, 0, t.fields()) ==> t.fields() == s.fields(),
        r is Err ==> forall|t: SaveState| !#[trigger] fields_at(data@, 0, t.fields()),
        (r matches Err(e) && e == LoadError::UnknownFormat) <==> (data@.len() >= 8 && data@.subrange(
            0,
            8,
        ) != magic(1) && data@.subrange(0, 8) != magic(2) && data@.subrange(0, 8) != magic(3)),
{
    let ghost first = seq![Kind::Version];
    let mut rd = Reader { data, pos: 0, read: Ghost(Seq::<Field>::empty()), layout: Ghost(first) };
    proof {
        assert forall|fs: Seq<Field>| #[trigger] save_reads(data@, fs) implies rd.candidate_ok(
            fs,
        ) by {
            let t = choose|t: SaveState| #[trigger] t.fields() == fs && fields_at(data@, 0, fs);
            lemma_layout(t);
            assert(fs.take(0) =~= Seq::<Field>::empty());
        }
        assert(rd.inv()) by {
            reveal(Reader::inv);
        }
    }
    let r = decode_fields(&mut rd);
    proof {
        match r {
            Ok(ref s) => {
                assert(fields_at(data@, 0, s.fields())) by {
                    reveal(Reader::inv);
                }
                lemma_layout(*s);
                assert forall|t: SaveState| #[trigger] fields_at(data@, 0, t.fields()) implies t.fields()
                    == s.fields() by {
                    let fs = t.fields();
                    assert(save_reads(data@, fs));
                    reveal(Reader::inv);
            assert(rd.candidate_ok(fs));
                    lemma_layout(t);
                    let n = front_layout(s.apu.version()).len() - 1;
                    assert(fs[0] == fs.take(1)[0]);
                    assert(fs[n] == fs.take(n + 1)[n]);
                    assert(fs =~= fs.take(s.fields().len() as int));
                }
            },
            Err(_) => {
                assert forall|t: SaveState| !#[trigger] fields_at(data@, 0, t.fields()) by {
                    if fields_at(data@, 0, t.fields()) {
                        assert(save_reads(data@, t.fields()));
                    }
                }
            },
        }
    }
    r
}


// ---------------------------------------------------------------------------
// Encoding.
// ---------------------------------------------------------------------------

/// Output bytes together with the fields they encode.
struct Writer {
    out: Vec<u8>,
    written: Ghost<Seq<Field>>,
}

impl Writer {
    #[verifier::opaque]
    spec fn inv(&self) -> bool {
        self.out@ == fields_bytes(self.written@)
    }

    fn byte(&mut self, v: u8)
        requires
            old(self).inv(),
        ensures
            final(self).inv(),
            final(self).written@ == old(self).written@.push(Field::Byte(v)),
    {
        proof {
            reveal(Writer::inv);
            lemma_fields_push(self.out@, 0, self.written@, Field::Byte(v));
        }
        push_byte(&mut self.out, v);
        self.written = Ghost(self.written@.push(Field::Byte(v)));
    }

    fn flag(&mut self, v: bool)
        requires
            old(self).inv(),
        ensures
            final(self).inv(),
            final(self).written@ == old(self).written@.push(Field::Flag(v)),
    {
        proof {
            reveal(Writer::inv);
            lemma_fields_push(self.out@, 0, self.written@, Field::Flag(v));
        }
        push_flag(&mut self.out, v);
        self.written = Ghost(self.written@.push(Field::Flag(v)));
    }

    fn present(&mut self, v: bool)
        requires
            old(self).inv(),
        ensures
            final(self).inv(),
            final(self).written@ == old(self).written@.push(Field::Present(v)),
    {
        proof {
            reveal(Writer::inv);
            lemma_fields_push(self.out@, 0, self.written@, Field::Present(v));
        }
        push_flag(&mut self.out, v);
        self.written = Ghost(self.written@.push(Field::Present(v)));
    }

    fn code(&mut self, v: Option<Interrupt>)
        requires
            old(self).inv(),
        ensures
            final(self).inv(),
            final(self).written@ == old(self).written@.push(Field::Code(v)),
    {
        proof {
            reveal(Writer::inv);
            lemma_fields_push(self.out@, 0, self.written@, Field::Code(v));
        }
        push_code(&mut self.out, v);
        self.written = Ghost(self.written@.push(Field::Code(v)));
    }

    fn buffered(&mut self, v: Option<u8>)
        requires
            old(self).inv(),
        ensures
            final(self).inv(),
            final(self).written@ == old(self).written@.push(Field::Buffered(v)),
    {
        proof {
            reveal(Writer::inv);
            lemma_fields_push(self.out@, 0, self.written@, Field::Buffered(v));
        }
        push_buffered(&mut self.out, v);
        self.written = Ghost(self.written@.push(Field::Buffered(v)));
    }

    fn word(&mut self, v: u16)
        requires
            old(self).inv(),
        ensures
            final(self).inv(),
            final(self).written@ == old(self).written@.push(Field::Word(v)),
    {
        proof {
            reveal(Writer::inv);
            lemma_fields_push(self.out@, 0, self.written@, Field::Word(v));
        }
        push_word(&mut self.out, v);
        self.written = Ghost(self.written@.push(Field::Word(v)));
    }

    fn pulse(&mut self, v: &Pulse)
        requires
            old(self).inv(),
        ensures
            final(self).inv(),
            final(self).written@ == old(self).written@.push(Field::Pulse(*v)),
    {
        proof {
            reveal(Writer::inv);
            lemma_fields_push(self.out@, 0, self.written@, Field::Pulse(*v));
        }
        push_pulse(&mut self.out, v);
        self.written = Ghost(self.written@.push(Field::Pulse(*v)));
    }

    fn triangle(&mut self, v: &Triangle)
        requires
            old(self).inv(),
        ensures
            final(self).inv(),
            final(self).written@ == old(self).written@.push(Field::Triangle(*v)),
    {
        proof {
            reveal(Writer::inv);
            lemma_fields_push(self.out@, 0, self.written@, Field::Triangle(*v));
        }
        push_triangle(&mut self.out, v);
        self.written = Ghost(self.written@.push(Field::Triangle(*v)));
    }

    fn noise(&mut self, v: &Noise)
        requires
            old(self).inv(),
        ensures
            final(self).inv(),
            final(self).written@ == old(self).written@.push(Field::Noise(*v)),
    {
        proof {
            reveal(Writer::inv);
            lemma_fields_push(self.out@, 0, self.written@, Field::Noise(*v));
        }
        push_noise(&mut self.out, v);
        self.written = Ghost(self.written@.push(Field::Noise(*v)));
    }

    fn dmc(&mut self, v: &Dmc)
        requires
            old(self).inv(),
        ensures
            final(self).inv(),
            final(self).written@ == old(self).written@.push(Field::Dmc(*v)),
    {
        proof {
            reveal(Writer::inv);
            lemma_fields_push(self.out@, 0, self.written@, Field::Dmc(*v));
        }
        push_dmc(&mut self.out, v);
        self.written = Ghost(self.written@.push(Field::Dmc(*v)));
    }

    fn long(&mut self, v: u32)
        requires
            old(self).inv(),
        ensures
            final(self).inv(),
            final(self).written@ == old(self).written@.push(Field::Long(v)),
    {
        proof {
            reveal(Writer::inv);
            lemma_fields_push(self.out@, 0, self.written@, Field::Long(v));
        }
        push_long(&mut self.out, v);
        self.written = Ghost(self.written@.push(Field::Long(v)));
    }

    fn quad(&mut self, v: u64)
        requires
            old(self).inv(),
        ensures
            final(self).inv(),
            final(self).written@ == old(self).written@.push(Field::Quad(v)),
    {
        proof {
            reveal(Writer::inv);
            lemma_fields_push(self.out@, 0, self.written@, Field::Quad(v));
        }
        push_quad(&mut self.out, v);
        self.written = Ghost(self.written@.push(Field::Quad(v)));
    }

    fn block(&mut self, v: &Vec<u8>)
        requires
            old(self).inv(),
            v@.len() <= u32::MAX,
        ensures
            final(self).inv(),
            final(self).written@ == old(self).written@.push(Field::Block(v@)),
    {
        proof {
            reveal(Writer::inv);
            lemma_fields_push(self.out@, 0, self.written@, Field::Block(v@));
        }
        push_block(&mut self.out, v);
        self.written = Ghost(self.written@.push(Field::Block(v@)));
    }

    fn version(&mut self, v: u8)
        requires
            old(self).inv(),
            known_version(v),
        ensures
            final(self).inv(),
            final(self).written@ == old(self).written@.push(Field::Version(v)),
    {
        proof {
            reveal(Writer::inv);
            lemma_fields_push(self.out@, 0, self.written@, Field::Version(v));
        }
        push_version(&mut self.out, v);
        self.written = Ghost(self.written@.push(Field::Version(v)));
    }
}

fn write_cpu(w: &mut Writer, c: &CpuState)
    requires
        old(w).inv(),
    ensures
        final(w).inv(),
        final(w).written@ == old(w).written@ + c.fields(),
{
    let ghost start = w.written@;
    w.word(c.pc);
    w.byte(c.sp);
    w.byte(c.a);
    w.byte(c.x);
    w.byte(c.y);
    w.byte(c.status);
    w.long(c.cycles);
    w.code(c.interrupt);
    w.long(c.clock_cycles);
    assert(w.written@ =~= start + c.fields());
}

fn write_ppu(w: &mut Writer, p: &PpuState)
    requires
        old(w).inv(),
        p.nametables@.len() <= u32::MAX,
        p.palettes@.len() <= u32::MAX,
        p.oam@.len() <= u32::MAX,
    ensures
        final(w).inv(),
        final(w).written@ == old(w).written@ + p.fields(),
{
    let ghost start = w.written@;
    w.byte(p.ctrl);
    w.byte(p.mask);
    w.byte(p.status);
    w.word(p.dot);
    w.word(p.scanline);
    w.long(p.frame);
    w.long(p.clock_cycles);
    w.word(p.cur_address);
    w.word(p.tmp_address);
    w.byte(p.scroll_x_fine);
    w.flag(p.write_latch);
    w.byte(p.read_buffer);
    w.byte(p.oam_address);
    w.block(&p.nametables);
    w.block(&p.palettes);
    w.block(&p.oam);
    assert(w.written@ =~= start + p.fields());
}

fn write_dmc_state(w: &mut Writer, m: &DmcState)
    requires
        old(w).inv(),
    ensures
        final(w).inv(),
        final(w).written@ == old(w).written@ + m.fields(),
{
    let ghost start = w.written@;
    w.word(m.timer);
    w.byte(m.output);
    w.word(m.sample_address);
    w.word(m.sample_length);
    w.word(m.current_address);
    w.word(m.bytes_remaining);
    w.buffered(m.sample_buffer);
    w.byte(m.shift_register);
    w.byte(m.bits_remaining);
    w.flag(m.silence);
    w.flag(m.irq_flag);
    w.flag(m.irq_pending);
    assert(w.written@ =~= start + m.fields());
}

fn write_dma(w: &mut Writer, d: &Dma)
    requires
        old(w).inv(),
    ensures
        final(w).inv(),
        final(w).written@ == old(w).written@ + dma_state_fields(*d),
{
    let ghost start = w.written@;
    w.byte(d.page);
    w.flag(d.wait);
    w.byte(d.count);
    w.byte(d.read_buffer);
    assert(w.written@ =~= start + dma_state_fields(*d));
}

fn write_apu(w: &mut Writer, a: &ApuState)
    requires
        old(w).inv(),
    ensures
        final(w).inv(),
        final(w).written@ == old(w).written@ + a.fields(),
{
    let ghost start = w.written@;
    w.byte(a.status);
    w.flag(
        match a.mode {
            FrameCounterMode::FiveStep => true,
            FrameCounterMode::FourStep => false,
        },
    );
    w.flag(a.irq_inhibit);
    w.quad(a.frame);
    w.pulse(&a.square_1);
    w.pulse(&a.square_2);
    w.triangle(&a.triangle);
    w.noise(&a.noise);
    w.dmc(&a.dmc);
    assert(w.written@ =~= start + a.fields());
}

fn write_apu_section(w: &mut Writer, a: &ApuSave)
    requires
        old(w).inv(),
    ensures
        final(w).inv(),
        final(w).written@ == old(w).written@ + apu_fields(*a),
{
    match a {
        ApuSave::Legacy => {
            assert(w.written@ + apu_fields(*a) =~= w.written@);
        },
        ApuSave::DmcOnly(m) => write_dmc_state(w, m),
        ApuSave::Full(s) => write_apu(w, s),
    }
}

fn format_version(a: &ApuSave) -> (r: u8)
    ensures
        r == a.version(),
{
    match a {
        ApuSave::Legacy => 1,
        ApuSave::DmcOnly(_) => 2,
        ApuSave::Full(_) => 3,
    }
}

/// Encodes a save: the format tag of the version its channel state needs
/// (`NESSAVE3` for the whole APU, `NESSAVE2` for the DMC only, `NESSAVE1`
/// for none), then every field.
#[verifier::rlimit(40)]
pub fn encode(s: &SaveState) -> (r: Vec<u8>)
    requires
        s.fits(),
    ensures
        r@ == fields_bytes(s.fields()),
{
    let mut w = Writer { out: Vec::new(), written: Ghost(Seq::<Field>::empty()) };
    proof {
        reveal(Writer::inv);
    }
    assert(w.out@ =~= fields_bytes(Seq::<Field>::empty()));
    w.version(format_version(&s.apu));
    write_cpu(&mut w, &s.cpu);
    w.byte(s.cpu_divider);
    w.quad(s.sample_accumulator);
    w.block(&s.wram);
    write_ppu(&mut w, &s.ppu);
    w.long(s.apu_cycles);
    write_apu_section(&mut w, &s.apu);
    w.byte(s.controller_1);
    w.byte(s.controller_2);
    w.present(s.dma.is_some());
    match &s.dma {
        Some(d) => write_dma(&mut w, d),
        None => {},
    }
    w.block(&s.prg_ram);
    w.block(&s.chr);
    w.block(&s.mapper_state);
    assert(w.written@ =~= s.fields());
    proof {
        reveal(Writer::inv);
    }
    w.out
}

/// What a save writes, a load reads back: the encoding of a state, followed
/// by anything, reads as that state's fields and as no other state's.
pub proof fn lemma_encoding_reads_back(s: SaveState, rest: Seq<u8>)
    requires
        s.fits(),
    ensures
        fields_at(fields_bytes(s.fields()) + rest, 0, s.fields()),
{
    lemma_layout(s);
    lemma_fields_read_back(Seq::empty(), s.fields(), rest);
    assert(Seq::<u8>::empty() + fields_bytes(s.fields()) + rest =~= fields_bytes(s.fields()) + rest);
}


/// The front kinds of every layout of one version agree.
proof fn lemma_front_of_full(v: u8, with_dma: bool, n: int)
    requires
        0 <= n <= front_layout(v).len(),
    ensures
        full_layout(v, with_dma).take(n) == front_layout(v).take(n),
{
    assert(full_layout(v, with_dma).take(n) =~= front_layout(v).take(n));
}

/// Two save states that the same data reads as have the same fields.
pub proof fn lemma_save_determined(d: Seq<u8>, s: SaveState, t: SaveState)
    requires
        fields_at(d, 0, s.fields()),
        fields_at(d, 0, t.fields()),
    ensures
        s.fields() == t.fields(),
{
    let fs = s.fields();
    let gs = t.fields();
    lemma_layout(s);
    lemma_layout(t);
    // The version field decides the channel section.
    lemma_fields_prefix(d, 0, fs, 0);
    lemma_fields_prefix(d, 0, gs, 0);
    assert(fields_len(fs.take(0)) == 0 && fields_len(gs.take(0)) == 0);
    lemma_field_determined(d, 0, fs[0], gs[0]);
    let v = s.apu.version();
    assert(t.apu.version() == v);
    // The fields before the DMA flag then agree, and so does the flag.
    let n = front_layout(v).len() - 1;
    lemma_kinds_take(fs, n);
    lemma_kinds_take(gs, n);
    lemma_front_of_full(v, s.dma is Some, n);
    lemma_front_of_full(v, t.dma is Some, n);
    lemma_fields_prefix(d, 0, fs, n);
    lemma_fields_prefix(d, 0, gs, n);
    lemma_fields_determined(d, 0, fs.take(n), gs.take(n));
    lemma_field_determined(d, fields_len(fs.take(n)) as int, fs[n], gs[n]);
    // With the same flags the layouts agree, and so do all fields.
    lemma_fields_determined(d, 0, fs, gs);
}

/// Loading what was saved gives back the saved state: the encoding of a
/// state, followed by anything, reads as that state, and any state it reads
/// as has the same fields.
pub proof fn lemma_load_after_save(s: SaveState, t: SaveState, rest: Seq<u8>)
    requires
        s.fits(),
        fields_at(fields_bytes(s.fields()) + rest, 0, t.fields()),
    ensures
        t.fields() == s.fields(),
{
    lemma_encoding_reads_back(s, rest);
    lemma_save_determined(fields_bytes(s.fields()) + rest, s, t);
}


impl DmcState {
    /// The saved part of `d`.
    pub open spec fn of(d: Dmc) -> DmcState {
        DmcState {
            timer: d.timer,
            output: d.output,
            sample_address: d.sample_address,
            sample_length: d.sample_length,
            current_address: d.current_address,
            bytes_remaining: d.bytes_remaining,
            sample_buffer: d.sample_buffer,
            shift_register: d.shift_register,
            bits_remaining: d.bits_remaining,
            silence: d.silence,
            irq_flag: d.irq_flag,
            irq_pending: d.irq_pending,
        }
    }

    /// `d` with its version 2 part replaced by `self`. Such a save holds no
    /// IRQ enable, loop flag or rate, so these keep the values `d` has.
    pub open spec fn restored_into(self, d: Dmc) -> Dmc {
        Dmc {
            timer: self.timer,
            output: self.output,
            sample_address: self.sample_address,
            sample_length: self.sample_length,
            current_address: self.current_address,
            bytes_remaining: self.bytes_remaining,
            sample_buffer: self.sample_buffer,
            shift_register: self.shift_register,
            bits_remaining: self.bits_remaining,
            silence: self.silence,
            irq_flag: self.irq_flag,
            irq_pending: self.irq_pending,
            ..d
        }
    }
}

impl Dmc {
    /// The DMC state that a version 2 save keeps.
    pub fn save_state(&self) -> (r: DmcState)
        ensures
            r == DmcState::of(*self),
    {
        DmcState {
            timer: self.timer,
            output: self.output,
            sample_address: self.sample_address,
            sample_length: self.sample_length,
            current_address: self.current_address,
            bytes_remaining: self.bytes_remaining,
            sample_buffer: self.sample_buffer,
            shift_register: self.shift_register,
            bits_remaining: self.bits_remaining,
            silence: self.silence,
            irq_flag: self.irq_flag,
            irq_pending: self.irq_pending,
        }
    }

    /// Restores the DMC state of a version 2 save; the IRQ enable, loop flag
    /// and rate, which that version does not hold, are left as they are.
    pub fn load_state(&mut self, s: &DmcState)
        ensures
            *final(self) == s.restored_into(*old(self)),
    {
        self.timer = s.timer;
        self.output = s.output;
        self.sample_address = s.sample_address;
        self.sample_length = s.sample_length;
        self.current_address = s.current_address;
        self.bytes_remaining = s.bytes_remaining;
        self.sample_buffer = s.sample_buffer;
        self.shift_register = s.shift_register;
        self.bits_remaining = s.bits_remaining;
        self.silence = s.silence;
        self.irq_flag = s.irq_flag;
        self.irq_pending = s.irq_pending;
    }
}

/// Restoring what was saved from a DMC leaves that DMC unchanged, and a
/// restored DMC saves what was restored.
pub proof fn lemma_dmc_restore_after_save(d: Dmc, s: DmcState)
    ensures
        DmcState::of(d).restored_into(d) == d,
        DmcState::of(s.restored_into(d)) == s,
{
}

// ---------------------------------------------------------------------------
// Saving and restoring the APU.
// ---------------------------------------------------------------------------

impl ApuState {
    /// The state of `a` that a version 3 save keeps.
    pub open spec fn of(a: Apu) -> ApuState {
        ApuState {
            status: a.status,
            mode: a.mode,
            irq_inhibit: a.irq_inhibit,
            frame: a.frame as u64,
            square_1: a.square_1,
            square_2: a.square_2,
            triangle: a.triangle,
            noise: a.noise,
            dmc: a.dmc,
        }
    }

    /// `a` with all of its saved state replaced by `self`; the cycle count
    /// and the mute flags stay.
    pub open spec fn restored_into(self, a: Apu) -> Apu {
        Apu {
            status: self.status,
            mode: self.mode,
            irq_inhibit: self.irq_inhibit,
            square_1: self.square_1,
            square_2: self.square_2,
            triangle: self.triangle,
            noise: self.noise,
            dmc: self.dmc,
            frame: self.frame as usize,
            ..a
        }
    }

    /// Every channel is well formed and the frame counter is inside the
    /// sequence of its mode.
    pub open spec fn wf(&self) -> bool {
        &&& self.square_1.wf()
        &&& self.square_2.wf()
        &&& self.triangle.wf()
        &&& self.noise.wf()
        &&& self.dmc.wf()
        &&& self.frame < frame_period(self.mode)
    }
}

impl ApuSave {
    /// The channel state can be run once restored.
    pub open spec fn wf(self) -> bool {
        match self {
            ApuSave::Legacy => true,
            ApuSave::DmcOnly(m) => m.output <= 127 && 1 <= m.bits_remaining <= 8,
            ApuSave::Full(a) => a.wf(),
        }
    }

    /// `a` after loading the cycle count `cycles` and this channel state. A
    /// legacy save holds no channel state: its DMC returns to the state it
    /// has at power-up, and the other channels stay.
    pub open spec fn loaded_into(self, cycles: u32, a: Apu) -> Apu {
        let a = Apu { cycles: cycles as usize, ..a };
        match self {
            ApuSave::Legacy => Apu { dmc: Dmc::initial(), ..a },
            ApuSave::DmcOnly(m) => Apu { dmc: m.restored_into(a.dmc), ..a },
            ApuSave::Full(s) => s.restored_into(a),
        }
    }

    /// Whether the channel state is well formed, so that the restored APU can
    /// run.
    pub fn is_valid(&self) -> (r: bool)
        ensures
            r == self.wf(),
    {
        match self {
            ApuSave::Legacy => true,
            ApuSave::DmcOnly(m) => m.output <= 127 && 1 <= m.bits_remaining && m.bits_remaining <= 8,
            ApuSave::Full(a) => apu_state_valid(a),
        }
    }
}

fn pulse_valid(p: &Pulse) -> (r: bool)
    ensures
        r == p.wf(),
{
    p.duty <= 3 && p.step <= 7 && p.timer_reload <= 0x7FF && p.volume <= 15 && p.volume_constant
        <= 15 && p.envelope_timer_reload <= 15 && p.sweep_reload <= 7 && p.sweep_shift <= 7
}

fn apu_state_valid(a: &ApuState) -> (r: bool)
    ensures
        r == a.wf(),
{
    let period: u64 = match a.mode {
        FrameCounterMode::FourStep => 14915,
        FrameCounterMode::FiveStep => 18641,
    };
    pulse_valid(&a.square_1) && pulse_valid(&a.square_2) && a.triangle.step <= 31
        && a.triangle.timer_reload <= 0x7FF && a.triangle.linear_reload <= 0x7F && 0 < a.noise.lfsr
        && a.noise.lfsr < 0x8000 && a.noise.volume <= 15 && a.noise.volume_constant <= 15
        && a.noise.envelope_timer_reload <= 15 && a.dmc.output <= 127 && 1 <= a.dmc.bits_remaining
        && a.dmc.bits_remaining <= 8 && a.frame < period
}

impl Apu {
    /// The whole APU state, as a version 3 save keeps it.
    pub fn save_state(&self) -> (r: ApuState)
        ensures
            r == ApuState::of(*self),
    {
        ApuState {
            status: self.status,
            mode: self.mode,
            irq_inhibit: self.irq_inhibit,
            frame: self.frame as u64,
            square_1: self.square_1,
            square_2: self.square_2,
            triangle: self.triangle,
            noise: self.noise,
            dmc: self.dmc,
        }
    }

    /// Restores the APU from a save: its cycle count, and the channel state
    /// its version holds. A restored APU is well formed when it was before
    /// and the channel state is.
    pub fn load_state(&mut self, cycles: u32, save: &ApuSave)
        ensures
            *final(self) == save.loaded_into(cycles, *old(self)),
            old(self).wf() && save.wf() ==> final(self).wf(),
    {
        self.cycles = cycles as usize;
        match save {
            ApuSave::Legacy => {
                self.dmc = Dmc::new();
            },
            ApuSave::DmcOnly(m) => {
                self.dmc.load_state(m);
            },
            ApuSave::Full(s) => {
                self.status = s.status;
                self.mode = s.mode;
                self.irq_inhibit = s.irq_inhibit;
                self.square_1 = s.square_1;
                self.square_2 = s.square_2;
                self.triangle = s.triangle;
                self.noise = s.noise;
                self.dmc = s.dmc;
                self.frame = s.frame as usize;
            },
        }
    }
}

/// Restoring the full save of an APU gives that APU back; only the mute
/// flags, which are not saved, are those of the APU restored into.
pub proof fn lemma_apu_restore_after_save(a: Apu, b: Apu)
    requires
        a.cycles <= u32::MAX,
    ensures
        ApuSave::Full(ApuState::of(a)).loaded_into(a.cycles as u32, b) == (Apu { muted: b.muted, ..a }),
{
}

proof fn lemma_dmc_state_fields_injective(a: DmcState, b: DmcState)
    requires
        a.fields() == b.fields(),
    ensures
        a == b,
{
    let x = a.fields();
    let y = b.fields();
    assert(x[0] == y[0] && x[1] == y[1] && x[2] == y[2] && x[3] == y[3] && x[4] == y[4]);
    assert(x[5] == y[5] && x[6] == y[6] && x[7] == y[7] && x[8] == y[8] && x[9] == y[9]);
    assert(x[10] == y[10] && x[11] == y[11]);
}

/// The fields of a whole-APU section determine it.
proof fn lemma_apu_state_fields_injective(a: ApuState, b: ApuState)
    requires
        a.fields() == b.fields(),
    ensures
        a == b,
{
    let x = a.fields();
    let y = b.fields();
    assert(x[0] == y[0] && x[1] == y[1] && x[2] == y[2] && x[3] == y[3] && x[4] == y[4]);
    assert(x[5] == y[5] && x[6] == y[6] && x[7] == y[7] && x[8] == y[8]);
}

/// Two saves with the same fields hold the same APU cycle count and channel
/// state.
pub proof fn lemma_fields_determine_apu(s: SaveState, t: SaveState)
    requires
        s.fields() == t.fields(),
    ensures
        s.apu_cycles == t.apu_cycles,
        s.apu == t.apu,
{
    lemma_layout(s);
    lemma_layout(t);
    assert(s.apu.version() == t.apu.version());
    let hs = s.head_fields();
    let ht = t.head_fields();
    let a = apu_fields(s.apu);
    let b = apu_fields(t.apu);
    lemma_apu_fields(s.apu);
    lemma_apu_fields(t.apu);
    let rs = s.controller_fields() + dma_fields(s.dma) + s.tail_fields();
    let rt = t.controller_fields() + dma_fields(t.dma) + t.tail_fields();
    assert(s.fields() =~= hs + a + rs);
    assert(t.fields() =~= ht + b + rt);
    lemma_add_cancel(hs + a, rs, ht + b, rt);
    lemma_add_cancel(hs, a, ht, b);
    assert(hs[29] == Field::Long(s.apu_cycles) && ht[29] == Field::Long(t.apu_cycles));
    match (s.apu, t.apu) {
        (ApuSave::Full(x), ApuSave::Full(y)) => {
            lemma_apu_state_fields_injective(x, y);
        },
        (ApuSave::DmcOnly(m), ApuSave::DmcOnly(n)) => {
            lemma_dmc_state_fields_injective(m, n);
        },
        _ => {},
    }
}

/// Saving an APU and loading the save restores that whole APU: when a save
/// holds `a`'s cycle count and full state, any state its encoding (followed
/// by anything) reads as, loaded into any APU `b`, gives `a` back with `b`'s
/// mute flags.
pub proof fn lemma_apu_load_after_save(s: SaveState, t: SaveState, rest: Seq<u8>, a: Apu, b: Apu)
    requires
        s.fits(),
        a.cycles <= u32::MAX,
        s.apu_cycles == a.cycles,
        s.apu == ApuSave::Full(ApuState::of(a)),
        fields_at(fields_bytes(s.fields()) + rest, 0, t.fields()),
    ensures
        t.apu.loaded_into(t.apu_cycles, b) == (Apu { muted: b.muted, ..a }),
{
    lemma_load_after_save(s, t, rest);
    lemma_fields_determine_apu(s, t);
    lemma_apu_restore_after_save(a, b);
}

} // verus!
