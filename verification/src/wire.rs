use vstd::prelude::*;
use crate::dmc::Dmc;
use crate::noise::Noise;
use crate::pulse::Pulse;
use crate::triangle::Triangle;

verus! {

// ---------------------------------------------------------------------------
// Save-state wire format.
//
// A save state is a sequence of fields, each stored little-endian:
//
// | field    | bytes | written as                | read back as              |
// |----------|-------|---------------------------|---------------------------|
// | Version  | 8     | `NESSAVE` + digit 1 to 3  | the same three strings    |
// | Byte     | 1     | the byte                  | the byte                  |
// | Flag     | 1     | 1 / 0                     | non-zero is true          |
// | Present  | 1     | 1 / 0                     | only 1 is true            |
// | Code     | 1     | 0 none, 1 NMI, 2 IRQ, 3 RESET | other codes are none  |
// | Buffered | 2     | value (0 if none), 1 / 0  | non-zero flag is some     |
// | Word     | 2     | u16                       | u16                       |
// | Long     | 4     | u32                       | u32                       |
// | Quad     | 8     | u64                       | u64                       |
// | Block    | 4 + n | u32 length n, then bytes  | the same                  |
// | Pulse    | 22    | a pulse channel record    | flags as above            |
// | Triangle | 11    | the triangle record       | flags as above            |
// | Noise    | 16    | the noise record          | flags as above            |
// | Dmc      | 22    | the DMC record            | flags as above            |
//
// A channel record stores every register of the channel, each encoded as the
// field of its type above (bytes, flags, u16 words, and the sample buffer as
// a Buffered pair); `pulse_bytes`, `triangle_bytes`, `noise_bytes` and
// `dmc_bytes` give the order. The DMC record starts with the twelve values of
// the version 2 DMC section and ends with IRQ enable, loop flag and rate.
// ---------------------------------------------------------------------------

#[derive(Clone, Copy, PartialEq, Eq, Structural, Debug)]
pub enum Interrupt {
    NMI,
    IRQ,
    RESET,
}

pub ghost enum Field {
    Version(u8),
    Byte(u8),
    Flag(bool),
    Present(bool),
    Code(Option<Interrupt>),
    Buffered(Option<u8>),
    Word(u16),
    Long(u32),
    Quad(u64),
    Block(Seq<u8>),
    Pulse(Pulse),
    Triangle(Triangle),
    Noise(Noise),
    Dmc(Dmc),
}

pub ghost enum Kind {
    Version,
    Byte,
    Flag,
    Present,
    Code,
    Buffered,
    Word,
    Long,
    Quad,
    Block,
    Pulse,
    Triangle,
    Noise,
    Dmc,
}

pub open spec fn kind(f: Field) -> Kind {
    match f {
        Field::Version(_) => Kind::Version,
        Field::Byte(_) => Kind::Byte,
        Field::Flag(_) => Kind::Flag,
        Field::Present(_) => Kind::Present,
        Field::Code(_) => Kind::Code,
        Field::Buffered(_) => Kind::Buffered,
        Field::Word(_) => Kind::Word,
        Field::Long(_) => Kind::Long,
        Field::Quad(_) => Kind::Quad,
        Field::Block(_) => Kind::Block,
        Field::Pulse(_) => Kind::Pulse,
        Field::Triangle(_) => Kind::Triangle,
        Field::Noise(_) => Kind::Noise,
        Field::Dmc(_) => Kind::Dmc,
    }
}

/// The format tag of version `v`: `NESSAVE3` (the whole APU), `NESSAVE2`
/// (the DMC channel only) or `NESSAVE1` (no APU channel state).
pub open spec fn magic(v: u8) -> Seq<u8> {
    seq![78u8, 69u8, 83u8, 83u8, 65u8, 86u8, 69u8, (48 + v) as u8]
}

/// The format versions that exist.
pub open spec fn known_version(v: u8) -> bool {
    1 <= v <= 3
}

pub open spec fn interrupt_code(i: Option<Interrupt>) -> u8 {
    match i {
        None => 0,
        Some(Interrupt::NMI) => 1,
        Some(Interrupt::IRQ) => 2,
        Some(Interrupt::RESET) => 3,
    }
}

pub open spec fn interrupt_from_code(code: u8) -> Option<Interrupt> {
    if code == 1 {
        Some(Interrupt::NMI)
    } else if code == 2 {
        Some(Interrupt::IRQ)
    } else if code == 3 {
        Some(Interrupt::RESET)
    } else {
        None
    }
}

pub open spec fn le2(v: u16) -> Seq<u8> {
    seq![(v % 256) as u8, (v / 256) as u8]
}

pub open spec fn le4(v: u32) -> Seq<u8> {
    seq![(v % 256) as u8, ((v / 0x100) % 256) as u8, ((v / 0x1_0000) % 256) as u8, (v / 0x100_0000) as u8]
}

pub open spec fn le8(v: u64) -> Seq<u8> {
    le4((v % 0x1_0000_0000) as u32) + le4((v / 0x1_0000_0000) as u32)
}

/// The little-endian value of two, four or eight bytes.
pub open spec fn value2(s: Seq<u8>) -> int {
    s[0] + 0x100 * s[1]
}

pub open spec fn value4(s: Seq<u8>) -> int {
    s[0] + 0x100 * s[1] + 0x1_0000 * s[2] + 0x100_0000 * s[3]
}

pub open spec fn value8(s: Seq<u8>) -> int {
    value4(s.subrange(0, 4)) + 0x1_0000_0000 * value4(s.subrange(4, 8))
}

/// The 22 bytes of a pulse record.
pub open spec fn pulse_bytes(p: Pulse) -> Seq<u8> {
    seq![
        p.id,
        p.duty,
        p.step,
        p.length,
        if p.length_enabled { 1u8 } else { 0u8 },
        (p.timer % 256) as u8,
        (p.timer / 256) as u8,
        (p.timer_reload % 256) as u8,
        (p.timer_reload / 256) as u8,
        p.volume,
        p.volume_constant,
        if p.envelope_start { 1u8 } else { 0u8 },
        p.envelope_timer,
        p.envelope_timer_reload,
        if p.envelope_loop { 1u8 } else { 0u8 },
        if p.envelope_enabled { 1u8 } else { 0u8 },
        p.sweep_timer,
        if p.sweep_negate { 1u8 } else { 0u8 },
        p.sweep_reload,
        p.sweep_shift,
        if p.sweep_enabled { 1u8 } else { 0u8 },
        if p.sweep_reload_flag { 1u8 } else { 0u8 },
    ]
}

/// The 22 bytes of `d` at `i` read back as the pulse record `p`; a flag
/// byte reads as true when it is not zero.
pub open spec fn pulse_at(d: Seq<u8>, i: int, p: Pulse) -> bool {
    &&& d[i + 0] == p.id
    &&& d[i + 1] == p.duty
    &&& d[i + 2] == p.step
    &&& d[i + 3] == p.length
    &&& (d[i + 4] != 0) == p.length_enabled
    &&& value2(d.subrange(i + 5, i + 7)) == p.timer
    &&& value2(d.subrange(i + 7, i + 9)) == p.timer_reload
    &&& d[i + 9] == p.volume
    &&& d[i + 10] == p.volume_constant
    &&& (d[i + 11] != 0) == p.envelope_start
    &&& d[i + 12] == p.envelope_timer
    &&& d[i + 13] == p.envelope_timer_reload
    &&& (d[i + 14] != 0) == p.envelope_loop
    &&& (d[i + 15] != 0) == p.envelope_enabled
    &&& d[i + 16] == p.sweep_timer
    &&& (d[i + 17] != 0) == p.sweep_negate
    &&& d[i + 18] == p.sweep_reload
    &&& d[i + 19] == p.sweep_shift
    &&& (d[i + 20] != 0) == p.sweep_enabled
    &&& (d[i + 21] != 0) == p.sweep_reload_flag
}

/// The 11 bytes of a triangle record.
pub open spec fn triangle_bytes(t: Triangle) -> Seq<u8> {
    seq![
        (t.timer % 256) as u8,
        (t.timer / 256) as u8,
        (t.timer_reload % 256) as u8,
        (t.timer_reload / 256) as u8,
        t.step,
        t.length,
        if t.length_enabled { 1u8 } else { 0u8 },
        t.linear_counter,
        t.linear_reload,
        if t.linear_reload_flag { 1u8 } else { 0u8 },
        if t.halt { 1u8 } else { 0u8 },
    ]
}

/// The 11 bytes of `d` at `i` read back as the triangle record `t`; a flag
/// byte reads as true when it is not zero.
pub open spec fn triangle_at(d: Seq<u8>, i: int, t: Triangle) -> bool {
    &&& value2(d.subrange(i + 0, i + 2)) == t.timer
    &&& value2(d.subrange(i + 2, i + 4)) == t.timer_reload
    &&& d[i + 4] == t.step
    &&& d[i + 5] == t.length
    &&& (d[i + 6] != 0) == t.length_enabled
    &&& d[i + 7] == t.linear_counter
    &&& d[i + 8] == t.linear_reload
    &&& (d[i + 9] != 0) == t.linear_reload_flag
    &&& (d[i + 10] != 0) == t.halt
}

/// The 16 bytes of a noise record.
pub open spec fn noise_bytes(n: Noise) -> Seq<u8> {
    seq![
        (n.lfsr % 256) as u8,
        (n.lfsr / 256) as u8,
        if n.mode { 1u8 } else { 0u8 },
        (n.timer % 256) as u8,
        (n.timer / 256) as u8,
        (n.timer_reload % 256) as u8,
        (n.timer_reload / 256) as u8,
        n.length,
        if n.length_enabled { 1u8 } else { 0u8 },
        n.volume,
        n.volume_constant,
        if n.envelope_start { 1u8 } else { 0u8 },
        n.envelope_timer,
        n.envelope_timer_reload,
        if n.envelope_loop { 1u8 } else { 0u8 },
        if n.envelope_enabled { 1u8 } else { 0u8 },
    ]
}

/// The 16 bytes of `d` at `i` read back as the noise record `n`; a flag
/// byte reads as true when it is not zero.
pub open spec fn noise_at(d: Seq<u8>, i: int, n: Noise) -> bool {
    &&& value2(d.subrange(i + 0, i + 2)) == n.lfsr
    &&& (d[i + 2] != 0) == n.mode
    &&& value2(d.subrange(i + 3, i + 5)) == n.timer
    &&& value2(d.subrange(i + 5, i + 7)) == n.timer_reload
    &&& d[i + 7] == n.length
    &&& (d[i + 8] != 0) == n.length_enabled
    &&& d[i + 9] == n.volume
    &&& d[i + 10] == n.volume_constant
    &&& (d[i + 11] != 0) == n.envelope_start
    &&& d[i + 12] == n.envelope_timer
    &&& d[i + 13] == n.envelope_timer_reload
    &&& (d[i + 14] != 0) == n.envelope_loop
    &&& (d[i + 15] != 0) == n.envelope_enabled
}

/// The 22 bytes of a dmc record.
pub open spec fn dmc_bytes(m: Dmc) -> Seq<u8> {
    seq![
        (m.timer % 256) as u8,
        (m.timer / 256) as u8,
        m.output,
        (m.sample_address % 256) as u8,
        (m.sample_address / 256) as u8,
        (m.sample_length % 256) as u8,
        (m.sample_length / 256) as u8,
        (m.current_address % 256) as u8,
        (m.current_address / 256) as u8,
        (m.bytes_remaining % 256) as u8,
        (m.bytes_remaining / 256) as u8,
        match m.sample_buffer {
            Some(x) => x,
            None => 0u8,
        },
        if m.sample_buffer is Some { 1u8 } else { 0u8 },
        m.shift_register,
        m.bits_remaining,
        if m.silence { 1u8 } else { 0u8 },
        if m.irq_flag { 1u8 } else { 0u8 },
        if m.irq_pending { 1u8 } else { 0u8 },
        if m.irq_enable { 1u8 } else { 0u8 },
        if m.loop_flag { 1u8 } else { 0u8 },
        (m.timer_reload % 256) as u8,
        (m.timer_reload / 256) as u8,
    ]
}

/// The 22 bytes of `d` at `i` read back as the dmc record `m`; a flag
/// byte reads as true when it is not zero.
pub open spec fn dmc_at(d: Seq<u8>, i: int, m: Dmc) -> bool {
    &&& value2(d.subrange(i + 0, i + 2)) == m.timer
    &&& d[i + 2] == m.output
    &&& value2(d.subrange(i + 3, i + 5)) == m.sample_address
    &&& value2(d.subrange(i + 5, i + 7)) == m.sample_length
    &&& value2(d.subrange(i + 7, i + 9)) == m.current_address
    &&& value2(d.subrange(i + 9, i + 11)) == m.bytes_remaining
    &&& (d[i + 12] != 0) == (m.sample_buffer is Some)
    &&& (m.sample_buffer matches Some(x) ==> d[i + 11] == x)
    &&& d[i + 13] == m.shift_register
    &&& d[i + 14] == m.bits_remaining
    &&& (d[i + 15] != 0) == m.silence
    &&& (d[i + 16] != 0) == m.irq_flag
    &&& (d[i + 17] != 0) == m.irq_pending
    &&& (d[i + 18] != 0) == m.irq_enable
    &&& (d[i + 19] != 0) == m.loop_flag
    &&& value2(d.subrange(i + 20, i + 22)) == m.timer_reload
}

pub open spec fn field_len(f: Field) -> nat {
    match f {
        Field::Version(_) => 8,
        Field::Byte(_) => 1,
        Field::Flag(_) => 1,
        Field::Present(_) => 1,
        Field::Code(_) => 1,
        Field::Buffered(_) => 2,
        Field::Word(_) => 2,
        Field::Long(_) => 4,
        Field::Quad(_) => 8,
        Field::Block(b) => 4 + b.len(),
        Field::Pulse(_) => 22,
        Field::Triangle(_) => 11,
        Field::Noise(_) => 16,
        Field::Dmc(_) => 22,
    }
}

/// The bytes that encode `f`.
pub open spec fn field_bytes(f: Field) -> Seq<u8> {
    match f {
        Field::Version(v) => magic(v),
        Field::Byte(b) => seq![b],
        Field::Flag(b) => seq![if b { 1u8 } else { 0u8 }],
        Field::Present(b) => seq![if b { 1u8 } else { 0u8 }],
        Field::Code(c) => seq![interrupt_code(c)],
        Field::Buffered(o) => seq![
            match o {
                Some(x) => x,
                None => 0u8,
            },
            if o is Some { 1u8 } else { 0u8 },
        ],
        Field::Word(w) => le2(w),
        Field::Long(w) => le4(w),
        Field::Quad(w) => le8(w),
        Field::Block(b) => le4(b.len() as u32) + b,
        Field::Pulse(p) => pulse_bytes(p),
        Field::Triangle(t) => triangle_bytes(t),
        Field::Noise(n) => noise_bytes(n),
        Field::Dmc(m) => dmc_bytes(m),
    }
}

/// The bytes of `d` starting at `i` read back as the field `f`.
pub open spec fn field_at(d: Seq<u8>, i: int, f: Field) -> bool {
    &&& 0 <= i
    &&& i + field_len(f) <= d.len()
    &&& match f {
        Field::Version(v) => known_version(v) && d.subrange(i, i + 8) == magic(v),
        Field::Byte(b) => d[i] == b,
        Field::Flag(b) => (d[i] != 0) == b,
        Field::Present(b) => (d[i] == 1) == b,
        Field::Code(c) => interrupt_from_code(d[i]) == c,
        Field::Buffered(o) => (d[i + 1] != 0) == (o is Some) && (o matches Some(x) ==> d[i] == x),
        Field::Word(w) => value2(d.subrange(i, i + 2)) == w,
        Field::Long(w) => value4(d.subrange(i, i + 4)) == w,
        Field::Quad(w) => value8(d.subrange(i, i + 8)) == w,
        Field::Block(b) => value4(d.subrange(i, i + 4)) == b.len() && d.subrange(
            i + 4,
            i + 4 + b.len(),
        ) == b,
        Field::Pulse(p) => pulse_at(d, i, p),
        Field::Triangle(t) => triangle_at(d, i, t),
        Field::Noise(n) => noise_at(d, i, n),
        Field::Dmc(m) => dmc_at(d, i, m),
    }
}

pub open spec fn fields_len(fs: Seq<Field>) -> nat
    decreases fs.len(),
{
    if fs.len() == 0 {
        0
    } else {
        fields_len(fs.drop_last()) + field_len(fs.last())
    }
}

pub open spec fn fields_bytes(fs: Seq<Field>) -> Seq<u8>
    decreases fs.len(),
{
    if fs.len() == 0 {
        seq![]
    } else {
        fields_bytes(fs.drop_last()) + field_bytes(fs.last())
    }
}

/// The bytes of `d` starting at `i` read back as the fields `fs`, one after
/// the other.
pub open spec fn fields_at(d: Seq<u8>, i: int, fs: Seq<Field>) -> bool
    decreases fs.len(),
{
    if fs.len() == 0 {
        0 <= i <= d.len()
    } else {
        fields_at(d, i, fs.drop_last()) && field_at(d, i + fields_len(fs.drop_last()), fs.last())
    }
}

/// No field of kind `k` can be read at position `i` of `d`.
pub open spec fn no_field_at(d: Seq<u8>, i: int, k: Kind) -> bool {
    forall|f: Field| kind(f) == k ==> !#[trigger] field_at(d, i, f)
}

/// A field is encodable when its block, if any, fits a 32-bit length, and
/// its version, if any, exists.
pub open spec fn field_fits(f: Field) -> bool {
    &&& f matches Field::Block(b) ==> b.len() <= u32::MAX
    &&& f matches Field::Version(v) ==> known_version(v)
}

// ---------------------------------------------------------------------------
// Readers: each decodes one field at position `i`, or reports that no field
// of its kind can be read there.
// ---------------------------------------------------------------------------

pub(crate) fn read_byte(d: &[u8], i: usize) -> (r: Option<u8>)
    ensures
        r matches Some(b) ==> field_at(d@, i as int, Field::Byte(b)),
        r is None ==> no_field_at(d@, i as int, Kind::Byte),
{
    if i < d.len() {
        Some(d[i])
    } else {
        None
    }
}

pub(crate) fn read_flag(d: &[u8], i: usize) -> (r: Option<bool>)
    ensures
        r matches Some(b) ==> field_at(d@, i as int, Field::Flag(b)),
        r is None ==> no_field_at(d@, i as int, Kind::Flag),
{
    if i < d.len() {
        Some(d[i] != 0)
    } else {
        None
    }
}

pub(crate) fn read_present(d: &[u8], i: usize) -> (r: Option<bool>)
    ensures
        r matches Some(b) ==> field_at(d@, i as int, Field::Present(b)),
        r is None ==> no_field_at(d@, i as int, Kind::Present),
{
    if i < d.len() {
        Some(d[i] == 1)
    } else {
        None
    }
}

pub(crate) fn read_code(d: &[u8], i: usize) -> (r: Option<Option<Interrupt>>)
    ensures
        r matches Some(c) ==> field_at(d@, i as int, Field::Code(c)),
        r is None ==> no_field_at(d@, i as int, Kind::Code),
{
    if i < d.len() {
        Some(
            match d[i] {
                1 => Some(Interrupt::NMI),
                2 => Some(Interrupt::IRQ),
                3 => Some(Interrupt::RESET),
                _ => None,
            },
        )
    } else {
        None
    }
}

pub(crate) fn read_buffered(d: &[u8], i: usize) -> (r: Option<Option<u8>>)
    ensures
        r matches Some(o) ==> field_at(d@, i as int, Field::Buffered(o)),
        r is None ==> no_field_at(d@, i as int, Kind::Buffered),
{
    if i < d.len() && d.len() - i >= 2 {
        let byte = d[i];
        let has = d[i + 1] != 0;
        Some(if has { Some(byte) } else { None })
    } else {
        None
    }
}

pub(crate) fn read_word(d: &[u8], i: usize) -> (r: Option<u16>)
    ensures
        r matches Some(w) ==> field_at(d@, i as int, Field::Word(w)),
        r is None ==> no_field_at(d@, i as int, Kind::Word),
{
    if i < d.len() && d.len() - i >= 2 {
        Some(d[i] as u16 + (d[i + 1] as u16) * 0x100)
    } else {
        None
    }
}

pub(crate) fn read_long(d: &[u8], i: usize) -> (r: Option<u32>)
    ensures
        r matches Some(w) ==> field_at(d@, i as int, Field::Long(w)),
        r is None ==> no_field_at(d@, i as int, Kind::Long),
        r is Some <==> i + 4 <= d@.len(),
{
    if i < d.len() && d.len() - i >= 4 {
        Some(
            d[i] as u32 + (d[i + 1] as u32) * 0x100 + (d[i + 2] as u32) * 0x1_0000 + (d[i + 3] as u32)
                * 0x100_0000,
        )
    } else {
        None
    }
}

pub(crate) fn read_quad(d: &[u8], i: usize) -> (r: Option<u64>)
    ensures
        r matches Some(w) ==> field_at(d@, i as int, Field::Quad(w)),
        r is None ==> no_field_at(d@, i as int, Kind::Quad),
{
    if i < d.len() && d.len() - i >= 8 {
        let lo = read_long(d, i);
        let hi = read_long(d, i + 4);
        match (lo, hi) {
            (Some(lo), Some(hi)) => {
                assert(d@.subrange(i as int, i + 8).subrange(0, 4) =~= d@.subrange(i as int, i + 4));
                assert(d@.subrange(i as int, i + 8).subrange(4, 8) =~= d@.subrange(
                    i + 4,
                    i + 8,
                ));
                Some(lo as u64 + (hi as u64) * 0x1_0000_0000)
            },
            _ => None,
        }
    } else {
        None
    }
}

pub(crate) fn read_block(d: &[u8], i: usize) -> (r: Option<Vec<u8>>)
    ensures
        r matches Some(b) ==> field_at(d@, i as int, Field::Block(b@)),
        r is None ==> no_field_at(d@, i as int, Kind::Block),
{
    match read_long(d, i) {
        Some(n) => {
            let n = n as usize;
            if d.len() - (i + 4) >= n {
                let mut out: Vec<u8> = Vec::with_capacity(n);
                let mut k: usize = 0;
                while k < n
                    invariant
                        k <= n,
                        i + 4 + n <= d.len(),
                        out@ == d@.subrange(i + 4, i + 4 + k),
                    decreases n - k,
                {
                    out.push(d[i + 4 + k]);
                    k += 1;
                    assert(out@ =~= d@.subrange(i + 4, i + 4 + k));
                }
                Some(out)
            } else {
                None
            }
        },
        None => None,
    }
}

pub(crate) fn read_pulse(d: &[u8], i: usize) -> (r: Option<Pulse>)
    ensures
        r matches Some(x) ==> field_at(d@, i as int, Field::Pulse(x)),
        r is None ==> no_field_at(d@, i as int, Kind::Pulse),
{
    if i < d.len() && d.len() - i >= 22 {
        Some(
            Pulse {
                id: d[i + 0],
                duty: d[i + 1],
                step: d[i + 2],
                length: d[i + 3],
                length_enabled: d[i + 4] != 0,
                timer: d[i + 5] as u16 + (d[i + 6] as u16) * 0x100,
                timer_reload: d[i + 7] as u16 + (d[i + 8] as u16) * 0x100,
                volume: d[i + 9],
                volume_constant: d[i + 10],
                envelope_start: d[i + 11] != 0,
                envelope_timer: d[i + 12],
                envelope_timer_reload: d[i + 13],
                envelope_loop: d[i + 14] != 0,
                envelope_enabled: d[i + 15] != 0,
                sweep_timer: d[i + 16],
                sweep_negate: d[i + 17] != 0,
                sweep_reload: d[i + 18],
                sweep_shift: d[i + 19],
                sweep_enabled: d[i + 20] != 0,
                sweep_reload_flag: d[i + 21] != 0,
            },
        )
    } else {
        None
    }
}

pub(crate) fn read_triangle(d: &[u8], i: usize) -> (r: Option<Triangle>)
    ensures
        r matches Some(x) ==> field_at(d@, i as int, Field::Triangle(x)),
        r is None ==> no_field_at(d@, i as int, Kind::Triangle),
{
    if i < d.len() && d.len() - i >= 11 {
        Some(
            Triangle {
                timer: d[i + 0] as u16 + (d[i + 1] as u16) * 0x100,
                timer_reload: d[i + 2] as u16 + (d[i + 3] as u16) * 0x100,
                step: d[i + 4],
                length: d[i + 5],
                length_enabled: d[i + 6] != 0,
                linear_counter: d[i + 7],
                linear_reload: d[i + 8],
                linear_reload_flag: d[i + 9] != 0,
                halt: d[i + 10] != 0,
            },
        )
    } else {
        None
    }
}

pub(crate) fn read_noise(d: &[u8], i: usize) -> (r: Option<Noise>)
    ensures
        r matches Some(x) ==> field_at(d@, i as int, Field::Noise(x)),
        r is None ==> no_field_at(d@, i as int, Kind::Noise),
{
    if i < d.len() && d.len() - i >= 16 {
        Some(
            Noise {
                lfsr: d[i + 0] as u16 + (d[i + 1] as u16) * 0x100,
                mode: d[i + 2] != 0,
                timer: d[i + 3] as u16 + (d[i + 4] as u16) * 0x100,
                timer_reload: d[i + 5] as u16 + (d[i + 6] as u16) * 0x100,
                length: d[i + 7],
                length_enabled: d[i + 8] != 0,
                volume: d[i + 9],
                volume_constant: d[i + 10],
                envelope_start: d[i + 11] != 0,
                envelope_timer: d[i + 12],
                envelope_timer_reload: d[i + 13],
                envelope_loop: d[i + 14] != 0,
                envelope_enabled: d[i + 15] != 0,
            },
        )
    } else {
        None
    }
}

pub(crate) fn read_dmc(d: &[u8], i: usize) -> (r: Option<Dmc>)
    ensures
        r matches Some(x) ==> field_at(d@, i as int, Field::Dmc(x)),
        r is None ==> no_field_at(d@, i as int, Kind::Dmc),
{
    if i < d.len() && d.len() - i >= 22 {
        Some(
            Dmc {
                timer: d[i + 0] as u16 + (d[i + 1] as u16) * 0x100,
                output: d[i + 2],
                sample_address: d[i + 3] as u16 + (d[i + 4] as u16) * 0x100,
                sample_length: d[i + 5] as u16 + (d[i + 6] as u16) * 0x100,
                current_address: d[i + 7] as u16 + (d[i + 8] as u16) * 0x100,
                bytes_remaining: d[i + 9] as u16 + (d[i + 10] as u16) * 0x100,
                sample_buffer: if d[i + 12] != 0 {
                Some(d[i + 11])
            } else {
                None
            },
                shift_register: d[i + 13],
                bits_remaining: d[i + 14],
                silence: d[i + 15] != 0,
                irq_flag: d[i + 16] != 0,
                irq_pending: d[i + 17] != 0,
                irq_enable: d[i + 18] != 0,
                loop_flag: d[i + 19] != 0,
                timer_reload: d[i + 20] as u16 + (d[i + 21] as u16) * 0x100,
            },
        )
    } else {
        None
    }
}

pub(crate) fn read_version(d: &[u8], i: usize) -> (r: Option<u8>)
    ensures
        r matches Some(v) ==> field_at(d@, i as int, Field::Version(v)),
        r is None ==> no_field_at(d@, i as int, Kind::Version),
{
    if i < d.len() && d.len() - i >= 8 && d[i] == 78 && d[i + 1] == 69 && d[i + 2] == 83 && d[i + 3]
        == 83 && d[i + 4] == 65 && d[i + 5] == 86 && d[i + 6] == 69 && 49 <= d[i + 7] && d[i + 7]
        <= 51 {
        let v = d[i + 7] - 48;
        assert(d@.subrange(i as int, i + 8) =~= magic(v));
        Some(v)
    } else {
        proof {
            assert forall|f: Field| kind(f) == Kind::Version implies !field_at(d@, i as int, f) by {
                if field_at(d@, i as int, f) {
                    let v = f->Version_0;
                    assert(d@.subrange(i as int, i + 8)[7] == magic(v)[7]);
                    assert(d@.subrange(i as int, i + 8)[0] == magic(v)[0]);
                    assert(d@.subrange(i as int, i + 8)[1] == magic(v)[1]);
                    assert(d@.subrange(i as int, i + 8)[2] == magic(v)[2]);
                    assert(d@.subrange(i as int, i + 8)[3] == magic(v)[3]);
                    assert(d@.subrange(i as int, i + 8)[4] == magic(v)[4]);
                    assert(d@.subrange(i as int, i + 8)[5] == magic(v)[5]);
                    assert(d@.subrange(i as int, i + 8)[6] == magic(v)[6]);
                }
            }
        }
        None
    }
}


// ---------------------------------------------------------------------------
// Writers: each appends the encoding of one field.
// ---------------------------------------------------------------------------

pub(crate) fn push_byte(out: &mut Vec<u8>, b: u8)
    ensures
        final(out)@ == old(out)@ + field_bytes(Field::Byte(b)),
{
    out.push(b);
    assert(final(out)@ =~= old(out)@ + field_bytes(Field::Byte(b)));
}

pub(crate) fn push_flag(out: &mut Vec<u8>, b: bool)
    ensures
        final(out)@ == old(out)@ + field_bytes(Field::Flag(b)),
        final(out)@ == old(out)@ + field_bytes(Field::Present(b)),
{
    out.push(if b { 1 } else { 0 });
    assert(final(out)@ =~= old(out)@ + field_bytes(Field::Flag(b)));
    assert(final(out)@ =~= old(out)@ + field_bytes(Field::Present(b)));
}

pub(crate) fn push_code(out: &mut Vec<u8>, c: Option<Interrupt>)
    ensures
        final(out)@ == old(out)@ + field_bytes(Field::Code(c)),
{
    out.push(
        match c {
            None => 0,
            Some(Interrupt::NMI) => 1,
            Some(Interrupt::IRQ) => 2,
            Some(Interrupt::RESET) => 3,
        },
    );
    assert(final(out)@ =~= old(out)@ + field_bytes(Field::Code(c)));
}

pub(crate) fn push_buffered(out: &mut Vec<u8>, o: Option<u8>)
    ensures
        final(out)@ == old(out)@ + field_bytes(Field::Buffered(o)),
{
    out.push(
        match o {
            Some(x) => x,
            None => 0,
        },
    );
    out.push(if o.is_some() { 1 } else { 0 });
    assert(final(out)@ =~= old(out)@ + field_bytes(Field::Buffered(o)));
}

pub(crate) fn push_word(out: &mut Vec<u8>, w: u16)
    ensures
        final(out)@ == old(out)@ + field_bytes(Field::Word(w)),
{
    out.push((w % 256) as u8);
    out.push((w / 256) as u8);
    assert(final(out)@ =~= old(out)@ + field_bytes(Field::Word(w)));
}

pub(crate) fn push_long(out: &mut Vec<u8>, w: u32)
    ensures
        final(out)@ == old(out)@ + field_bytes(Field::Long(w)),
{
    out.push((w % 256) as u8);
    out.push(((w / 0x100) % 256) as u8);
    out.push(((w / 0x1_0000) % 256) as u8);
    out.push((w / 0x100_0000) as u8);
    assert(final(out)@ =~= old(out)@ + field_bytes(Field::Long(w)));
}

pub(crate) fn push_quad(out: &mut Vec<u8>, w: u64)
    ensures
        final(out)@ == old(out)@ + field_bytes(Field::Quad(w)),
{
    push_long(out, (w % 0x1_0000_0000) as u32);
    push_long(out, (w / 0x1_0000_0000) as u32);
    assert(final(out)@ =~= old(out)@ + field_bytes(Field::Quad(w)));
}

pub(crate) fn push_block(out: &mut Vec<u8>, b: &Vec<u8>)
    requires
        b@.len() <= u32::MAX,
    ensures
        final(out)@ == old(out)@ + field_bytes(Field::Block(b@)),
{
    push_long(out, b.len() as u32);
    let ghost start = out@;
    let mut k: usize = 0;
    while k < b.len()
        invariant
            k <= b@.len(),
            out@ == start + b@.subrange(0, k as int),
        decreases b@.len() - k,
    {
        out.push(b[k]);
        k += 1;
        assert(out@ =~= start + b@.subrange(0, k as int));
    }
    assert(b@.subrange(0, b@.len() as int) =~= b@);
    assert(final(out)@ =~= old(out)@ + field_bytes(Field::Block(b@)));
}

pub(crate) fn push_pulse(out: &mut Vec<u8>, p: &Pulse)
    ensures
        final(out)@ == old(out)@ + field_bytes(Field::Pulse(*p)),
{
    out.push(p.id);
    out.push(p.duty);
    out.push(p.step);
    out.push(p.length);
    out.push(if p.length_enabled { 1 } else { 0 });
    out.push((p.timer % 256) as u8);
    out.push((p.timer / 256) as u8);
    out.push((p.timer_reload % 256) as u8);
    out.push((p.timer_reload / 256) as u8);
    out.push(p.volume);
    out.push(p.volume_constant);
    out.push(if p.envelope_start { 1 } else { 0 });
    out.push(p.envelope_timer);
    out.push(p.envelope_timer_reload);
    out.push(if p.envelope_loop { 1 } else { 0 });
    out.push(if p.envelope_enabled { 1 } else { 0 });
    out.push(p.sweep_timer);
    out.push(if p.sweep_negate { 1 } else { 0 });
    out.push(p.sweep_reload);
    out.push(p.sweep_shift);
    out.push(if p.sweep_enabled { 1 } else { 0 });
    out.push(if p.sweep_reload_flag { 1 } else { 0 });
    assert(final(out)@ =~= old(out)@ + field_bytes(Field::Pulse(*p)));
}

pub(crate) fn push_triangle(out: &mut Vec<u8>, t: &Triangle)
    ensures
        final(out)@ == old(out)@ + field_bytes(Field::Triangle(*t)),
{
    out.push((t.timer % 256) as u8);
    out.push((t.timer / 256) as u8);
    out.push((t.timer_reload % 256) as u8);
    out.push((t.timer_reload / 256) as u8);
    out.push(t.step);
    out.push(t.length);
    out.push(if t.length_enabled { 1 } else { 0 });
    out.push(t.linear_counter);
    out.push(t.linear_reload);
    out.push(if t.linear_reload_flag { 1 } else { 0 });
    out.push(if t.halt { 1 } else { 0 });
    assert(final(out)@ =~= old(out)@ + field_bytes(Field::Triangle(*t)));
}

pub(crate) fn push_noise(out: &mut Vec<u8>, n: &Noise)
    ensures
        final(out)@ == old(out)@ + field_bytes(Field::Noise(*n)),
{
    out.push((n.lfsr % 256) as u8);
    out.push((n.lfsr / 256) as u8);
    out.push(if n.mode { 1 } else { 0 });
    out.push((n.timer % 256) as u8);
    out.push((n.timer / 256) as u8);
    out.push((n.timer_reload % 256) as u8);
    out.push((n.timer_reload / 256) as u8);
    out.push(n.length);
    out.push(if n.length_enabled { 1 } else { 0 });
    out.push(n.volume);
    out.push(n.volume_constant);
    out.push(if n.envelope_start { 1 } else { 0 });
    out.push(n.envelope_timer);
    out.push(n.envelope_timer_reload);
    out.push(if n.envelope_loop { 1 } else { 0 });
    out.push(if n.envelope_enabled { 1 } else { 0 });
    assert(final(out)@ =~= old(out)@ + field_bytes(Field::Noise(*n)));
}

pub(crate) fn push_dmc(out: &mut Vec<u8>, m: &Dmc)
    ensures
        final(out)@ == old(out)@ + field_bytes(Field::Dmc(*m)),
{
    out.push((m.timer % 256) as u8);
    out.push((m.timer / 256) as u8);
    out.push(m.output);
    out.push((m.sample_address % 256) as u8);
    out.push((m.sample_address / 256) as u8);
    out.push((m.sample_length % 256) as u8);
    out.push((m.sample_length / 256) as u8);
    out.push((m.current_address % 256) as u8);
    out.push((m.current_address / 256) as u8);
    out.push((m.bytes_remaining % 256) as u8);
    out.push((m.bytes_remaining / 256) as u8);
    out.push(
        match m.sample_buffer {
            Some(x) => x,
            None => 0,
        },
    );
    out.push(if m.sample_buffer.is_some() { 1 } else { 0 });
    out.push(m.shift_register);
    out.push(m.bits_remaining);
    out.push(if m.silence { 1 } else { 0 });
    out.push(if m.irq_flag { 1 } else { 0 });
    out.push(if m.irq_pending { 1 } else { 0 });
    out.push(if m.irq_enable { 1 } else { 0 });
    out.push(if m.loop_flag { 1 } else { 0 });
    out.push((m.timer_reload % 256) as u8);
    out.push((m.timer_reload / 256) as u8);
    assert(final(out)@ =~= old(out)@ + field_bytes(Field::Dmc(*m)));
}

pub(crate) fn push_version(out: &mut Vec<u8>, v: u8)
    requires
        known_version(v),
    ensures
        final(out)@ == old(out)@ + field_bytes(Field::Version(v)),
{
    out.push(78);
    out.push(69);
    out.push(83);
    out.push(83);
    out.push(65);
    out.push(86);
    out.push(69);
    out.push(48 + v);
    assert(final(out)@ =~= old(out)@ + field_bytes(Field::Version(v)));
}

// ---------------------------------------------------------------------------
// Properties of the format.
// ---------------------------------------------------------------------------

pub proof fn lemma_field_bytes_len(f: Field)
    requires
        field_fits(f),
    ensures
        field_bytes(f).len() == field_len(f),
{
}

/// Two fields of one kind read at one position are the same field: the bytes
/// determine the value.
pub proof fn lemma_field_determined(d: Seq<u8>, i: int, f: Field, g: Field)
    requires
        field_at(d, i, f),
        field_at(d, i, g),
        kind(f) == kind(g),
    ensures
        f == g,
{
    match f {
        Field::Version(v) => {
            let w = g->Version_0;
            assert(magic(v)[7] == magic(w)[7]);
        },
        Field::Block(b) => {
            let c = g->Block_0;
            assert(b =~= c);
        },
        _ => {},
    }
}

/// The encoding of a field reads back as that field, wherever it is placed.
pub proof fn lemma_field_reads_back(pre: Seq<u8>, f: Field, post: Seq<u8>)
    requires
        field_fits(f),
    ensures
        field_at(pre + field_bytes(f) + post, pre.len() as int, f),
{
    let d = pre + field_bytes(f) + post;
    let i = pre.len() as int;
    lemma_field_bytes_len(f);
    assert(d.subrange(i, i + field_len(f)) =~= field_bytes(f));
    match f {
        Field::Word(w) => {
            assert(d.subrange(i, i + 2) =~= le2(w));
            lemma_value2_le2(w);
        },
        Field::Pulse(p) => {
            lemma_pulse_reads_back(d, i, p);
        },
        Field::Triangle(t) => {
            lemma_triangle_reads_back(d, i, t);
        },
        Field::Noise(n) => {
            lemma_noise_reads_back(d, i, n);
        },
        Field::Dmc(m) => {
            lemma_dmc_reads_back(d, i, m);
        },
        Field::Long(w) => {
            assert(d.subrange(i, i + 4) =~= le4(w));
            lemma_value4_le4(w);
        },
        Field::Quad(w) => {
            assert(d.subrange(i, i + 8) =~= le8(w));
            let lo = (w % 0x1_0000_0000) as u32;
            let hi = (w / 0x1_0000_0000) as u32;
            assert(le8(w).subrange(0, 4) =~= le4(lo));
            assert(le8(w).subrange(4, 8) =~= le4(hi));
            lemma_value4_le4(lo);
            lemma_value4_le4(hi);
            assert(value8(le8(w)) == w) by {
                vstd::arithmetic::div_mod::lemma_fundamental_div_mod(w as int, 0x1_0000_0000);
            }
        },
        Field::Block(b) => {
            assert(d.subrange(i, i + 4) =~= le4(b.len() as u32));
            lemma_value4_le4(b.len() as u32);
            assert(d.subrange(i + 4, i + 4 + b.len()) =~= b);
        },
        Field::Version(v) => {
            assert(d.subrange(i, i + 8) =~= magic(v));
        },
        Field::Byte(b) => {
            assert(d[i] == field_bytes(f)[0]);
        },
        Field::Flag(b) => {
            assert(d[i] == field_bytes(f)[0]);
        },
        Field::Present(b) => {
            assert(d[i] == field_bytes(f)[0]);
        },
        Field::Code(c) => {
            assert(d[i] == field_bytes(f)[0]);
        },
        Field::Buffered(o) => {
            assert(d[i] == field_bytes(f)[0]);
            assert(d[i + 1] == field_bytes(f)[1]);
        },
    }
}

pub open spec fn fields_fit(fs: Seq<Field>) -> bool {
    forall|k: int| 0 <= k < fs.len() ==> field_fits(#[trigger] fs[k])
}

/// Appending a field: the sequence reads when the prefix reads and the field
/// reads right after it.
pub proof fn lemma_fields_push(d: Seq<u8>, i: int, fs: Seq<Field>, f: Field)
    ensures
        fs.push(f).drop_last() == fs,
        fields_len(fs.push(f)) == fields_len(fs) + field_len(f),
        fields_bytes(fs.push(f)) == fields_bytes(fs) + field_bytes(f),
        fields_at(d, i, fs.push(f)) == (fields_at(d, i, fs) && field_at(d, i + fields_len(fs), f)),
{
    assert(fs.push(f).drop_last() =~= fs);
}

pub proof fn lemma_fields_bytes_len(fs: Seq<Field>)
    requires
        fields_fit(fs),
    ensures
        fields_bytes(fs).len() == fields_len(fs),
    decreases fs.len(),
{
    if fs.len() > 0 {
        lemma_fields_bytes_len(fs.drop_last());
        lemma_field_bytes_len(fs.last());
    }
}

/// The encoding of a field sequence reads back as that sequence, wherever it
/// is placed.
pub proof fn lemma_fields_read_back(pre: Seq<u8>, fs: Seq<Field>, post: Seq<u8>)
    requires
        fields_fit(fs),
    ensures
        fields_at(pre + fields_bytes(fs) + post, pre.len() as int, fs),
    decreases fs.len(),
{
    if fs.len() == 0 {
        assert(fields_bytes(fs) =~= Seq::<u8>::empty());
    } else {
        let init = fs.drop_last();
        let last = fs.last();
        let tail = field_bytes(last) + post;
        lemma_fields_read_back(pre, init, tail);
        assert(pre + fields_bytes(init) + tail =~= pre + fields_bytes(fs) + post);
        lemma_fields_bytes_len(init);
        lemma_field_reads_back(pre + fields_bytes(init), last, post);
        assert(pre + fields_bytes(init) + field_bytes(last) + post =~= pre + fields_bytes(fs)
            + post);
    }
}

/// A prefix of a readable sequence reads, and the next field reads right
/// after it.
pub proof fn lemma_fields_prefix(d: Seq<u8>, i: int, fs: Seq<Field>, k: int)
    requires
        fields_at(d, i, fs),
        0 <= k < fs.len(),
    ensures
        fields_at(d, i, fs.take(k)),
        field_at(d, i + fields_len(fs.take(k)), fs[k]),
    decreases fs.len(),
{
    if k == fs.len() - 1 {
        assert(fs.take(k) =~= fs.drop_last());
    } else {
        lemma_fields_prefix(d, i, fs.drop_last(), k);
        assert(fs.drop_last().take(k) =~= fs.take(k));
    }
}

proof fn lemma_value2_le2(w: u16)
    ensures
        value2(le2(w)) == w,
{
    vstd::arithmetic::div_mod::lemma_fundamental_div_mod(w as int, 256);
}

proof fn lemma_pulse_reads_back(d: Seq<u8>, i: int, p: Pulse)
    requires
        0 <= i,
        i + 22 <= d.len(),
        d.subrange(i, i + 22) == pulse_bytes(p),
    ensures
        pulse_at(d, i, p),
{
    let b = pulse_bytes(p);
    assert(d[i + 0] == b[0]);
    assert(d[i + 1] == b[1]);
    assert(d[i + 2] == b[2]);
    assert(d[i + 3] == b[3]);
    assert(d[i + 4] == b[4]);
    assert(d.subrange(i + 5, i + 7) =~= le2(p.timer));
    lemma_value2_le2(p.timer);
    assert(d.subrange(i + 7, i + 9) =~= le2(p.timer_reload));
    lemma_value2_le2(p.timer_reload);
    assert(d[i + 9] == b[9]);
    assert(d[i + 10] == b[10]);
    assert(d[i + 11] == b[11]);
    assert(d[i + 12] == b[12]);
    assert(d[i + 13] == b[13]);
    assert(d[i + 14] == b[14]);
    assert(d[i + 15] == b[15]);
    assert(d[i + 16] == b[16]);
    assert(d[i + 17] == b[17]);
    assert(d[i + 18] == b[18]);
    assert(d[i + 19] == b[19]);
    assert(d[i + 20] == b[20]);
    assert(d[i + 21] == b[21]);
}

proof fn lemma_triangle_reads_back(d: Seq<u8>, i: int, t: Triangle)
    requires
        0 <= i,
        i + 11 <= d.len(),
        d.subrange(i, i + 11) == triangle_bytes(t),
    ensures
        triangle_at(d, i, t),
{
    let b = triangle_bytes(t);
    assert(d.subrange(i + 0, i + 2) =~= le2(t.timer));
    lemma_value2_le2(t.timer);
    assert(d.subrange(i + 2, i + 4) =~= le2(t.timer_reload));
    lemma_value2_le2(t.timer_reload);
    assert(d[i + 4] == b[4]);
    assert(d[i + 5] == b[5]);
    assert(d[i + 6] == b[6]);
    assert(d[i + 7] == b[7]);
    assert(d[i + 8] == b[8]);
    assert(d[i + 9] == b[9]);
    assert(d[i + 10] == b[10]);
}

proof fn lemma_noise_reads_back(d: Seq<u8>, i: int, n: Noise)
    requires
        0 <= i,
        i + 16 <= d.len(),
        d.subrange(i, i + 16) == noise_bytes(n),
    ensures
        noise_at(d, i, n),
{
    let b = noise_bytes(n);
    assert(d.subrange(i + 0, i + 2) =~= le2(n.lfsr));
    lemma_value2_le2(n.lfsr);
    assert(d[i + 2] == b[2]);
    assert(d.subrange(i + 3, i + 5) =~= le2(n.timer));
    lemma_value2_le2(n.timer);
    assert(d.subrange(i + 5, i + 7) =~= le2(n.timer_reload));
    lemma_value2_le2(n.timer_reload);
    assert(d[i + 7] == b[7]);
    assert(d[i + 8] == b[8]);
    assert(d[i + 9] == b[9]);
    assert(d[i + 10] == b[10]);
    assert(d[i + 11] == b[11]);
    assert(d[i + 12] == b[12]);
    assert(d[i + 13] == b[13]);
    assert(d[i + 14] == b[14]);
    assert(d[i + 15] == b[15]);
}

proof fn lemma_dmc_reads_back(d: Seq<u8>, i: int, m: Dmc)
    requires
        0 <= i,
        i + 22 <= d.len(),
        d.subrange(i, i + 22) == dmc_bytes(m),
    ensures
        dmc_at(d, i, m),
{
    let b = dmc_bytes(m);
    assert(d.subrange(i + 0, i + 2) =~= le2(m.timer));
    lemma_value2_le2(m.timer);
    assert(d[i + 2] == b[2]);
    assert(d.subrange(i + 3, i + 5) =~= le2(m.sample_address));
    lemma_value2_le2(m.sample_address);
    assert(d.subrange(i + 5, i + 7) =~= le2(m.sample_length));
    lemma_value2_le2(m.sample_length);
    assert(d.subrange(i + 7, i + 9) =~= le2(m.current_address));
    lemma_value2_le2(m.current_address);
    assert(d.subrange(i + 9, i + 11) =~= le2(m.bytes_remaining));
    lemma_value2_le2(m.bytes_remaining);
    assert(d[i + 11] == b[11]);
    assert(d[i + 12] == b[12]);
    assert(d[i + 13] == b[13]);
    assert(d[i + 14] == b[14]);
    assert(d[i + 15] == b[15]);
    assert(d[i + 16] == b[16]);
    assert(d[i + 17] == b[17]);
    assert(d[i + 18] == b[18]);
    assert(d[i + 19] == b[19]);
    assert(d.subrange(i + 20, i + 22) =~= le2(m.timer_reload));
    lemma_value2_le2(m.timer_reload);
}

proof fn lemma_value4_le4(w: u32)
    ensures
        value4(le4(w)) == w,
{
    assert(w % 256 + 0x100 * ((w / 0x100) % 256) + 0x1_0000 * ((w / 0x1_0000) % 256) + 0x100_0000 * (
    w / 0x100_0000) == w) by (bit_vector);
}

pub open spec fn kinds(fs: Seq<Field>) -> Seq<Kind> {
    fs.map_values(|f: Field| kind(f))
}

/// Two field sequences of the same kinds that read at one position are
/// equal.
pub proof fn lemma_fields_determined(d: Seq<u8>, i: int, fs: Seq<Field>, gs: Seq<Field>)
    requires
        fields_at(d, i, fs),
        fields_at(d, i, gs),
        kinds(fs) == kinds(gs),
    ensures
        fs == gs,
    decreases fs.len(),
{
    assert(fs.len() == kinds(fs).len() && gs.len() == kinds(gs).len());
    if fs.len() > 0 {
        let n = fs.len() - 1;
        let fi = fs.drop_last();
        let gi = gs.drop_last();
        assert forall|j: int| 0 <= j < n implies kinds(fi)[j] == kinds(gi)[j] by {
            assert(fi[j] == fs[j] && gi[j] == gs[j]);
            assert(kinds(fi)[j] == kind(fi[j]));
            assert(kinds(gi)[j] == kind(gi[j]));
            assert(kinds(fs)[j] == kind(fs[j]));
            assert(kinds(gs)[j] == kind(gs[j]));
            assert(kinds(fs)[j] == kinds(gs)[j]);
        }
        assert(kinds(fi) =~= kinds(gi));
        lemma_fields_determined(d, i, fi, gi);
        assert(kinds(fs)[n] == kind(fs[n]) && kinds(gs)[n] == kind(gs[n]));
        lemma_field_determined(d, i + fields_len(fi), fs.last(), gs.last());
        assert forall|j: int| 0 <= j < fs.len() implies fs[j] == gs[j] by {
            if j < n {
                assert(fi[j] == gi[j]);
            }
        }
        assert(fs =~= gs);
    }
}

pub proof fn lemma_kinds_take(fs: Seq<Field>, n: int)
    requires
        0 <= n <= fs.len(),
    ensures
        kinds(fs.take(n)) == kinds(fs).take(n),
{
    assert(kinds(fs.take(n)) =~= kinds(fs).take(n));
}

} // verus!
