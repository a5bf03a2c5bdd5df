# wasm_nes

The sound unit and the save-state format of a NES emulator, written in Verus
with their behaviour stated in contracts and proved.

- `src/pulse.rs`, `src/triangle.rs`, `src/noise.rs`, `src/dmc.rs`: the five
  APU channels. Each register write and each clock is a spec function on the
  channel (`ctrl_written`, `timer_clocked`, ...); the executable methods are
  proved equal to them and to keep the channel well formed (`wf`).
- `src/apu.rs`: register dispatch (`$4000`-`$4017`), the `$4015` status
  register, the frame counter and per-channel muting.
- `src/timing.rs`: the emulator's CPU divider and fixed-point sample clock,
  with proofs that neither drifts.
- `src/dma.rs`: the OAM DMA transfer, one CPU cycle at a time.
- `src/wire.rs`, `src/savestate.rs`: the save format. `NESSAVE3` holds the
  whole APU (status, frame counter, one record per channel); `NESSAVE2` (the
  DMC only) and `NESSAVE1` (no channel state) still load. `decode` returns
  exactly the state whose fields the bytes read as; `lemma_load_after_save`
  proves that loading a save gives back what was saved, and
  `lemma_apu_load_after_save` that restoring it gives back the whole APU.
- `app/`: the floating-point side of audio (mixer, analog filter chain,
  sample buffer), which stays outside the verified library.
