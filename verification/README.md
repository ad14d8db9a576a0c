# sssssssssampler

A sampler-emulation audio effect whose editor animates layered ASCII art. The
discrete core of the visualiser is a Verus-verified library; floating-point audio
and animation, GPU upload and the plugin/GUI frameworks live in `app/`.

## Library (`src/`)

| module | contents |
|---|---|
| `ascii_bank` | charset, text parsing into index grids, nearest-neighbour resizing, image bank, ink densities |
| `layer_engine` | anchor + overlay layer states driven by a 64-bit LCG |
| `instancing` | per-cell glyph placements of a frame |
| `glyph_atlas` | atlas layout and glyph-cell rasterisation |
| `motion` | frame clock and per-region seeds |
| `color_system` | theme colour tables |
| `editor_state` | presets, feels, editor event handling |
| `ui_layout` | overlay rows, dropdown placement, click handling |
| `ui_sync` | checkerboard test frame |
| `dsp` | audio noise generator bits, filter topology |
| `composition` | anchors, hashes, overlay image choice, core-image framing |
| `moments` | moment state machine and moment choice, glitch blooms |
| `visual_state` | energy-state hysteresis, glitch glyph choice |

Every public function carries a `requires`/`ensures` contract; the `law_*` proof
functions state properties that span several calls.

## Around it (`app/`)

Parameter curves, audio analysis, colour conversion, the wgpu renderer, the
nih-plug plugin and the vizia editor, all calling into the library for their
discrete decisions.
