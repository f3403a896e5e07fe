# viewport-vulkan

A Vulkan renderer for Smithay-based Wayland compositors, in two parts.

`src/` is the library: every decision the renderer makes, verified with Verus.
It picks the device, maps formats, plans how a DMA-BUF becomes an image, records
frames, uploads, read-backs and blits, and says what has to be given back when
any of it fails. It never talks to a driver. What needs one is a conversation: a
value says which request comes next and is told what came of it. A recording is a
list of commands.

`app/` carries those decisions out with `ash`, and implements Smithay's renderer
traits on top. What is computed in floating point, the transfer curves and the
matrices between colour spaces, is here too.

`tests/` runs the library on a GPU made of arrays, which answers every request
and carries out every command on memory it owns.

## Laws

Beside the contracts of the functions stand proofs of what holds of them
together. Some of them:

- What a client wrote is what is sampled, and what was written is what is read
  back (`src/pixels.rs`).
- A buffer that was imported is found again as it was imported (`src/renderer.rs`),
  and one in shared memory is updated in place, exactly where it was damaged
  (`src/wayland.rs`, `src/pixels.rs`).
- A frame, an upload, a read-back and a blit are recordings Vulkan allows
  (`src/render.rs`, `src/renderer.rs`).
- Whatever the driver made is owned or given back, at every step
  (`src/import.rs`, `src/allocation.rs`, `src/staging.rs`, `src/command.rs`).
- What is advertised is what is accepted, and what is accepted is imported
  (`src/renderer.rs`, `src/import.rs`).
- Every output transform covers the framebuffer exactly once, and a scissor
  covers exactly what its quad covers (`src/transform.rs`).
- A quad is drawn where its rectangle is, and samples exactly its source
  (`src/transform.rs`).
- Clearing the desktop leaves every pixel the one colour, and clearing nothing
  changes no pixel (`src/canvas.rs`).
- Every damage rectangle is drawn, and nothing is drawn without damage
  (`src/renderer.rs`).

## Shaders

A renderer is made with three SPIR-V modules: a quad, a solid fragment and a
textured one. The quad is generated from the vertex index as a strip of four and
placed by push constants, 32 numbers in the order of `Push::words`. The texture
is pushed at binding 0. Blending is premultiplied.

## Requirements

Vulkan 1.2 or newer, and the extensions of `device::required_extensions`.
