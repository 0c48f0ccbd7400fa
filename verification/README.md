# blaze64

The core of the Blaze-64 fantasy computer, verified with Verus. Programs are Webassembly
modules; the computer gives them 8-bit pixel graphics, input, audio, files, processes and
events.

- `src/` is the verified library: versioned ids and the id store (`id`), the process table,
  process names and event routing (`kernel`), a process's plain state (`process`), interned
  event names (`event_names`), events (`event`), the pixel drawing state and its shapes
  (`graphics`), colour arithmetic, the audio sample queue, the screen's colour conversion and
  the input driver's decisions (`driver`), little-endian encoding (`byte_builder`), file
  handle rules (`async_file`) and the split of a program's imports (`imports`).
- `tests/` runs the library on concrete values.
- `app/` is the program around it: the Webassembly runtime (wasmtime), the host functions
  programs call, the file system (cap-std), the window, input and sound (raylib, rodio) and
  the main loop (tokio).
