# takhti

The decision core of a tiling Wayland compositor, written in Verus: what the
TTY backend does with its GPUs, its outputs and their modes, its input devices
and its redraws, and the window decorations and protocol hints that go with
them. Every function states what it does in its contract, and Verus proves it.

## Layout

`src/` is the library. It holds plain state and plain values; the event loop,
the GPU, the kernel and the clients hand in what happened and carry out what
comes back.

| modules | what they decide |
| --- | --- |
| `redraw`, `tty`, `pacing` | the redraw state machine of an output, and what holds of it over time |
| `mode`, `names`, `formats` | the mode of a connector, its name, and the formats of its buffers |
| `space`, `geometry` | where outputs lie |
| `node`, `devices`, `bring_up` | GPUs that come and go |
| `connectors`, `coherence` | outputs that come and go, and what every change keeps |
| `input`, `table`, `reload` | input devices, and settings as they are applied |
| `session` | switching the session away and back |
| `layout`, `damage` | borders, shadows and corners of windows |
| `tearing_control` | the tearing-control protocol |
| `state` | what the compositor keeps, and its model |

`tests/` runs the library. `app/` carries out what the library decides, on
smithay, libinput and calloop; its `seat` module needs libseat and libudev.

Two things come from outside crates: the `drm` crate tells the flags of modes,
the names of connectors and the modifiers of formats, and `calloop` names the
timers and sources that are registered. What is taken on trust of them is
written above each wrapper.
