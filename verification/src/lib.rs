//! The decision core of a tiling Wayland compositor: what the TTY backend does
//! with its GPUs, its outputs and their modes, its input devices and its
//! redraws, and the window decorations and protocol hints that go with them.
//!
//! Everything here is plain state and plain values. The event loop, the GPU,
//! the kernel and the clients live outside: they hand in what happened and
//! carry out what comes back.

pub mod geometry;
pub mod mode;
pub mod names;
pub mod table;
pub mod input;
pub mod space;
pub mod node;
pub mod redraw;
pub mod state;
pub mod tty;
pub mod pacing;
pub mod session;
pub mod formats;
pub mod connectors;
pub mod devices;
pub mod bring_up;
pub mod reload;
pub mod coherence;
pub mod damage;
pub mod layout;
pub mod tearing_control;
