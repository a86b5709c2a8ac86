//! A tiling window manager core: a deterministic layout engine, a per-window
//! client lifecycle state machine, and an event dispatcher.
//!
//! All display-protocol effects are modelled as explicit [`client::Command`]
//! values; an unverified shell performs the actual protocol I/O and feeds
//! events and query results back in as plain values.

pub mod client;
pub mod geom;
pub mod layout;
pub mod visual;
pub mod wm;

pub use geom::Geom;
pub use geom::RootParams;
