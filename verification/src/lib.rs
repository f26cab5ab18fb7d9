//! termpane: a terminal screen model that interprets a byte stream, records
//! what changed, and can write its own state back out as a byte stream.
//!
//! The entry point is [`DamageGrid`]. [`state`] is the mathematical model that
//! its contracts speak of; [`wellformed`], [`laws`] and [`roundtrip`] state what
//! holds of it. What each operation does, cell by cell and byte by byte, stands in
//! [`printing`], [`editing`], [`motion`], [`settings`], [`retention`], [`reading`],
//! [`answers`], [`written`], [`boundaries`], [`columns`] and [`sameness`].

pub mod access;
pub mod answers;
pub mod arena;
pub mod boundaries;
pub mod bytes;
pub mod canvas;
pub mod cell;
pub mod columns;
mod compact;
pub mod damage;
pub mod editing;
pub mod erase;
pub mod grid;
pub mod laws;
pub mod midseq;
pub mod model;
pub mod motion;
pub mod ops;
pub mod osc;
pub mod paint;
pub mod params;
pub mod parse;
pub mod passthrough;
pub mod pen;
pub mod perform;
pub mod printing;
pub mod process;
pub mod reading;
pub mod replay;
pub mod replica;
pub mod reproduce;
pub mod retention;
pub mod roundtrip;
pub mod sameness;
pub mod scroll;
pub mod serialize;
pub mod settings;
pub mod snapshot;
pub mod state;
pub mod stream;
pub mod vt;
pub mod wellformed;
pub mod width;
pub mod write;
pub mod written;

pub use arena::RowArena;
pub use cell::{Attrs, Cell, Color, Hyperlink, UnderlineStyle};
pub use damage::{DirtyRows, DirtySpan, DirtySpans, DirtyTracker};
pub use grid::DamageGrid;
pub use model::{RowWrap, ScrollOp};
pub use passthrough::{PassthroughBuffer, PassthroughEvent};
pub use snapshot::{GridPatch, GridSnapshot, GridView, SnapCell};
pub use state::{MouseProtocolEncoding, MouseProtocolMode};
pub use width::{Osc8Policy, SupportedSgr, VirtualTerminalProfile, display_width};
