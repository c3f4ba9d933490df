//! Selection algebra for a modal text editor: descriptors of ranges over a
//! (row, column) grid, the geometric primitives on them, and the algorithms
//! built from those primitives.

pub mod box_;
pub mod commands;
pub mod errors;
pub mod invert;
pub mod join;
pub mod keep_every;
pub mod pad;
pub mod register;
pub mod selections;
pub mod set;
pub mod sort;
pub mod trim;
pub mod text;
pub mod types;
pub mod uniq;
pub mod utils;
pub mod xargs;
pub mod xlookup;

pub use errors::{KakError, KakMessage};
pub use register::Register;
pub use types::{
    AnchorPosition, MaybeSplit, SelectionDesc, SelectionWithDesc, SelectionWithSubselections,
};
