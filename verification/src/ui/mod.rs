//! The immediate-mode UI: option flags, styles, the layout engine, the
//! container pool, id hashing, number formatting, text metrics, the
//! context and its windows.

pub mod flags;
pub mod style;
pub mod layout;
pub mod pool;
pub mod num;
pub mod text;
pub mod context;
pub mod scroll;
pub mod window;
pub mod controls;
pub mod pointer;
pub mod glyphs;
