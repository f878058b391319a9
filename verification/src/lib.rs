//! Discrete core of the Parcel Ascent Tracing System (PATS), a numerical
//! model that simulates the ascent of convective air parcels through a
//! gridded background atmosphere.
//!
//! The crate holds the parts of the model that decide rather than compute:
//! the search of coordinate axes, the window that is cut out of the source
//! grid, the layout of the buffered fields, the lookup of the grid cell that
//! encloses a point, the regimes of the ascent and the convective levels read
//! from a finished trajectory. Every function carries a contract, and every
//! contract is proved, save those of the two wrappers around the hash set of
//! `rustc_hash` in [`environment::fields`], which are believed.
//!
//! Real quantities never enter the crate as numbers. Where their order
//! matters they are handed over as order keys (see [`ordering`]); where they
//! are only stored and moved, the containers are generic in the element type.

pub mod configuration;
pub mod dispatch;
pub mod environment;
pub mod errors;
pub mod ordering;
pub mod parcel;
