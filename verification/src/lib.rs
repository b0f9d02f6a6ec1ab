//! Editing the breakpoints of a piecewise-linear calibration curve.
//!
//! A curve is a list of points whose x coordinates strictly ascend. The editor
//! keeps a working copy of such a curve beside the curve as it was loaded, and
//! changes the number of points of the working copy one at a time: the middle
//! point of the straightest junction leaves, or the middle point of the
//! sharpest junction gives way to two points beside it.
//!
//! Coordinates and angles are double-precision numbers, carried by their bit
//! patterns. The library compares them exactly and never does arithmetic on
//! them: the angles of a curve and the position of new points are measured by
//! the caller and handed in, and the editor takes nothing from them that it
//! has not checked.
//!
//! - `scalar`: numbers by their bit patterns, and their order.
//! - `point`: breakpoints and curves.
//! - `validate`: what is asked of a list of points before it is loaded.
//! - `profile`: the angles at the junctions of a curve, and the junction
//!   that an edit picks.
//! - `editor`: the editor, its states and its edits.
//! - `session`: the controls of a front end, as messages to the editor.
//! - `extent`: the frame in which a curve is drawn.
//! - `records`: the lines of a curve file.
//! - `theorems`: what holds of every editor.
//! - `zero_runs`: a tool for bit patterns, the longest run of zero bits
//!   between two one bits.

pub mod scalar;
pub mod point;
pub mod profile;
pub mod validate;
pub mod editor;
pub mod theorems;
pub mod extent;
pub mod session;
pub mod records;
pub mod zero_runs;
