//! The `flash.geom.Matrix` class of the AVM1 runtime.
//!
//! A Matrix object keeps its affine transformation in six properties,
//! `a`, `b`, `c`, `d`, `tx` and `ty`. The library has six parts:
//!
//! * [`matrix`]: the transformation itself, as the `swf` crate stores it
//!   (16.16 fixed-point scale and skew, translation in twips), and the
//!   operations that the class's methods perform on it.
//! * [`object`]: how a Matrix object's six properties are read, written,
//!   set by the constructor, copied by `clone` and shown by `toString`.
//! * [`arguments`]: how the methods pick their operands out of the
//!   arguments they are called with, and how a gradient description object
//!   selects its kind of matrix.
//! * [`proto`]: the methods that the class's prototype provides.
//! * [`call`]: a call of a method as a conversation with the script
//!   runtime, whose reads, conversions and writes may fail.
//! * [`runs`]: what each call does when the runtime answers it truly.
pub mod arguments;
pub mod call;
pub mod matrix;
pub mod object;
pub mod proto;
pub mod runs;
