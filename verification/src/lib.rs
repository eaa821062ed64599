//! The bookkeeping and decision core of a two-dimensional rigid-body engine.
//!
//! Bodies are oriented boxes, linked by soft distance constraints, that
//! collide with each other and with the walls of their world. The engine
//! owns the body registry, the link list and the drag state. It decides
//! which bodies an interaction may move, reads a collision test off the
//! projections of two boxes, and plans the order of the work of each step.
//!
//! Numbers are double-precision, carried by their IEEE 754 binary64
//! encoding. The library classifies, compares and negates them, which are
//! statements about integers; it does no other arithmetic. Lengths,
//! projections and impulses are computed by the host, which carries out the
//! planned tasks one by one and hands each result back.

pub mod scalar;
pub mod vector;
pub mod body;
pub mod constraint;
pub mod engine;
pub mod collision;
pub mod solver;
pub mod schedule;
