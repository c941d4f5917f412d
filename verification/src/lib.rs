//! Stage audio connection planning.
//!
//! Performers stand on a 2D stage, each with a position and a facing
//! direction. A performer can speak through two directional mouth slots
//! (left and right) and listen through two ear slots (left and right),
//! each slot holding at most one peer. A connection is a directed,
//! slot-backed link: one performer speaks to another using specific
//! sides of each. The library tests geometric audibility between
//! performers, tracks slot capacity in a connection graph, and searches
//! for a slot-feasible set of connections that maximizes the total
//! number of established connections.

pub mod connection;
pub mod geometry;
pub mod graph;
pub mod optimizer;
pub mod performer;
