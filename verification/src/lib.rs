//! Geometry of atomic systems for molecular simulations.
//!
//! A system is put together from components: sheets, cylinders, cuboids and
//! spheroids that carry one residue, a small group of atoms, at each of a set
//! of points. This crate decides where the points are and which atom comes
//! where:
//!
//! - [`lattice`] replicates a crystal into the sites of a periodic lattice;
//! - [`distribution`] spreads random points that keep apart from each other;
//! - [`volume`] fills a volume with a number of random points;
//! - [`surface`] names the caps and sides of which a surface is made;
//! - [`system`] holds residues and components, [`iterator`] and
//!   [`substrates`] list the atoms of a component in their order, and
//!   [`output`] numbers them for a coordinate file;
//! - [`direction`] lays out the axes of a shape.
//!
//! Positions are values of a type parameter that the crate stores and hands
//! on. Where a position has to be computed, drawn or measured, a function of
//! the caller does it, and random numbers come from a source that the caller
//! passes in; what this crate states of the result is stated in terms of what
//! those functions returned.

pub mod direction;
pub mod distribution;
pub mod io;
pub mod iterator;
pub mod lattice;
pub mod output;
pub mod substrates;
pub mod surface;
pub mod system;
pub mod volume;
