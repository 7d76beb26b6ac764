//! Exact crystallographic symmetry: rational affine algebra, closure of
//! space-group generators modulo lattice translations, orbits of positions and
//! classes of symmetry-equivalent position pairs.
//!
//! Every number is an exact [`Frac`]; its mathematical value is a `real`, and
//! the contracts of the algebra are stated over those values. Arithmetic is
//! checked: an operation answers `None` exactly when its exact result cannot be
//! stored, and the operators `+ - * / %` require that it can.
pub mod divisibility;
pub mod frac;
pub mod order;
pub mod text;
pub mod reals;
pub mod lattice;
pub mod affine_space;
pub mod affine_laws;
pub mod error;
pub mod closure;
pub mod symmetry;
pub mod group_laws;
pub mod expansion;
pub mod objects;
pub mod object_laws;
pub mod oplist;
pub mod oplist_text;
pub mod input;
pub mod input_text;
pub mod ops;

pub use affine_space::{Affine3, Bounds3, Mat3, Pos3, Vec3};
pub use error::Error;
pub use frac::Frac;
