//! Parametric airframe parts (a tapered wing with its ribs, a fuselage and a
//! printable hinge) described as trees of geometric operations over exact
//! rational numbers.

pub mod num;
pub mod shape;
pub mod profile;
pub mod wing;
pub mod fuselage;
pub mod hinge;
pub mod plane;
