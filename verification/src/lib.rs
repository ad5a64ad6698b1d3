//! A verified modelling layer for a physics engine's model-compile-simulate
//! pipeline: scene descriptions are parsed into a specification, compiled
//! into an immutable model whose addressing tables locate each joint's
//! degrees of freedom in flat state buffers, and per-joint views are derived
//! from a mutable data instance bound to that model.

pub mod data;
pub mod errors;
pub mod model;
pub mod parse;
pub mod scene;

pub use data::Data;
pub use data::JointData;
pub use errors::CompileError;
pub use errors::LoadError;
pub use errors::ParseError;
pub use model::JointKind;
pub use model::Model;
pub use model::joint_nq;
pub use model::joint_nv;
pub use parse::JointDecl;
pub use scene::Spec;
