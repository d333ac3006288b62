//! Version-range annotations on the fields of a structure: the grammar of the
//! annotations, the rule by which several of them combine, and the text of the
//! accessor routines and of the serialization method that they give rise to.

pub mod token;
pub mod meta;
pub mod grammar;
pub mod synth;
pub mod laws;

pub use crate::meta::{Error, VersionMeta};
pub use crate::synth::{version_derive, Attribute, Field, FieldError, Input};
pub use crate::token::{Literal, Place, Token};
