//! Defines enums by the differences of their variants: a set of shared
//! fields is injected into every variant, and a read-only accessor is
//! generated for each shared field.

pub mod model;
pub mod error;
pub mod inject;
pub mod accessor;
pub mod expand;
pub mod lemmas;
pub mod render;

pub use accessor::{Accessor, Instance};
pub use error::ExpandError;
pub use expand::{common_fields, Expansion};
pub use model::{FieldDecl, ItemDef, ItemKind, Payload, UnionDef, VariantDef};
