//! Value-storage and lifecycle core of an embeddable, dynamically-typed
//! scripting-language runtime: an insertion-ordered associative container with
//! precomputed-hash lookup, the hash handles it is keyed by, the polymorphic
//! heap-value envelope with its trace/freeze lifecycle, and the freezer that
//! turns a mutable heap into an immutable, shareable value graph.

pub mod avalue;
pub mod hashed;
pub mod heap;
pub mod known;
pub mod payload;
pub mod value;
pub mod vec_map;
