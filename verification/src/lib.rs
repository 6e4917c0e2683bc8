//! Decisions of a converter from a read-only source archive to a
//! content-addressed pack: which entries are kept, in which groups they are
//! warmed up, to which content store an item goes and how it is read, and how
//! the single main entry of the output comes about.

pub mod converter;
pub mod entry;
pub mod feeder;
pub mod namespace;
pub mod router;
pub mod text;
