//! Decoding of the primitive groups of an OpenStreetMap PBF block into
//! nodes, ways and relations, with every decoder verified against a
//! mathematical description of the block it reads.

pub mod entities;
pub mod error;
pub mod groups;
pub mod laws;
pub mod model;
pub mod objects;
pub mod osmformat;
pub mod stream;
pub mod text;
