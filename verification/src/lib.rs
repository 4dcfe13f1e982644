//! Loader for the Wavefront OBJ subset used by triangulated meshes:
//! a record-oriented line parser that builds an in-memory mesh from
//! `o` / `v` / `vt` / `vn` / `f` records.

pub mod decode;
pub mod gl;
pub mod mesh;
pub mod parser;
pub mod text;
