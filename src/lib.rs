//! Resolves the public function and record declarations of a source file into a
//! language-neutral description of each function's signature, plus a registry of
//! every record type those signatures reach.

pub mod capture;
pub mod ir;
pub mod laws;
pub mod model;
pub mod parser;
pub mod source;
pub mod text;
