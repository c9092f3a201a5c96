//! HLA allele designations: parsing, a database of alleles indexed by
//! equivalence class, the lowest common allele of a set of classes, and
//! ingestion of coding sequences annotated with their designation.
pub mod allele;
pub mod config;
pub mod ingest;
pub mod parser;
