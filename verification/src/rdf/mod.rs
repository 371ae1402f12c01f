//! RDF terms: how they are shown, and the SPARQL queries about them.
pub mod display;
pub mod sparql;
