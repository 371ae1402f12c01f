//! Verified core of a terminal browser for RDF data reached through SPARQL.
pub mod app;
pub mod rdf;
pub mod ui;
pub mod util;
