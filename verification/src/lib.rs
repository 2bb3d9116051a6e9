//! Query building and result rendering for a Bugzilla (BMO) search client.
pub mod chart;
pub mod detail;
pub mod laws;
pub mod laws_detail;
pub mod laws_output;
pub mod laws_query;
pub mod laws_related;
pub mod laws_text;
pub mod model;
pub mod occurs;
pub mod query;
pub mod render;
pub mod status;
pub mod text;
