//! Schema planning, value projection and column assembly for MaxMind DB
//! lookups whose results are delivered as Polars columns.

pub mod schema;
pub mod text;
pub mod value;
pub mod column;
pub mod layout_laws;
pub mod projection;
pub mod cache;
pub mod lookup;
pub mod record_laws;
pub mod route_laws;
pub mod record_plan;
pub mod known;
pub mod schema_laws;
pub mod conversion_laws;
