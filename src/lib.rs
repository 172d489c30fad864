// Introspection of a desktop compositor's display configuration: a strict
// model of the "current state" reply (`model`), its schema-checked loading
// (`raw`, `load`), the connector-filtered report (`query`, `text`), and the
// laws that relate them (`laws`).

pub mod laws;
pub mod load;
pub mod model;
pub mod query;
pub mod raw;
pub mod text;
