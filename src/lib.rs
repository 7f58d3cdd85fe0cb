//! The embedded persistence layer of a desktop application: a codec between
//! dynamic request values and SQLite cells, the bridge that plans SQL
//! requests and decodes their rows, and the migration engine that decides
//! which migration scripts run and records them.
pub mod bridge;
pub mod codec;
pub mod logger;
pub mod migration;
pub mod script;
pub mod text;
