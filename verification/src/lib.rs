pub mod db;
pub mod defs;
pub mod laws;
pub mod loader;
pub mod oracle;
pub mod order;
pub mod resolve;
pub mod table;
pub mod text;
