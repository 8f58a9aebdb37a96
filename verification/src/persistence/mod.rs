pub mod order;
pub mod sqlite;
pub mod terminal_records;
pub mod workspace_registry;
