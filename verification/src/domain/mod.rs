pub mod agent;
pub mod ids;
pub mod provider;
pub mod session;
pub mod terminal;
pub mod workspace;
