pub mod agent;
pub mod detection;
pub mod pi;
pub mod provider;
pub mod terminal;
pub mod workspace;
