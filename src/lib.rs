pub mod coordinator;
pub mod eit;
pub mod flatten;
pub mod ids;
pub mod index;
pub mod models;
pub mod schedule;
pub mod segment;
pub mod service;
pub mod table;
pub mod time;
