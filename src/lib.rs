pub mod bytes;
pub mod version;
pub mod upgrade;
pub mod kv;
pub mod world;
pub mod contracts;
pub mod model;
pub mod runner;
pub mod steps;
pub mod facade;
pub mod api;
