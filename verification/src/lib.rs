pub mod check;
pub mod common;
pub mod entities;
pub mod repos;
pub mod schedule;

pub use common::net;
pub use repos::domains;
pub use repos::Repositories;
