pub mod db;
pub mod domains;
mod repositories;

pub use repositories::Repositories;
