pub mod constants;
pub mod sqlite;
pub mod utils;
pub mod types;
pub mod schema;
pub mod analysis;
pub mod dashboard;
pub mod explorer;
