pub mod generated;
pub mod layout;
pub mod load_json;
pub mod numbers;
pub mod patterns;
pub mod render;
pub mod tables;
pub mod weekday;
