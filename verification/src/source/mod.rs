pub mod parse;
pub mod semantic;
pub mod tags;
pub mod version;
