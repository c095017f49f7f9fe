pub mod catalog;
pub mod report;
pub mod search;
pub mod text;
