pub mod atoms;
pub mod niltree;
pub mod text;
pub mod output;
pub mod listing;
pub mod laws;
