pub mod error;
pub mod execute;
pub mod fold;
pub mod ops;
pub mod pipeline;
pub mod table;
