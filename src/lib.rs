pub mod binding;
pub mod error;
pub mod grammar;
pub mod load_type;
pub mod number;
pub mod order;
pub mod pack;
pub mod parser;
pub mod pipeline;
pub mod processor;
pub mod source;
pub mod text;
