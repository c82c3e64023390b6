pub mod text;
pub mod sort;
pub mod text_map;
pub mod models;
pub mod vocab;
pub mod prose;
pub mod cli;
pub mod prompt;
pub mod llm;
pub mod api;
pub mod db;
pub mod distill;
