pub mod egui_map;
pub mod error;
pub mod keys;
pub mod tiny_lexer;
