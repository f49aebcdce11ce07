pub mod complete;
pub mod editor;
pub mod exec;
pub mod history;
pub mod line;
pub mod parse;
pub mod parse_lemmas;
pub mod text;
