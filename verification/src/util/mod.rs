pub mod cleanup;
pub mod text;
pub mod url;
