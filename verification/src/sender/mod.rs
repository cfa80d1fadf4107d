pub mod upload;
