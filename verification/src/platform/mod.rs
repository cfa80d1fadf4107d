pub mod matcher;
