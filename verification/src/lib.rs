pub mod assembler;
pub mod byte_code;
pub mod config;
pub mod exception;
pub mod processor;
pub mod text;
pub mod word;
