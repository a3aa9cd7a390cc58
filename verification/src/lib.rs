pub mod commands;
pub mod config;
pub mod detector;
pub mod json;
pub mod logic;
pub mod monitor;
pub mod order;
pub mod pattern;
pub mod recorder;
pub mod resolver;
pub mod streams;
pub mod text;
pub mod transcode;
pub mod types;
pub mod urlcodec;
