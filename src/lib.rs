//! A bounded-concurrency runner for numbered frame builds: configuration,
//! task naming, the dispatch protocol and the progress accounting.
pub mod collector;
pub mod config;
pub mod dispatch;
pub mod frames;
pub mod outcome;
pub mod progress;
pub mod text;
