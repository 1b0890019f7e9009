pub mod clock;
pub mod event;
pub mod float_text;
pub mod log_line;
pub mod metrics;
pub mod numbers;
pub mod table;
pub mod text;
pub mod world;
