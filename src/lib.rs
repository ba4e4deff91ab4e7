pub mod unit_of_measurement;
pub mod text;
pub mod input;
pub mod app;
pub mod command;
