//! Resource cost monitor: the decisions and text handling behind the display.
pub mod text;
pub mod estimate;
pub mod ranking;
pub mod connections;
pub mod stress;
pub mod prices;
pub mod controls;
pub mod sparkline;
pub mod layout;
pub mod history;
