pub mod audio;
pub mod calendar;
pub mod calendar_sensor;
pub mod clock;
pub mod config;
pub mod dbus;
pub mod domain;
pub mod external;
pub mod fixture;
mod lists;
pub mod platform;
pub mod seqs;
pub mod table;
pub mod text;
pub mod value;
