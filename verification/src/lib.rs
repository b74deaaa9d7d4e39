//! Logic of a Pomodoro timer firmware for a 32x8 pixel clock: the session
//! state machine, the persisted settings and statistics with their A/B flash
//! slot format, wall-clock arithmetic, SNTP packets, button debouncing and
//! the screens drawn on the LED matrix.

pub mod control;
pub mod display;
pub mod input;
pub mod pomodoro;
pub mod storage;
pub mod time;
pub mod ui;
