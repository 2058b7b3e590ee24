//! The local agent of a PC-embodied assistant: it reads command sheets (instructions such as
//! `click 100 200`, `type: hello`, `hotkey: CTRL+S`, `screenshot shot.png`, `wait 500`), turns
//! each instruction into the keyboard, mouse, screen and timer work it asks for, and reports
//! and logs the result of every command.

pub mod text;
pub mod instruction;
pub mod input;
pub mod command;
pub mod audio;
pub mod screen;
pub mod body;
pub mod tray;
pub mod runner;
pub mod sheet;
pub mod server;
pub mod repl;
