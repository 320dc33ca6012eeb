//! Core logic of a pointer-shake gesture monitor.
//!
//! A background loop samples the pointer once per tick, counts rapid
//! left-right direction reversals while the primary button is held, and on a
//! full shake asks for an auxiliary window to be shown at a screen-safe
//! position.  The same loop later asks for the window to be hidden after a
//! period of inactivity, unless a cross-thread activity signal (a completed
//! file drop) suppresses the hide.
//!
//! Everything here is pure decision logic: the operating-system queries
//! (pointer position, button state, foreground process, screen size) and the
//! window manipulation are performed by the embedding application, which
//! feeds samples in and executes the intents that come out.

pub mod config;
pub mod files;
pub mod hotkey;
pub mod icon;
pub mod monitor;
pub mod screen;
pub mod shake;
pub mod visibility;
