//! A verified core for an alacritty theme switcher.
//!
//! The library reads the current theme out of a configuration text,
//! splits the helper program's listing into theme names, locates the
//! current theme in that list, and decides from the one command-line
//! argument what to do: cycle forwards or backwards, print, pick
//! interactively, or switch to a named theme directly. The surrounding
//! binary does the file, process and terminal work and hands the
//! library plain values.

pub mod config;
pub mod dispatch;
pub mod style;
pub mod text;
pub mod themes;
