use vstd::prelude::*;

pub mod app;
pub mod battery;
pub mod braille;
pub mod cli;
pub mod config;
pub mod cpu;
pub mod devices;
pub mod gauge;
pub mod history;
pub mod network;
pub mod panels;
pub mod process;
pub mod text;
pub mod theme;
pub mod updater;

verus! {

} // verus!
