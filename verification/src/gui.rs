//! The window's logic: its state, what each click and each reply from Steam
//! does to it, and what the painted pieces say. Drawing is the program's
//! business; every decision is here.

pub mod app;
pub mod theme;
pub mod widgets;
pub mod worker;
