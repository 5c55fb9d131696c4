//! What the parts of the library promise as a whole.
//!
//! Each law here states what an operation does in terms of what goes into it and
//! what comes out of it, for all inputs.

pub mod access;
pub mod addresses;
pub mod channels;
pub mod clients;
pub mod faults;
pub mod formats;
pub mod forms;
pub mod lists;
pub mod messages;
pub mod outcomes;
pub mod pages;
pub mod requests;
pub mod screens;
pub mod servers;
pub mod sessions;
pub mod settings;
pub mod views;
pub mod wakes;
pub mod words;
