//! Keeps a machine awake. The library decides and states what it decides: it
//! reads the duration argument, binds the power framework by its three entry
//! points and reads their answers, and takes one run through its life, from
//! the first assertion to the release of the last; the program around it
//! does what only a program can do.

pub mod assertions;
pub mod civil;
pub mod controller;
pub mod driver;
pub mod duration;
pub mod error;
pub mod grammar;
pub mod instances;
pub mod iokit;
pub mod power;
pub mod schedule;
pub mod startup;
pub mod trace;
