//! Operators to try the controller with.

pub mod ring_operator;
pub mod simple_controller;
pub mod simple_operator;
