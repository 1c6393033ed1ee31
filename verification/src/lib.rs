//! The decision core of a controller that runs Kubernetes operators as
//! WebAssembly components.

pub mod api;
pub mod cli;
pub mod clock;
pub mod controller;
pub mod crd;
pub mod examples;
pub mod kubernetes;
pub mod metadata;
pub mod operator;
pub mod outside;
pub mod prediction;
pub mod settings;
pub mod stats;
pub mod stream_handler;
pub mod text;
pub mod wasmengine;
pub mod watch;
