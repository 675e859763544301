use vstd::prelude::*;

pub mod api;
pub mod app;
pub mod config;
pub mod custom;
pub mod handler;
pub mod input;
pub mod interpretator;
pub mod logger;
pub mod mock;
pub mod modbus;
pub mod num_ops;
pub mod parse;
pub mod register;
pub mod settings;
pub mod state;
pub mod text;
