use vstd::prelude::*;

pub mod text;
pub mod fmt;
pub mod json;
pub mod digest;
pub mod db;
pub mod source_identity;
pub mod evidence;
pub mod model;
pub mod ui;
pub mod scanner;
pub mod runtime;
pub mod media_probe;
pub mod probe_output;
pub mod workflow;
pub mod poster_loader;
