use vstd::prelude::*;

pub mod audio;
pub mod camera;
pub mod cancel;
pub mod capture;
pub mod cli;
pub mod clock;
pub mod credentials;
pub mod diagnostics;
pub mod editor;
pub mod export;
pub mod ids;
pub mod input;
pub mod jobs;
pub mod json;
pub mod layout;
pub mod migrate;
pub mod pathjail;
pub mod persistence;
pub mod paths;
pub mod project;
pub mod queue;
pub mod screen;
pub mod session;
pub mod settings;
pub mod text;

verus! {

} // verus!
