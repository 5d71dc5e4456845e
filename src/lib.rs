//! Locates build-artifact directories in a project tree and decides how each
//! one is cleaned: the rule resolver, the traversal engine's decisions and the
//! bookkeeping of the worker pool.

pub mod text;
pub mod error;
pub mod cmd;
pub mod conf;
pub mod walk;
pub mod pool;
pub mod run;

pub use error::Error;
