//! Backend engine for a graphical file manager: cancellable directory
//! streaming, thumbnail caching and resolution, and bulk transfer planning
//! and execution with interactive conflict resolution.

pub mod cancel;
pub mod cmd;
pub mod errors;
pub mod executor;
pub mod ffutils;
pub mod fsmodel;
pub mod home;
pub mod layouts;
pub mod nav;
pub mod opstream;
pub mod planner;
pub mod resolver;
pub mod snapshot;
pub mod stream;
pub mod strutil;
pub mod thumbs;
