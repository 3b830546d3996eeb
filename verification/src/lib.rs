//! A local process supervisor: the rules by which a Procfile is read, a
//! command line becomes a pipeline, a worker changes state and the
//! coordinator answers a request on its control socket.

pub mod client;
pub mod command;
pub mod index;
pub mod messages;
pub mod paths;
pub mod procfile;
pub mod server;
pub mod service;
pub mod tasks;
pub mod text;
pub mod worker;
