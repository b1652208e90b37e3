//! Host-side logic of an application frame host: the configuration of a
//! hosted server, the plans to start and stop it, the routing of log
//! messages to their sinks, and the decisions of the main loop and the web
//! front end. The process, file, terminal and network work is left to the
//! caller, who carries out the plans and deliveries these modules return.
use vstd::prelude::*;

pub mod basic_logger;
pub mod config;
pub mod drains;
pub mod logging;
pub mod paths;
pub mod server;
pub mod supervisor;
pub mod text;
pub mod web;
