//! Commands Module
//!
//! This module contains all server commands that can be sent or
//! received by the server.

pub mod bye;
pub mod hello;
pub mod putobj;

pub use crate::utils::get_messageblocks_groups;
pub use bye::ByeCommand;
pub use hello::HelloCommand;
pub use putobj::{ObjProperties, PutObjCommand, PutOperation};
