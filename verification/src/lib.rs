//! A small runtime for message-driven nodes that speak a line-delimited JSON
//! request/reply protocol: the message envelope and its wire form, the
//! contract of a node, a driver that feeds records to a node, and four nodes.

pub mod broadcast;
pub mod clock;
pub mod codec;
pub mod combined;
pub mod decimal;
pub mod driver;
pub mod echo;
pub mod json;
pub mod members;
pub mod message;
pub mod node;
pub mod topology;
pub mod unique_id;

pub use crate::driver::main_loop;
pub use crate::message::{Message, MessageBody};
pub use crate::node::Node;
