//! Node graph and address/value resolution for GenAPI register descriptions.

pub mod content;
pub mod device;
pub mod elem_type;
pub mod error;
pub mod formula;
pub mod node;
pub mod node_base;
pub mod node_store;
pub mod number;
pub mod parse;
pub mod policy;
pub mod register;
pub mod register_base;
pub mod resolver;
pub mod swiss_knife;
pub mod text;
pub mod xml;
