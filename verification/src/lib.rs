//! Verified core of the EasyTier peer center and of its ACL chain selection.

pub mod acl_chain;
pub mod link_order;
pub mod digest;
pub mod rpc;
pub mod store;
pub mod server;
