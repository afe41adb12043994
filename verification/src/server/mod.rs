//! The session side: what travels between connections and the registry, the
//! users, the registry itself and the dispatcher that applies events to it.

pub mod dispatch;
pub mod service;
pub mod state;
pub mod user;
