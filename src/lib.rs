//! Session authentication and request gating for a GraphQL service: a store of users and
//! sessions, the resolution of bearer tokens to users, and the decision whether a request may
//! reach GraphQL execution.
pub mod authenticator;
pub mod gate;
pub mod store;
pub mod user;
