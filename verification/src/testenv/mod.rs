//! The logic of `bdk_testenv`: building and mining blocks, and the decisions of its waiting and
//! reorganisation loops. The node and the Electrum server themselves are driven by `app/`.
pub mod compat;
pub mod mine;
pub mod env;
