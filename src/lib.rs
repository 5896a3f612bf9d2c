//! Menu description and click dispatch for the 3D generation desktop shell.
//!
//! The library holds the logic as plain data: the fixed menu tree that the
//! host window displays, the closed set of actions it offers, and the rule
//! that turns a click on an item into the event sent to the front end.
//! The host shell itself (creating native menus, emitting events) lives
//! outside the library.

pub mod text;
pub mod action;
pub mod dispatch;
pub mod menu;
