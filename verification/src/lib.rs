//! An expense tracker's core: the SQL statements it hands to its database,
//! the rows it reads back, the decisions of its terminal menus, and the
//! steps that get its database ready.

pub mod text;
pub mod sql;
pub mod connection;
pub mod db;
pub mod manager;
pub mod menus;
pub mod setup;
