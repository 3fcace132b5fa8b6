//! The four operations on sessions that the HTTP surface offers.

pub mod close_socket;
pub mod connect_socket;
pub mod get_socket;
pub mod send_socket;
