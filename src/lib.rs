//! Discovery and repair of the editor's command-line IPC socket, and the
//! command handed to the editor executable once the socket is settled.

pub mod classify;
pub mod command;
pub mod resolve;
pub mod trace;
