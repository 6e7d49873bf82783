//! A bridge to a debugger's Machine Interface (MI): the line grammar and its
//! parser, decoders for the debugger's entities, the token dispatcher, the
//! session state machine and the command surface.
pub mod text;
pub mod types;
pub mod parser;
pub mod decode;
pub mod session;
pub mod dispatch;
pub mod commands;
pub mod protocol;
pub mod roundtrip;
