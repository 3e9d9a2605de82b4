//! A relay for Open Sound Control traffic: packet scheduling by time tag,
//! fan-out to listeners, and the avatar key protocol.

pub mod address;
pub mod avatar;
pub mod buffer;
pub mod chars;
pub mod clock;
pub mod codec;
pub mod config;
pub mod crypto;
pub mod destructure;
pub mod dispatch;
pub mod echo;
pub mod fanout;
pub mod handler;
pub mod ids;
pub mod key;
pub mod keyfile;
pub mod number;
pub mod packet;
pub mod queue;
pub mod receiver;
pub mod results;
pub mod text;
pub mod unlock;
