//! The verified core of an echo server that speaks to each peer over a
//! message-framed connection, and a few small verified utilities for
//! text and data.
//!
//! The server's decisions are state machines without I/O: [`session`]
//! runs one connection from the handshake to its release, [`supervisor`]
//! runs the accept loop, [`transform`] is the rule applied to every
//! payload, and [`trace`] states what holds of whole runs. A driver
//! performs the I/O and reports each outcome.
//!
//! [`text`] and [`encoding`] split and search text by its bytes and say
//! what that means for its characters; [`minigrep`] searches the lines
//! of a text. The other modules are small exercises on values, records
//! and traits.

pub mod encoding;
pub mod enums;
pub mod generics;
pub mod message;
pub mod minigrep;
pub mod ownership;
pub mod session;
pub mod structure;
pub mod summary;
pub mod supervisor;
pub mod text;
pub mod trace;
pub mod transform;
