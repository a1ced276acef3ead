//! A verified core for a multiplexing gateway proxy.
//!
//! Many downstream clients attach to one logical upstream shard connection.
//! Each client runs the gateway handshake against this library, which
//! classifies client opcodes, validates identify payloads, synthesizes a
//! fresh session bootstrap, and relabels outgoing events with a dense,
//! connection-local sequence number. The surrounding process supplies the
//! sockets, queues and tasks; everything here is pure logic over frame text.

pub mod dispatch;
pub mod forwarder;
pub mod frames;
pub mod identify;
pub mod route;
pub mod scan;
pub mod text;
