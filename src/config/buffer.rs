use vstd::prelude::*;

verus! {

/// Queue capacities.
pub struct Buffer {
    pub tcp_buffer: TcpBuffer,
    pub console_client_buffer: ConsoleClientBuffer,
}

/// Capacities of the transport's inbound (reader) and outbound (writer) queues.
pub struct TcpBuffer {
    pub reader: i64,
    pub writer: i64,
}

/// Capacities of the console's command and response queues.
pub struct ConsoleClientBuffer {
    pub command: i64,
    pub response: i64,
}

} // verus!
