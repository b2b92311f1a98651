//! Core of an SHV RPC client: the event-loop state machine that
//! correlates requests with responses, fans signal notifications out to
//! subscribers, and dispatches inbound requests to a tree of mounted
//! nodes.
//!
//! The core is purely synchronous: it consumes application commands and
//! transport events and returns the outputs (frames to send, deliveries
//! to sinks, broadcasts, handler dispatches) that an embedding runtime
//! performs.

pub mod appnodes;
pub mod client;
pub mod clientnode;
pub mod laws;
pub mod message;
pub mod metamethod;
pub mod shvpath;
pub mod subscriptions;
pub mod value;

pub use appnodes::DotAppNode;
pub use appnodes::DotDeviceNode;
pub use client::AppData;
pub use client::Client;
pub use client::ClientCommand;
pub use client::ClientEvent;
pub use client::ConnectionEvent;
pub use client::LoopState;
pub use client::Output;
pub use client::create_subscription_request;
pub use client::next_subscription_id;
pub use clientnode::ClientNode;
pub use clientnode::Route;
pub use clientnode::RouteTarget;
pub use message::ErrorCode;
pub use message::Message;
pub use message::MsgKind;
pub use message::RpcError;
pub use metamethod::AccessLevel;
pub use metamethod::MetaMethod;
pub use subscriptions::Subscriptions;
pub use value::Value;
