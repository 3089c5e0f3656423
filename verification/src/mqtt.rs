//! The codec: wire values, packets, and the frame that carries one packet
//! per datagram.

pub mod codec;
pub mod error;
pub mod frame;
pub mod impls;
pub mod laws;
pub mod packets;
pub mod types;
pub mod wire;

pub use error::DecodeError;
pub use types::{ConnectReturnCode, MessageType, QoS, SubAckReturnCode};
pub use packets::{
    ConnAck, Connect, ConnectView, Disconnect, FilterView, PingReq, PingResp, PubAck, Publish,
    PublishView, SubAck, Subscribe, SubscribeFilter,
};
pub use codec::{Decode, Encode};
pub use frame::{FrameView, Packet, PacketView, UdpFrame};
