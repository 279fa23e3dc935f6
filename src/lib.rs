//! A peer-to-peer file-transfer client for the BitTorrent peer wire protocol:
//! piece bitfields, the handshake, the message codec, the per-piece download
//! state machine and the bookkeeping of a multi-peer download.
pub mod bitfield;
pub mod message;
pub mod handshake;
pub mod peers;
pub mod session;
pub mod piece;
pub mod torrent;
pub mod p2p;
