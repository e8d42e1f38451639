//! A peer-to-peer SOCKS5 tunnel core: framed message codec, first-packet
//! sniffers, SOCKS5 front-end decisions, session state machine, and the
//! bidirectional relay bookkeeping, all with verified contracts.

pub mod codec;
pub mod http;
pub mod logging;
pub mod relay;
pub mod sni;
pub mod socks5;
pub mod state;
pub mod text;
