pub mod case;
pub mod net;
pub mod number;
pub mod phone;
pub mod random;
pub mod rtp;
pub mod sip;
pub mod text;
