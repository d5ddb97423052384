//! Building blocks of an end-to-end encrypted file share with
//! self-destructing transfers.
pub mod encoding;
pub mod time;
pub mod encryption;
pub mod storage;
pub mod network;
pub mod qr;
pub mod api;
