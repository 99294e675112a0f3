//! Rchat: an encrypted two-party chat with file transfer.
//!
//! The library holds the chat's logic: the text helpers, the key and
//! message encryption built on `aes-gcm`, `ecies`, `k256` and `hex`, the
//! wire framing of messages and files, the password handshake and the
//! chat shell's state machine.  Sockets, files, the terminal and the
//! async runtime stay with the program that drives it.

pub mod auth;
pub mod crypto;
pub mod hexcodec;
pub mod protocol;
pub mod shell;
pub mod text;
pub mod view;
