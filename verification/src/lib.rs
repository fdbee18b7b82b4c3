//! Verified ingestion core for cryptographically signed 3DS game
//! containers: the fixed-layout binary codecs, the AES-CTR key scrambler,
//! hash- and signature-based region verification with crypto-flag repair,
//! the chunked-upload session state machine, the session registry, and the
//! canonical catalog record with its search keyword.
pub mod aes;
pub mod api;
pub mod bytesio;
pub mod data_format;
pub mod filter;
pub mod icon;
pub mod record;
pub mod registry;
pub mod rsa2048;
pub mod session;
pub mod strutil;
pub mod url;
