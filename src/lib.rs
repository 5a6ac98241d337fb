//! Watches classified listings for the entries of a wishlist: decides which
//! listings match, remembers which were already reported, and writes and reads
//! back the human-readable log of matches.
pub mod codec;
pub mod codec_wetten;
pub mod gezien;
pub mod model;
pub mod monitor;
pub mod prijs;
pub mod resultaten;
pub mod tekst;
pub mod wenslijst;
pub mod zoeken;
