//! Inline terminal graphics: protocol detection, escape-sequence encoding with
//! chunked transmission, thumbnail sizing, synthetic file icons and result caches.

pub mod bitmap;
pub mod cache;
pub mod codec;
pub mod fs;
pub mod graphics;
pub mod icons;
pub mod kitty;
pub mod layout;
pub mod sixel;
pub mod size;
pub mod text;
pub mod thumbnails;
pub mod ui;
