use vstd::prelude::*;

pub mod broker;
pub mod browse;
pub mod codec;
pub mod dsp;
pub mod fw_bus;
pub mod library;
pub mod navidrome;
pub mod netstream;
pub mod network;
pub mod ordered;
pub mod output;
pub mod outside;
pub mod playlists;
pub mod plex;
pub mod rocksky;
pub mod s3;
pub mod server;
pub mod settings;
pub mod sigv4;
pub mod subsonic;
pub mod subsonic_lists;
pub mod subsonic_xml;
pub mod text;
pub mod xml;

verus! {

} // verus!
