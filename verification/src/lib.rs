//! Control, bookkeeping and text logic of the TrackHelm audio player,
//! specified and proved with Verus.

pub mod kinds;
pub mod text;
pub mod lru;
pub mod voices;
pub mod transport;
pub mod midi;
pub mod remote;
pub mod playlist;
pub mod export;
pub mod devices;
pub mod frames;
pub mod library;
pub mod order;
pub mod separation;
pub mod splice;
pub mod updates;
