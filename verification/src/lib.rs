pub mod channels;
pub mod collect;
pub mod decode;
pub mod errors;
pub mod frame;
pub mod playback;
pub mod resample;
