//! Integer core of a terminal audio visualizer: the pseudo-random generator,
//! the layout of the screens, the partition of a sample window into bands,
//! the decoding of interleaved audio frames and the small state machines
//! that the drawing loops step once per frame.
pub mod bands;
pub mod cull;
pub mod dashboard;
pub mod feed;
pub mod glyphs;
pub mod layout;
pub mod links;
pub mod menu;
pub mod pcm;
pub mod peak;
pub mod ring;
pub mod rng;
