//! Verified control logic for the Puget physical-modelling instruments: the
//! deterministic noise source, the generative sequencer, the macro bus, the
//! gate input and the text formats the instruments read.

pub mod controls;
pub mod cv;
pub mod ensemble;
pub mod euclid;
pub mod macros;
pub mod notename;
pub mod preset;
pub mod rng;
pub mod scala;
pub mod scale;
pub mod sequencer;
pub mod voice_alloc;
