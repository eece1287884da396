//! Control core of a polyphonic bass synthesizer: voice allocation and
//! stealing, the envelope stage machine, the arpeggiator's held-note stack and
//! sequencer, the pseudo-random generator that drives random arpeggios, and
//! the cursors of the delay line. The sample arithmetic itself runs outside
//! this crate and reads the decisions made here.
pub mod arp;
pub mod engine;
pub mod envelope;
pub mod params;
pub mod rng;
pub mod voices;
