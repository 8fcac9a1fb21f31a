//! The named kinds of instrument a voice is built as: the handpan build and
//! size, the playing articulation, the bowed-string kinds and the mallet
//! instruments.

use vstd::prelude::*;

verus! {

/// How the note fields are formed in the steel.
#[derive(Clone, Copy, Debug, PartialEq, Eq, Structural)]
pub enum Build {
    /// Dimpled / domed tone fields, hammered: the classic handpan.
    Handpan,
    /// Cut tongues (steel tongue drum / tank drum).
    TongueDrum,
}

/// Physical size of the instrument (shell diameter / tongue mass).
#[derive(Clone, Copy, Debug, PartialEq, Eq, Structural)]
pub enum Size {
    /// Small shell / short tongues: bright, quick decay.
    Small,
    /// Standard concert size.
    Standard,
    /// Large shell / long tongues: warm, long sustain.
    Large,
    /// Bass instrument: deep, very long sustain, dark.
    Bass,
}

/// A playing articulation on a tone field.
#[derive(Clone, Copy, Debug, PartialEq, Eq, Structural)]
pub enum Artic {
    /// An open, ringing tone.
    Open,
    /// A muted hit.
    Mute,
    /// A slap.
    Slap,
}

/// A bowed-string instrument.
#[derive(Clone, Copy, Debug, PartialEq, Eq, Structural)]
pub enum StringKind {
    Violin,
    Viola,
    Cello,
    Bass,
    /// The Persian kamancheh: a small upright spike fiddle with a skin face.
    Kamancheh,
    /// The traditional fiddle: a violin voiced for the trad repertoire.
    Fiddle,
}

/// A named mallet / bell instrument.
#[derive(Clone, Copy, Debug, PartialEq, Eq, Structural)]
pub enum Instrument {
    Marimba,
    Xylophone,
    Vibraphone,
    Glockenspiel,
    TubularBell,
    ChurchBell,
    MusicBox,
    SingingBowl,
}

} // verus!
