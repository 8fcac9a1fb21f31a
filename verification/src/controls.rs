//! The firmware control surface of the handpan module: the index-addressed
//! controls a pot binder sees, and the integer codes the C side sends for
//! scale, size, articulation and play mode.

use vstd::prelude::*;

use crate::preset::{Artic, Size};
use crate::scale::{named_scales, Scale};
use crate::sequencer::PlayMode;

verus! {

/// Number of index-addressed controls.
pub const CONTROL_COUNT: usize = 6;

/// The label of control `idx`, if there is such a control.
pub open spec fn control_label_spec(idx: int) -> Option<Seq<char>> {
    if idx == 0 {
        Some("Scale"@)
    } else if idx == 1 {
        Some("Size"@)
    } else if idx == 2 {
        Some("Air"@)
    } else if idx == 3 {
        Some("Damp"@)
    } else if idx == 4 {
        Some("Interact"@)
    } else if idx == 5 {
        Some("Halo"@)
    } else {
        None
    }
}

/// The label of control `idx`: Scale, Size, Air, Damp, Interact, Halo.
pub fn control_label(idx: usize) -> (r: Option<&'static str>)
    ensures
        r is Some <==> idx < CONTROL_COUNT,
        r matches Some(s) ==> control_label_spec(idx as int) == Some(s@),
        r is None ==> control_label_spec(idx as int) is None,
{
    match idx {
        0 => Some("Scale"),
        1 => Some("Size"),
        2 => Some("Air"),
        3 => Some("Damp"),
        4 => Some("Interact"),
        5 => Some("Halo"),
        _ => None,
    }
}

/// The bytes of control `idx`'s label (empty when there is no such control).
pub open spec fn label_bytes(idx: int) -> Seq<u8> {
    if idx == 0 {
        seq![83u8, 99, 97, 108, 101]
    } else if idx == 1 {
        seq![83u8, 105, 122, 101]
    } else if idx == 2 {
        seq![65u8, 105, 114]
    } else if idx == 3 {
        seq![68u8, 97, 109, 112]
    } else if idx == 4 {
        seq![73u8, 110, 116, 101, 114, 97, 99, 116]
    } else if idx == 5 {
        seq![72u8, 97, 108, 111]
    } else {
        Seq::empty()
    }
}

fn label_vec(idx: usize) -> (v: Vec<u8>)
    ensures
        v@ == label_bytes(idx as int),
{
    let mut v: Vec<u8> = Vec::new();
    match idx {
        0 => {
            v.push(83);
            v.push(99);
            v.push(97);
            v.push(108);
            v.push(101);
        },
        1 => {
            v.push(83);
            v.push(105);
            v.push(122);
            v.push(101);
        },
        2 => {
            v.push(65);
            v.push(105);
            v.push(114);
        },
        3 => {
            v.push(68);
            v.push(97);
            v.push(109);
            v.push(112);
        },
        4 => {
            v.push(73);
            v.push(110);
            v.push(116);
            v.push(101);
            v.push(114);
            v.push(97);
            v.push(99);
            v.push(116);
        },
        5 => {
            v.push(72);
            v.push(97);
            v.push(108);
            v.push(111);
        },
        _ => {},
    }
    assert(v@ =~= label_bytes(idx as int));
    v
}

/// Copy control `idx`'s label into `buf` (as much as fits, not terminated)
/// and return the label's full length; 0 when there is no such control.
pub fn copy_control_label(idx: usize, buf: &mut [u8]) -> (n: usize)
    ensures
        n == label_bytes(idx as int).len(),
        final(buf)@.len() == old(buf)@.len(),
        forall|k: int|
            0 <= k < final(buf)@.len() ==> #[trigger] final(buf)@[k] == (if k < n {
                label_bytes(idx as int)[k]
            } else {
                old(buf)@[k]
            }),
{
    let label = label_vec(idx);
    let m = if label.len() < buf.len() {
        label.len()
    } else {
        buf.len()
    };
    let mut i: usize = 0;
    while i < m
        invariant
            m <= label@.len(),
            m <= buf@.len(),
            i <= m,
            label@ == label_bytes(idx as int),
            buf@.len() == old(buf)@.len(),
            forall|k: int|
                0 <= k < buf@.len() ==> #[trigger] buf@[k] == (if k < i {
                    label@[k]
                } else {
                    old(buf)@[k]
                }),
        decreases m - i,
    {
        buf[i] = label[i];
        i = i + 1;
    }
    label.len()
}

/// The named tuning for a scale code: codes past the last tuning select it.
pub fn scale_of(i: u32) -> (s: Scale)
    ensures
        s == named_scales()[if i < 7 {
            i as int
        } else {
            7
        }],
{
    let all = Scale::all_named();
    let k: usize = if i < 7 {
        i as usize
    } else {
        7
    };
    all[k]
}

/// The size for a size code: 0 small, 1 standard, 2 large, anything else bass.
pub fn size_of(i: u32) -> (s: Size)
    ensures
        s == (if i == 0 {
            Size::Small
        } else if i == 1 {
            Size::Standard
        } else if i == 2 {
            Size::Large
        } else {
            Size::Bass
        }),
{
    match i {
        0 => Size::Small,
        1 => Size::Standard,
        2 => Size::Large,
        _ => Size::Bass,
    }
}

/// The articulation for an articulation code: 1 mute, 2 slap, anything else
/// open.
pub fn artic_of(i: u32) -> (a: Artic)
    ensures
        a == (if i == 1 {
            Artic::Mute
        } else if i == 2 {
            Artic::Slap
        } else {
            Artic::Open
        }),
{
    match i {
        1 => Artic::Mute,
        2 => Artic::Slap,
        _ => Artic::Open,
    }
}

/// The play mode for a mode code: 1 up, 2 down, 3 up-down, 4 random,
/// 5 wander, 6 euclid, anything else manual.
pub fn play_mode_of(mode: u32) -> (m: PlayMode)
    ensures
        m == (if mode == 1 {
            PlayMode::Up
        } else if mode == 2 {
            PlayMode::Down
        } else if mode == 3 {
            PlayMode::UpDown
        } else if mode == 4 {
            PlayMode::Random
        } else if mode == 5 {
            PlayMode::Wander
        } else if mode == 6 {
            PlayMode::Euclid
        } else {
            PlayMode::Manual
        }),
{
    match mode {
        1 => PlayMode::Up,
        2 => PlayMode::Down,
        3 => PlayMode::UpDown,
        4 => PlayMode::Random,
        5 => PlayMode::Wander,
        6 => PlayMode::Euclid,
        _ => PlayMode::Manual,
    }
}

} // verus!
