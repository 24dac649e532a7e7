//! Persistent snapshot of the module's settings and its framing with a
//! checksum.
//!
//! Floating-point settings (calibrations) are kept by their IEEE 754 bit
//! patterns, so the snapshot and its bytes are plain integers. The tapped
//! tempo is kept in control cycles.

use crate::cache::configuration::{Configuration, DisplayPage};
use crate::cache::{DelayRange, Options, WowFlutterPlacement};
use crate::codec::{
    from_le_u16, from_le_u32, from_le_u64, le_u16, le_u32, le_u64, lemma_from_le_u16,
    lemma_from_le_u32, lemma_from_le_u64, lemma_le_u16, lemma_le_u32, lemma_le_u64, push_u16,
    push_u32, push_u64, read_u16, read_u32, read_u64,
};
use crate::mapping::{AttributeIdentifier, Mapping};
use crc::{Crc, CRC_16_USB};
use vstd::prelude::*;

verus! {

/// Calibration of one control input: bit patterns of its offset and scaling.
#[derive(Debug, Clone, Copy, PartialEq, Eq, Structural)]
pub struct StoredCalibration {
    pub offset: u32,
    pub scaling: u32,
}

/// Bit pattern of `1.0_f32`, the scaling of an uncalibrated input.
pub const UNIT_SCALING_BITS: u32 = 0x3f80_0000;

impl StoredCalibration {
    /// No offset and unit scaling.
    pub open spec fn new_spec() -> Self {
        StoredCalibration { offset: 0, scaling: UNIT_SCALING_BITS }
    }

    /// No offset and unit scaling.
    pub fn new() -> (calibration: Self)
        ensures
            calibration == Self::new_spec(),
    {
        StoredCalibration { offset: 0, scaling: UNIT_SCALING_BITS }
    }
}

impl Default for StoredCalibration {
    fn default() -> (calibration: Self)
        ensures
            calibration.offset == 0,
            calibration.scaling == UNIT_SCALING_BITS,
    {
        Self::new()
    }
}

/// Everything that survives a power cycle.
#[derive(Debug, Clone, Copy, PartialEq)]
pub struct Save {
    pub mapping: Mapping,
    pub calibrations: [StoredCalibration; 4],
    pub options: Options,
    pub configuration: Configuration,
    /// Tempo tapped in with the button, in control cycles.
    pub tapped_tempo: Option<u32>,
}

// ---------------------------------------------------------------------------
// Encoding of the fields.

pub open spec fn enc_bool(b: bool) -> Seq<u8> {
    seq![if b { 1u8 } else { 0u8 }]
}

pub open spec fn enc_usize(x: usize) -> Seq<u8> {
    le_u64(x as u64)
}

pub open spec fn attribute_tag(a: AttributeIdentifier) -> u8 {
    match a {
        AttributeIdentifier::PreAmp => 0,
        AttributeIdentifier::Drive => 1,
        AttributeIdentifier::Bias => 2,
        AttributeIdentifier::DryWet => 3,
        AttributeIdentifier::WowFlut => 4,
        AttributeIdentifier::Speed => 5,
        AttributeIdentifier::Tone => 6,
        AttributeIdentifier::Position(_) => 7,
        AttributeIdentifier::Volume(_) => 8,
        AttributeIdentifier::Feedback(_) => 9,
        AttributeIdentifier::Pan(_) => 10,
        AttributeIdentifier::Unmapped => 11,
    }
}

pub open spec fn attribute_head(a: AttributeIdentifier) -> usize {
    match a {
        AttributeIdentifier::Position(i) => i,
        AttributeIdentifier::Volume(i) => i,
        AttributeIdentifier::Feedback(i) => i,
        AttributeIdentifier::Pan(i) => i,
        _ => 0,
    }
}

/// A tag byte followed by the head index (zero for attributes of no head).
pub open spec fn enc_attribute(a: AttributeIdentifier) -> Seq<u8> {
    seq![attribute_tag(a)] + enc_usize(attribute_head(a))
}

pub open spec fn enc_option_usize(o: Option<usize>) -> Seq<u8> {
    match o {
        Some(x) => seq![1u8] + enc_usize(x),
        None => seq![0u8] + enc_usize(0),
    }
}

pub open spec fn enc_option_u32(o: Option<u32>) -> Seq<u8> {
    match o {
        Some(x) => seq![1u8] + le_u32(x),
        None => seq![0u8] + le_u32(0),
    }
}

pub open spec fn enc_delay_range(r: DelayRange) -> Seq<u8> {
    seq![
        match r {
            DelayRange::Long => 0u8,
            DelayRange::Short => 1u8,
            DelayRange::Audio => 2u8,
        },
    ]
}

pub open spec fn enc_placement(p: WowFlutterPlacement) -> Seq<u8> {
    seq![
        match p {
            WowFlutterPlacement::Input => 0u8,
            WowFlutterPlacement::Read => 1u8,
            WowFlutterPlacement::Both => 2u8,
        },
    ]
}

pub open spec fn enc_display_page(p: DisplayPage) -> Seq<u8> {
    seq![
        match p {
            DisplayPage::Heads => 0u8,
            DisplayPage::Position => 1u8,
        },
    ]
}

pub open spec fn enc_mapping(m: Mapping) -> Seq<u8> {
    enc_attribute(m[0]) + enc_attribute(m[1]) + enc_attribute(m[2]) + enc_attribute(m[3])
}

pub open spec fn enc_calibration(c: StoredCalibration) -> Seq<u8> {
    le_u32(c.offset) + le_u32(c.scaling)
}

pub open spec fn enc_calibrations(c: [StoredCalibration; 4]) -> Seq<u8> {
    enc_calibration(c[0]) + enc_calibration(c[1]) + enc_calibration(c[2]) + enc_calibration(c[3])
}

pub open spec fn bool_byte(b: bool) -> u8 {
    if b {
        1
    } else {
        0
    }
}

pub open spec fn delay_range_byte(r: DelayRange) -> u8 {
    match r {
        DelayRange::Long => 0,
        DelayRange::Short => 1,
        DelayRange::Audio => 2,
    }
}

pub open spec fn placement_byte(p: WowFlutterPlacement) -> u8 {
    match p {
        WowFlutterPlacement::Input => 0,
        WowFlutterPlacement::Read => 1,
        WowFlutterPlacement::Both => 2,
    }
}

/// One byte per option.
pub open spec fn enc_options(o: Options) -> Seq<u8> {
    seq![
        bool_byte(o.quantize_8),
        bool_byte(o.quantize_6),
        delay_range_byte(o.delay_range),
        bool_byte(o.rewind),
        bool_byte(o.enable_oscillator),
        bool_byte(o.random_impulse),
        bool_byte(o.filter_feedback),
        placement_byte(o.wow_flutter_placement),
        bool_byte(o.unlimited),
    ]
}

pub open spec fn enc_rewind(r: (usize, usize)) -> Seq<u8> {
    enc_usize(r.0) + enc_usize(r.1)
}

pub open spec fn enc_rewinds(r: [(usize, usize); 4]) -> Seq<u8> {
    enc_rewind(r[0]) + enc_rewind(r[1]) + enc_rewind(r[2]) + enc_rewind(r[3])
}

/// Default page, position reset mapping, pause mapping and tap interval
/// denominator.
pub open spec fn enc_settings(settings: (DisplayPage, Option<usize>, Option<usize>, usize)) -> Seq<
    u8,
> {
    enc_display_page(settings.0) + enc_option_usize(settings.1) + enc_option_usize(settings.2)
        + enc_usize(settings.3)
}

pub open spec fn settings_of(c: Configuration) -> (DisplayPage, Option<usize>, Option<usize>, usize) {
    (
        c.default_display_page,
        c.position_reset_mapping,
        c.pause_resume_mapping,
        c.tap_interval_denominator,
    )
}

pub open spec fn enc_configuration(c: Configuration) -> Seq<u8> {
    enc_rewinds(c.rewind_speed) + enc_settings(settings_of(c))
}

/// The bytes of a save: mapping, calibrations, options, configuration and
/// tapped tempo, one after another.
pub open spec fn enc_save(s: Save) -> Seq<u8> {
    enc_mapping(s.mapping) + enc_calibrations(s.calibrations) + enc_options(s.options)
        + enc_configuration(s.configuration) + enc_option_u32(s.tapped_tempo)
}

pub const MAPPING_SIZE: usize = 36;

pub const CALIBRATIONS_SIZE: usize = 32;

pub const OPTIONS_SIZE: usize = 9;

pub const CONFIGURATION_SIZE: usize = 91;

pub const TEMPO_SIZE: usize = 5;

/// The number of bytes of an encoded save.
pub const SAVE_SIZE: usize = 173;


// ---------------------------------------------------------------------------
// Encoders and decoders of the fields. A decoder reads a field of a fixed
// width at a given position; it succeeds exactly when the bytes there are
// the encoding of a value, and then gives that value.

fn push_bool(out: &mut Vec<u8>, b: bool)
    ensures
        final(out)@ == old(out)@ + enc_bool(b),
{
    out.push(if b { 1 } else { 0 });
    assert(out@ =~= old(out)@ + enc_bool(b));
}

fn read_bool(bytes: &[u8], at: usize) -> (r: Option<bool>)
    requires
        at + 1 <= bytes@.len(),
    ensures
        r matches Some(v) ==> enc_bool(v) == bytes@.subrange(at as int, at + 1),
        forall|v: bool| enc_bool(v) == bytes@.subrange(at as int, at + 1) ==> r == Some(v),
{
    let sub = Ghost(bytes@.subrange(at as int, at + 1));
    assert(sub@[0] == bytes@[at as int]);
    let r = if bytes[at] == 0 {
        Some(false)
    } else if bytes[at] == 1 {
        Some(true)
    } else {
        None
    };
    assert forall|v: bool| enc_bool(v) == sub@ implies r == Some(v) by {
        assert(enc_bool(v)[0] == sub@[0]);
    }
    if let Some(v) = r {
        assert(enc_bool(v) =~= sub@);
    }
    r
}

fn push_usize(out: &mut Vec<u8>, x: usize)
    ensures
        final(out)@ == old(out)@ + enc_usize(x),
{
    push_u64(out, x as u64);
}

fn read_usize(bytes: &[u8], at: usize) -> (r: Option<usize>)
    requires
        at + 8 <= bytes@.len(),
    ensures
        r matches Some(v) ==> enc_usize(v) == bytes@.subrange(at as int, at + 8),
        forall|v: usize| enc_usize(v) == bytes@.subrange(at as int, at + 8) ==> r == Some(v),
{
    let sub = Ghost(bytes@.subrange(at as int, at + 8));
    let x = read_u64(bytes, at);
    proof {
        lemma_from_le_u64(sub@);
    }
    let r = if x <= usize::MAX as u64 {
        Some(x as usize)
    } else {
        None
    };
    assert forall|v: usize| enc_usize(v) == sub@ implies r == Some(v) by {
        lemma_le_u64(v as u64);
    }
    r
}

fn push_tag(out: &mut Vec<u8>, tag: u8)
    ensures
        final(out)@ == old(out)@ + seq![tag],
{
    out.push(tag);
    assert(out@ =~= old(out)@ + seq![tag]);
}

fn push_attribute(out: &mut Vec<u8>, a: AttributeIdentifier)
    ensures
        final(out)@ == old(out)@ + enc_attribute(a),
{
    let (tag, head): (u8, usize) = match a {
        AttributeIdentifier::PreAmp => (0, 0),
        AttributeIdentifier::Drive => (1, 0),
        AttributeIdentifier::Bias => (2, 0),
        AttributeIdentifier::DryWet => (3, 0),
        AttributeIdentifier::WowFlut => (4, 0),
        AttributeIdentifier::Speed => (5, 0),
        AttributeIdentifier::Tone => (6, 0),
        AttributeIdentifier::Position(i) => (7, i),
        AttributeIdentifier::Volume(i) => (8, i),
        AttributeIdentifier::Feedback(i) => (9, i),
        AttributeIdentifier::Pan(i) => (10, i),
        AttributeIdentifier::Unmapped => (11, 0),
    };
    push_tag(out, tag);
    push_usize(out, head);
    assert(out@ =~= old(out)@ + enc_attribute(a));
}

/// The attribute with the given tag and head, if the pair is an encoding.
pub open spec fn attribute_from(tag: u8, head: usize) -> Option<AttributeIdentifier> {
    if tag == 7 {
        Some(AttributeIdentifier::Position(head))
    } else if tag == 8 {
        Some(AttributeIdentifier::Volume(head))
    } else if tag == 9 {
        Some(AttributeIdentifier::Feedback(head))
    } else if tag == 10 {
        Some(AttributeIdentifier::Pan(head))
    } else if head != 0 {
        None
    } else if tag == 0 {
        Some(AttributeIdentifier::PreAmp)
    } else if tag == 1 {
        Some(AttributeIdentifier::Drive)
    } else if tag == 2 {
        Some(AttributeIdentifier::Bias)
    } else if tag == 3 {
        Some(AttributeIdentifier::DryWet)
    } else if tag == 4 {
        Some(AttributeIdentifier::WowFlut)
    } else if tag == 5 {
        Some(AttributeIdentifier::Speed)
    } else if tag == 6 {
        Some(AttributeIdentifier::Tone)
    } else if tag == 11 {
        Some(AttributeIdentifier::Unmapped)
    } else {
        None
    }
}

fn read_attribute(bytes: &[u8], at: usize) -> (r: Option<AttributeIdentifier>)
    requires
        at + 9 <= bytes@.len(),
    ensures
        r matches Some(v) ==> enc_attribute(v) == bytes@.subrange(at as int, at + 9),
        forall|v: AttributeIdentifier|
            enc_attribute(v) == bytes@.subrange(at as int, at + 9) ==> r == Some(v),
{
    let sub = Ghost(bytes@.subrange(at as int, at + 9));
    assert(sub@ =~= seq![bytes@[at as int]] + bytes@.subrange(at + 1, at + 9));
    let tag = bytes[at];
    let head = read_usize(bytes, at + 1);
    let r = match head {
        None => None,
        Some(head) => {
            if tag == 7 {
                Some(AttributeIdentifier::Position(head))
            } else if tag == 8 {
                Some(AttributeIdentifier::Volume(head))
            } else if tag == 9 {
                Some(AttributeIdentifier::Feedback(head))
            } else if tag == 10 {
                Some(AttributeIdentifier::Pan(head))
            } else if head != 0 {
                None
            } else if tag == 0 {
                Some(AttributeIdentifier::PreAmp)
            } else if tag == 1 {
                Some(AttributeIdentifier::Drive)
            } else if tag == 2 {
                Some(AttributeIdentifier::Bias)
            } else if tag == 3 {
                Some(AttributeIdentifier::DryWet)
            } else if tag == 4 {
                Some(AttributeIdentifier::WowFlut)
            } else if tag == 5 {
                Some(AttributeIdentifier::Speed)
            } else if tag == 6 {
                Some(AttributeIdentifier::Tone)
            } else if tag == 11 {
                Some(AttributeIdentifier::Unmapped)
            } else {
                None
            }
        },
    };
    assert forall|v: AttributeIdentifier| enc_attribute(v) == sub@ implies r == Some(v) by {
        assert(enc_attribute(v)[0] == sub@[0]);
        assert(enc_attribute(v).subrange(1, 9) =~= enc_usize(attribute_head(v)));
        assert(sub@.subrange(1, 9) =~= bytes@.subrange(at + 1, at + 9));
    }
    if let Some(v) = r {
        assert(enc_attribute(v) =~= sub@);
    }
    r
}

fn push_option_usize(out: &mut Vec<u8>, o: Option<usize>)
    ensures
        final(out)@ == old(out)@ + enc_option_usize(o),
{
    match o {
        Some(x) => {
            push_tag(out, 1);
            push_usize(out, x);
        },
        None => {
            push_tag(out, 0);
            push_usize(out, 0);
        },
    }
    assert(out@ =~= old(out)@ + enc_option_usize(o));
}

fn read_option_usize(bytes: &[u8], at: usize) -> (r: Option<Option<usize>>)
    requires
        at + 9 <= bytes@.len(),
    ensures
        r matches Some(v) ==> enc_option_usize(v) == bytes@.subrange(at as int, at + 9),
        forall|v: Option<usize>|
            enc_option_usize(v) == bytes@.subrange(at as int, at + 9) ==> r == Some(v),
{
    let sub = Ghost(bytes@.subrange(at as int, at + 9));
    assert(sub@ =~= seq![bytes@[at as int]] + bytes@.subrange(at + 1, at + 9));
    let tag = bytes[at];
    let value = read_usize(bytes, at + 1);
    let r = match value {
        None => None,
        Some(x) => if tag == 1 {
            Some(Some(x))
        } else if tag == 0 && x == 0 {
            Some(None)
        } else {
            None
        },
    };
    assert forall|v: Option<usize>| enc_option_usize(v) == sub@ implies r == Some(v) by {
        assert(enc_option_usize(v)[0] == sub@[0]);
        assert(sub@.subrange(1, 9) =~= bytes@.subrange(at + 1, at + 9));
        match v {
            Some(x) => assert(enc_option_usize(v).subrange(1, 9) =~= enc_usize(x)),
            None => assert(enc_option_usize(v).subrange(1, 9) =~= enc_usize(0)),
        }
    }
    if let Some(v) = r {
        assert(enc_option_usize(v) =~= sub@);
    }
    r
}

fn push_option_u32(out: &mut Vec<u8>, o: Option<u32>)
    ensures
        final(out)@ == old(out)@ + enc_option_u32(o),
{
    match o {
        Some(x) => {
            push_tag(out, 1);
            push_u32(out, x);
        },
        None => {
            push_tag(out, 0);
            push_u32(out, 0);
        },
    }
    assert(out@ =~= old(out)@ + enc_option_u32(o));
}

fn read_option_u32(bytes: &[u8], at: usize) -> (r: Option<Option<u32>>)
    requires
        at + 5 <= bytes@.len(),
    ensures
        r matches Some(v) ==> enc_option_u32(v) == bytes@.subrange(at as int, at + 5),
        forall|v: Option<u32>|
            enc_option_u32(v) == bytes@.subrange(at as int, at + 5) ==> r == Some(v),
{
    let sub = Ghost(bytes@.subrange(at as int, at + 5));
    let payload = Ghost(bytes@.subrange(at + 1, at + 5));
    assert(sub@ =~= seq![bytes@[at as int]] + payload@);
    let tag = bytes[at];
    let x = read_u32(bytes, at + 1);
    proof {
        lemma_from_le_u32(payload@);
    }
    let r = if tag == 1 {
        Some(Some(x))
    } else if tag == 0 && x == 0 {
        Some(None)
    } else {
        None
    };
    assert forall|v: Option<u32>| enc_option_u32(v) == sub@ implies r == Some(v) by {
        assert(enc_option_u32(v)[0] == sub@[0]);
        assert(sub@.subrange(1, 5) =~= payload@);
        match v {
            Some(y) => {
                assert(enc_option_u32(v).subrange(1, 5) =~= le_u32(y));
                lemma_le_u32(y);
            },
            None => {
                assert(enc_option_u32(v).subrange(1, 5) =~= le_u32(0));
                lemma_le_u32(0);
            },
        }
    }
    if let Some(v) = r {
        assert(enc_option_u32(v) =~= sub@);
    }
    r
}

fn push_delay_range(out: &mut Vec<u8>, r: DelayRange)
    ensures
        final(out)@ == old(out)@ + enc_delay_range(r),
{
    let tag = match r {
        DelayRange::Long => 0,
        DelayRange::Short => 1,
        DelayRange::Audio => 2,
    };
    push_tag(out, tag);
}

fn read_delay_range(bytes: &[u8], at: usize) -> (r: Option<DelayRange>)
    requires
        at + 1 <= bytes@.len(),
    ensures
        r matches Some(v) ==> enc_delay_range(v) == bytes@.subrange(at as int, at + 1),
        forall|v: DelayRange| enc_delay_range(v) == bytes@.subrange(at as int, at + 1) ==> r == Some(v),
{
    let sub = Ghost(bytes@.subrange(at as int, at + 1));
    assert(sub@[0] == bytes@[at as int]);
    let r = if bytes[at] == 0 {
        Some(DelayRange::Long)
    } else if bytes[at] == 1 {
        Some(DelayRange::Short)
    } else if bytes[at] == 2 {
        Some(DelayRange::Audio)
    } else {
        None
    };
    assert forall|v: DelayRange| enc_delay_range(v) == sub@ implies r == Some(v) by {
        assert(enc_delay_range(v)[0] == sub@[0]);
    }
    if let Some(v) = r {
        assert(enc_delay_range(v) =~= sub@);
    }
    r
}

fn push_placement(out: &mut Vec<u8>, p: WowFlutterPlacement)
    ensures
        final(out)@ == old(out)@ + enc_placement(p),
{
    let tag = match p {
        WowFlutterPlacement::Input => 0,
        WowFlutterPlacement::Read => 1,
        WowFlutterPlacement::Both => 2,
    };
    push_tag(out, tag);
}

fn read_placement(bytes: &[u8], at: usize) -> (r: Option<WowFlutterPlacement>)
    requires
        at + 1 <= bytes@.len(),
    ensures
        r matches Some(v) ==> enc_placement(v) == bytes@.subrange(at as int, at + 1),
        forall|v: WowFlutterPlacement|
            enc_placement(v) == bytes@.subrange(at as int, at + 1) ==> r == Some(v),
{
    let sub = Ghost(bytes@.subrange(at as int, at + 1));
    assert(sub@[0] == bytes@[at as int]);
    let r = if bytes[at] == 0 {
        Some(WowFlutterPlacement::Input)
    } else if bytes[at] == 1 {
        Some(WowFlutterPlacement::Read)
    } else if bytes[at] == 2 {
        Some(WowFlutterPlacement::Both)
    } else {
        None
    };
    assert forall|v: WowFlutterPlacement| enc_placement(v) == sub@ implies r == Some(v) by {
        assert(enc_placement(v)[0] == sub@[0]);
    }
    if let Some(v) = r {
        assert(enc_placement(v) =~= sub@);
    }
    r
}

fn push_display_page(out: &mut Vec<u8>, p: DisplayPage)
    ensures
        final(out)@ == old(out)@ + enc_display_page(p),
{
    let tag = match p {
        DisplayPage::Heads => 0,
        DisplayPage::Position => 1,
    };
    push_tag(out, tag);
}

fn read_display_page(bytes: &[u8], at: usize) -> (r: Option<DisplayPage>)
    requires
        at + 1 <= bytes@.len(),
    ensures
        r matches Some(v) ==> enc_display_page(v) == bytes@.subrange(at as int, at + 1),
        forall|v: DisplayPage|
            enc_display_page(v) == bytes@.subrange(at as int, at + 1) ==> r == Some(v),
{
    let sub = Ghost(bytes@.subrange(at as int, at + 1));
    assert(sub@[0] == bytes@[at as int]);
    let r = if bytes[at] == 0 {
        Some(DisplayPage::Heads)
    } else if bytes[at] == 1 {
        Some(DisplayPage::Position)
    } else {
        None
    };
    assert forall|v: DisplayPage| enc_display_page(v) == sub@ implies r == Some(v) by {
        assert(enc_display_page(v)[0] == sub@[0]);
    }
    if let Some(v) = r {
        assert(enc_display_page(v) =~= sub@);
    }
    r
}


// ---------------------------------------------------------------------------
// Encoders and decoders of the blocks of a save.

fn push_mapping(out: &mut Vec<u8>, m: &Mapping)
    ensures
        final(out)@ == old(out)@ + enc_mapping(*m),
{
    push_attribute(out, m[0]);
    push_attribute(out, m[1]);
    push_attribute(out, m[2]);
    push_attribute(out, m[3]);
    assert(out@ =~= old(out)@ + enc_mapping(*m));
}

fn read_mapping(bytes: &[u8], at: usize) -> (r: Option<Mapping>)
    requires
        bytes@.len() == SAVE_SIZE,
        at + MAPPING_SIZE <= SAVE_SIZE,
    ensures
        r matches Some(v) ==> enc_mapping(v) == bytes@.subrange(at as int, at + MAPPING_SIZE),
        forall|v: Mapping|
            enc_mapping(v) == bytes@.subrange(at as int, at + MAPPING_SIZE) ==> r == Some(v),
{
    let ghost sub = bytes@.subrange(at as int, at + MAPPING_SIZE);
    let ghost s0 = bytes@.subrange(at as int, at + 9);
    let ghost s1 = bytes@.subrange(at + 9, at + 18);
    let ghost s2 = bytes@.subrange(at + 18, at + 27);
    let ghost s3 = bytes@.subrange(at + 27, at + 36);
    assert(sub =~= s0 + s1 + s2 + s3);
    let a0 = read_attribute(bytes, at);
    let a1 = read_attribute(bytes, at + 9);
    let a2 = read_attribute(bytes, at + 18);
    let a3 = read_attribute(bytes, at + 27);
    let r = match (a0, a1, a2, a3) {
        (Some(a0), Some(a1), Some(a2), Some(a3)) => Some([a0, a1, a2, a3]),
        _ => None,
    };
    assert forall|v: Mapping| enc_mapping(v) == sub implies r == Some(v) by {
        let e = enc_mapping(v);
        assert(e.subrange(0, 9) =~= enc_attribute(v[0]));
        assert(e.subrange(9, 18) =~= enc_attribute(v[1]));
        assert(e.subrange(18, 27) =~= enc_attribute(v[2]));
        assert(e.subrange(27, 36) =~= enc_attribute(v[3]));
        assert(s0 =~= sub.subrange(0, 9));
        assert(s1 =~= sub.subrange(9, 18));
        assert(s2 =~= sub.subrange(18, 27));
        assert(s3 =~= sub.subrange(27, 36));
        let m = r.unwrap();
        assert(m@ =~= v@);
    }
    r
}

fn push_calibration(out: &mut Vec<u8>, c: StoredCalibration)
    ensures
        final(out)@ == old(out)@ + enc_calibration(c),
{
    push_u32(out, c.offset);
    push_u32(out, c.scaling);
    assert(out@ =~= old(out)@ + enc_calibration(c));
}

fn read_calibration(bytes: &[u8], at: usize) -> (r: StoredCalibration)
    requires
        bytes@.len() == SAVE_SIZE,
        at + 8 <= SAVE_SIZE,
    ensures
        enc_calibration(r) == bytes@.subrange(at as int, at + 8),
        forall|v: StoredCalibration|
            enc_calibration(v) == bytes@.subrange(at as int, at + 8) ==> r == v,
{
    let ghost sub = bytes@.subrange(at as int, at + 8);
    let ghost s0 = bytes@.subrange(at as int, at + 4);
    let ghost s1 = bytes@.subrange(at + 4, at + 8);
    assert(sub =~= s0 + s1);
    let offset = read_u32(bytes, at);
    let scaling = read_u32(bytes, at + 4);
    proof {
        lemma_from_le_u32(s0);
        lemma_from_le_u32(s1);
    }
    let r = StoredCalibration { offset, scaling };
    assert(enc_calibration(r) =~= sub);
    assert forall|v: StoredCalibration| enc_calibration(v) == sub implies r == v by {
        assert(enc_calibration(v).subrange(0, 4) =~= le_u32(v.offset));
        assert(enc_calibration(v).subrange(4, 8) =~= le_u32(v.scaling));
        assert(s0 =~= sub.subrange(0, 4));
        assert(s1 =~= sub.subrange(4, 8));
        lemma_le_u32(v.offset);
        lemma_le_u32(v.scaling);
    }
    r
}

fn push_calibrations(out: &mut Vec<u8>, c: &[StoredCalibration; 4])
    ensures
        final(out)@ == old(out)@ + enc_calibrations(*c),
{
    push_calibration(out, c[0]);
    push_calibration(out, c[1]);
    push_calibration(out, c[2]);
    push_calibration(out, c[3]);
    assert(out@ =~= old(out)@ + enc_calibrations(*c));
}

fn read_calibrations(bytes: &[u8], at: usize) -> (r: [StoredCalibration; 4])
    requires
        bytes@.len() == SAVE_SIZE,
        at + CALIBRATIONS_SIZE <= SAVE_SIZE,
    ensures
        enc_calibrations(r) == bytes@.subrange(at as int, at + CALIBRATIONS_SIZE),
        forall|v: [StoredCalibration; 4]|
            enc_calibrations(v) == bytes@.subrange(at as int, at + CALIBRATIONS_SIZE) ==> r == v,
{
    let ghost sub = bytes@.subrange(at as int, at + CALIBRATIONS_SIZE);
    let ghost s0 = bytes@.subrange(at as int, at + 8);
    let ghost s1 = bytes@.subrange(at + 8, at + 16);
    let ghost s2 = bytes@.subrange(at + 16, at + 24);
    let ghost s3 = bytes@.subrange(at + 24, at + 32);
    assert(sub =~= s0 + s1 + s2 + s3);
    let c0 = read_calibration(bytes, at);
    let c1 = read_calibration(bytes, at + 8);
    let c2 = read_calibration(bytes, at + 16);
    let c3 = read_calibration(bytes, at + 24);
    let r = [c0, c1, c2, c3];
    assert(enc_calibrations(r) =~= sub);
    assert forall|v: [StoredCalibration; 4]| enc_calibrations(v) == sub implies r == v by {
        let e = enc_calibrations(v);
        assert(e.subrange(0, 8) =~= enc_calibration(v[0]));
        assert(e.subrange(8, 16) =~= enc_calibration(v[1]));
        assert(e.subrange(16, 24) =~= enc_calibration(v[2]));
        assert(e.subrange(24, 32) =~= enc_calibration(v[3]));
        assert(s0 =~= sub.subrange(0, 8));
        assert(s1 =~= sub.subrange(8, 16));
        assert(s2 =~= sub.subrange(16, 24));
        assert(s3 =~= sub.subrange(24, 32));
        assert(r@ =~= v@);
    }
    r
}

fn decode_bool_byte(x: u8) -> (r: Option<bool>)
    ensures
        r matches Some(v) ==> bool_byte(v) == x,
        forall|v: bool| bool_byte(v) == x ==> r == Some(v),
{
    if x == 0 {
        Some(false)
    } else if x == 1 {
        Some(true)
    } else {
        None
    }
}

fn decode_delay_range_byte(x: u8) -> (r: Option<DelayRange>)
    ensures
        r matches Some(v) ==> delay_range_byte(v) == x,
        forall|v: DelayRange| delay_range_byte(v) == x ==> r == Some(v),
{
    if x == 0 {
        Some(DelayRange::Long)
    } else if x == 1 {
        Some(DelayRange::Short)
    } else if x == 2 {
        Some(DelayRange::Audio)
    } else {
        None
    }
}

fn decode_placement_byte(x: u8) -> (r: Option<WowFlutterPlacement>)
    ensures
        r matches Some(v) ==> placement_byte(v) == x,
        forall|v: WowFlutterPlacement| placement_byte(v) == x ==> r == Some(v),
{
    if x == 0 {
        Some(WowFlutterPlacement::Input)
    } else if x == 1 {
        Some(WowFlutterPlacement::Read)
    } else if x == 2 {
        Some(WowFlutterPlacement::Both)
    } else {
        None
    }
}

fn push_options(out: &mut Vec<u8>, o: &Options)
    ensures
        final(out)@ == old(out)@ + enc_options(*o),
{
    out.push(if o.quantize_8 { 1 } else { 0 });
    out.push(if o.quantize_6 { 1 } else { 0 });
    out.push(
        match o.delay_range {
            DelayRange::Long => 0,
            DelayRange::Short => 1,
            DelayRange::Audio => 2,
        },
    );
    out.push(if o.rewind { 1 } else { 0 });
    out.push(if o.enable_oscillator { 1 } else { 0 });
    out.push(if o.random_impulse { 1 } else { 0 });
    out.push(if o.filter_feedback { 1 } else { 0 });
    out.push(
        match o.wow_flutter_placement {
            WowFlutterPlacement::Input => 0,
            WowFlutterPlacement::Read => 1,
            WowFlutterPlacement::Both => 2,
        },
    );
    out.push(if o.unlimited { 1 } else { 0 });
    assert(out@ =~= old(out)@ + enc_options(*o));
}

fn read_options(bytes: &[u8], at: usize) -> (r: Option<Options>)
    requires
        bytes@.len() == SAVE_SIZE,
        at + OPTIONS_SIZE <= SAVE_SIZE,
    ensures
        r matches Some(v) ==> enc_options(v) == bytes@.subrange(at as int, at + OPTIONS_SIZE),
        forall|v: Options|
            enc_options(v) == bytes@.subrange(at as int, at + OPTIONS_SIZE) ==> r == Some(v),
{
    let ghost sub = bytes@.subrange(at as int, at + OPTIONS_SIZE);
    let quantize_8 = decode_bool_byte(bytes[at]);
    let quantize_6 = decode_bool_byte(bytes[at + 1]);
    let delay_range = decode_delay_range_byte(bytes[at + 2]);
    let rewind = decode_bool_byte(bytes[at + 3]);
    let enable_oscillator = decode_bool_byte(bytes[at + 4]);
    let random_impulse = decode_bool_byte(bytes[at + 5]);
    let filter_feedback = decode_bool_byte(bytes[at + 6]);
    let wow_flutter_placement = decode_placement_byte(bytes[at + 7]);
    let unlimited = decode_bool_byte(bytes[at + 8]);
    let r = match (
        quantize_8,
        quantize_6,
        delay_range,
        rewind,
        enable_oscillator,
        random_impulse,
        filter_feedback,
        wow_flutter_placement,
        unlimited,
    ) {
        (
            Some(quantize_8),
            Some(quantize_6),
            Some(delay_range),
            Some(rewind),
            Some(enable_oscillator),
            Some(random_impulse),
            Some(filter_feedback),
            Some(wow_flutter_placement),
            Some(unlimited),
        ) => Some(
            Options {
                quantize_8,
                quantize_6,
                delay_range,
                rewind,
                enable_oscillator,
                random_impulse,
                filter_feedback,
                wow_flutter_placement,
                unlimited,
            },
        ),
        _ => None,
    };
    assert forall|v: Options| enc_options(v) == sub implies r == Some(v) by {
        assert(enc_options(v)[0] == sub[0]);
        assert(enc_options(v)[1] == sub[1]);
        assert(enc_options(v)[2] == sub[2]);
        assert(enc_options(v)[3] == sub[3]);
        assert(enc_options(v)[4] == sub[4]);
        assert(enc_options(v)[5] == sub[5]);
        assert(enc_options(v)[6] == sub[6]);
        assert(enc_options(v)[7] == sub[7]);
        assert(enc_options(v)[8] == sub[8]);
    }
    if let Some(v) = r {
        assert(enc_options(v) =~= sub);
    }
    r
}

fn push_rewind(out: &mut Vec<u8>, r: (usize, usize))
    ensures
        final(out)@ == old(out)@ + enc_rewind(r),
{
    push_usize(out, r.0);
    push_usize(out, r.1);
    assert(out@ =~= old(out)@ + enc_rewind(r));
}

fn read_rewind(bytes: &[u8], at: usize) -> (r: Option<(usize, usize)>)
    requires
        bytes@.len() == SAVE_SIZE,
        at + 16 <= SAVE_SIZE,
    ensures
        r matches Some(v) ==> enc_rewind(v) == bytes@.subrange(at as int, at + 16),
        forall|v: (usize, usize)| enc_rewind(v) == bytes@.subrange(at as int, at + 16) ==> r == Some(v),
{
    let ghost sub = bytes@.subrange(at as int, at + 16);
    let ghost s0 = bytes@.subrange(at as int, at + 8);
    let ghost s1 = bytes@.subrange(at + 8, at + 16);
    assert(sub =~= s0 + s1);
    let rewind = read_usize(bytes, at);
    let fast_forward = read_usize(bytes, at + 8);
    let r = match (rewind, fast_forward) {
        (Some(rewind), Some(fast_forward)) => Some((rewind, fast_forward)),
        _ => None,
    };
    assert forall|v: (usize, usize)| enc_rewind(v) == sub implies r == Some(v) by {
        assert(enc_rewind(v).subrange(0, 8) =~= enc_usize(v.0));
        assert(enc_rewind(v).subrange(8, 16) =~= enc_usize(v.1));
        assert(s0 =~= sub.subrange(0, 8));
        assert(s1 =~= sub.subrange(8, 16));
    }
    r
}

fn push_rewinds(out: &mut Vec<u8>, r: &[(usize, usize); 4])
    ensures
        final(out)@ == old(out)@ + enc_rewinds(*r),
{
    push_rewind(out, r[0]);
    push_rewind(out, r[1]);
    push_rewind(out, r[2]);
    push_rewind(out, r[3]);
    assert(out@ =~= old(out)@ + enc_rewinds(*r));
}

fn read_rewinds(bytes: &[u8], at: usize) -> (r: Option<[(usize, usize); 4]>)
    requires
        bytes@.len() == SAVE_SIZE,
        at + 64 <= SAVE_SIZE,
    ensures
        r matches Some(v) ==> enc_rewinds(v) == bytes@.subrange(at as int, at + 64),
        forall|v: [(usize, usize); 4]|
            enc_rewinds(v) == bytes@.subrange(at as int, at + 64) ==> r == Some(v),
{
    let ghost sub = bytes@.subrange(at as int, at + 64);
    let ghost s0 = bytes@.subrange(at as int, at + 16);
    let ghost s1 = bytes@.subrange(at + 16, at + 32);
    let ghost s2 = bytes@.subrange(at + 32, at + 48);
    let ghost s3 = bytes@.subrange(at + 48, at + 64);
    assert(sub =~= s0 + s1 + s2 + s3);
    let r0 = read_rewind(bytes, at);
    let r1 = read_rewind(bytes, at + 16);
    let r2 = read_rewind(bytes, at + 32);
    let r3 = read_rewind(bytes, at + 48);
    let r = match (r0, r1, r2, r3) {
        (Some(r0), Some(r1), Some(r2), Some(r3)) => Some([r0, r1, r2, r3]),
        _ => None,
    };
    assert forall|v: [(usize, usize); 4]| enc_rewinds(v) == sub implies r == Some(v) by {
        let e = enc_rewinds(v);
        assert(e.subrange(0, 16) =~= enc_rewind(v[0]));
        assert(e.subrange(16, 32) =~= enc_rewind(v[1]));
        assert(e.subrange(32, 48) =~= enc_rewind(v[2]));
        assert(e.subrange(48, 64) =~= enc_rewind(v[3]));
        assert(s0 =~= sub.subrange(0, 16));
        assert(s1 =~= sub.subrange(16, 32));
        assert(s2 =~= sub.subrange(32, 48));
        assert(s3 =~= sub.subrange(48, 64));
        let w = r.unwrap();
        assert(w@ =~= v@);
    }
    r
}

fn push_configuration(out: &mut Vec<u8>, c: &Configuration)
    ensures
        final(out)@ == old(out)@ + enc_configuration(*c),
{
    push_rewinds(out, &c.rewind_speed);
    push_display_page(out, c.default_display_page);
    push_option_usize(out, c.position_reset_mapping);
    push_option_usize(out, c.pause_resume_mapping);
    push_usize(out, c.tap_interval_denominator);
    assert(out@ =~= old(out)@ + enc_configuration(*c));
}

fn read_settings(bytes: &[u8], at: usize) -> (r: Option<
    (DisplayPage, Option<usize>, Option<usize>, usize),
>)
    requires
        bytes@.len() == SAVE_SIZE,
        at + 27 <= SAVE_SIZE,
    ensures
        r matches Some(v) ==> enc_settings(v) == bytes@.subrange(at as int, at + 27),
        forall|v: (DisplayPage, Option<usize>, Option<usize>, usize)|
            enc_settings(v) == bytes@.subrange(at as int, at + 27) ==> r == Some(v),
{
    let ghost sub = bytes@.subrange(at as int, at + 27);
    let ghost s1 = bytes@.subrange(at as int, at + 1);
    let ghost s2 = bytes@.subrange(at + 1, at + 10);
    let ghost s3 = bytes@.subrange(at + 10, at + 19);
    let ghost s4 = bytes@.subrange(at + 19, at + 27);
    assert(sub =~= s1 + s2 + s3 + s4);
    let page = read_display_page(bytes, at);
    let reset = read_option_usize(bytes, at + 1);
    let pause = read_option_usize(bytes, at + 10);
    let denominator = read_usize(bytes, at + 19);
    let r = match (page, reset, pause, denominator) {
        (Some(page), Some(reset), Some(pause), Some(denominator)) => Some(
            (page, reset, pause, denominator),
        ),
        _ => None,
    };
    assert forall|v: (DisplayPage, Option<usize>, Option<usize>, usize)|
        enc_settings(v) == sub implies r == Some(v) by {
        let e = enc_settings(v);
        assert(e.subrange(0, 1) =~= enc_display_page(v.0));
        assert(e.subrange(1, 10) =~= enc_option_usize(v.1));
        assert(e.subrange(10, 19) =~= enc_option_usize(v.2));
        assert(e.subrange(19, 27) =~= enc_usize(v.3));
        assert(s1 =~= sub.subrange(0, 1));
        assert(s2 =~= sub.subrange(1, 10));
        assert(s3 =~= sub.subrange(10, 19));
        assert(s4 =~= sub.subrange(19, 27));
    }
    r
}

fn read_configuration(bytes: &[u8], at: usize) -> (r: Option<Configuration>)
    requires
        bytes@.len() == SAVE_SIZE,
        at + CONFIGURATION_SIZE <= SAVE_SIZE,
    ensures
        r matches Some(v) ==> enc_configuration(v) == bytes@.subrange(
            at as int,
            at + CONFIGURATION_SIZE,
        ),
        forall|v: Configuration|
            enc_configuration(v) == bytes@.subrange(at as int, at + CONFIGURATION_SIZE) ==> r == Some(
                v,
            ),
{
    let ghost sub = bytes@.subrange(at as int, at + CONFIGURATION_SIZE);
    let ghost s0 = bytes@.subrange(at as int, at + 64);
    let ghost s1 = bytes@.subrange(at + 64, at + 91);
    assert(sub =~= s0 + s1);
    let rewind_speed = read_rewinds(bytes, at);
    let settings = read_settings(bytes, at + 64);
    let r = match (rewind_speed, settings) {
        (Some(rewind_speed), Some(settings)) => Some(
            Configuration {
                rewind_speed,
                default_display_page: settings.0,
                position_reset_mapping: settings.1,
                pause_resume_mapping: settings.2,
                tap_interval_denominator: settings.3,
            },
        ),
        _ => None,
    };
    assert forall|v: Configuration| enc_configuration(v) == sub implies r == Some(v) by {
        let e = enc_configuration(v);
        assert(e.subrange(0, 64) =~= enc_rewinds(v.rewind_speed));
        assert(e.subrange(64, 91) =~= enc_settings(settings_of(v)));
        assert(s0 =~= sub.subrange(0, 64));
        assert(s1 =~= sub.subrange(64, 91));
    }
    r
}

// ---------------------------------------------------------------------------
// The whole save.

/// The save encoded by the bytes, if they are an encoding of one.
pub open spec fn save_of_bytes(bytes: Seq<u8>) -> Option<Save> {
    if exists|s: Save| enc_save(s) == bytes {
        Some(choose|s: Save| enc_save(s) == bytes)
    } else {
        None
    }
}

proof fn lemma_block_lens(s: Save)
    ensures
        enc_mapping(s.mapping).len() == MAPPING_SIZE,
        enc_calibrations(s.calibrations).len() == CALIBRATIONS_SIZE,
        enc_options(s.options).len() == OPTIONS_SIZE,
        enc_configuration(s.configuration).len() == CONFIGURATION_SIZE,
        enc_option_u32(s.tapped_tempo).len() == TEMPO_SIZE,
{
    assert(enc_attribute(s.mapping[0]).len() == 9);
    assert(enc_attribute(s.mapping[1]).len() == 9);
    assert(enc_attribute(s.mapping[2]).len() == 9);
    assert(enc_attribute(s.mapping[3]).len() == 9);
    assert(enc_rewinds(s.configuration.rewind_speed).len() == 64);
    assert(enc_settings(settings_of(s.configuration)).len() == 27);
}

pub proof fn lemma_enc_save_len(s: Save)
    ensures
        enc_save(s).len() == SAVE_SIZE,
{
    lemma_block_lens(s);
}

proof fn lemma_enc_usize_injective(a: usize, b: usize)
    requires
        enc_usize(a) == enc_usize(b),
    ensures
        a == b,
{
    lemma_le_u64(a as u64);
    lemma_le_u64(b as u64);
}

proof fn lemma_enc_attribute_parts(a: AttributeIdentifier)
    ensures
        enc_attribute(a).len() == 9,
        enc_attribute(a)[0] == attribute_tag(a),
        enc_attribute(a).subrange(1, 9) == enc_usize(attribute_head(a)),
{
    assert(enc_attribute(a).subrange(1, 9) =~= enc_usize(attribute_head(a)));
}

proof fn lemma_enc_attribute_injective(a: AttributeIdentifier, b: AttributeIdentifier)
    requires
        enc_attribute(a) == enc_attribute(b),
    ensures
        a == b,
{
    lemma_enc_attribute_parts(a);
    lemma_enc_attribute_parts(b);
    lemma_enc_usize_injective(attribute_head(a), attribute_head(b));
    assert(attribute_tag(a) == attribute_tag(b));
    assert(attribute_head(a) == attribute_head(b));
    match a {
        AttributeIdentifier::Position(_) => {},
        AttributeIdentifier::Volume(_) => {},
        AttributeIdentifier::Feedback(_) => {},
        AttributeIdentifier::Pan(_) => {},
        _ => {},
    }
}

proof fn lemma_enc_option_usize_parts(a: Option<usize>)
    ensures
        enc_option_usize(a).len() == 9,
        enc_option_usize(a)[0] == (if a is Some { 1u8 } else { 0u8 }),
        enc_option_usize(a).subrange(1, 9) == enc_usize(
            match a {
                Some(x) => x,
                None => 0,
            },
        ),
{
    match a {
        Some(x) => assert(enc_option_usize(a).subrange(1, 9) =~= enc_usize(x)),
        None => assert(enc_option_usize(a).subrange(1, 9) =~= enc_usize(0)),
    }
}

proof fn lemma_enc_option_usize_injective(a: Option<usize>, b: Option<usize>)
    requires
        enc_option_usize(a) == enc_option_usize(b),
    ensures
        a == b,
{
    lemma_enc_option_usize_parts(a);
    lemma_enc_option_usize_parts(b);
    let ha = match a {
        Some(x) => x,
        None => 0,
    };
    let hb = match b {
        Some(x) => x,
        None => 0,
    };
    lemma_enc_usize_injective(ha, hb);
}

proof fn lemma_enc_option_u32_parts(a: Option<u32>)
    ensures
        enc_option_u32(a).len() == 5,
        enc_option_u32(a)[0] == (if a is Some { 1u8 } else { 0u8 }),
        enc_option_u32(a).subrange(1, 5) == le_u32(
            match a {
                Some(x) => x,
                None => 0,
            },
        ),
{
    match a {
        Some(x) => assert(enc_option_u32(a).subrange(1, 5) =~= le_u32(x)),
        None => assert(enc_option_u32(a).subrange(1, 5) =~= le_u32(0)),
    }
}

proof fn lemma_enc_option_u32_injective(a: Option<u32>, b: Option<u32>)
    requires
        enc_option_u32(a) == enc_option_u32(b),
    ensures
        a == b,
{
    lemma_enc_option_u32_parts(a);
    lemma_enc_option_u32_parts(b);
    let ha = match a {
        Some(x) => x,
        None => 0,
    };
    let hb = match b {
        Some(x) => x,
        None => 0,
    };
    lemma_le_u32(ha);
    lemma_le_u32(hb);
}

proof fn lemma_enc_mapping_injective(a: Mapping, b: Mapping)
    requires
        enc_mapping(a) == enc_mapping(b),
    ensures
        a == b,
{
    let ea = enc_mapping(a);
    let eb = enc_mapping(b);
    assert(ea.subrange(0, 9) =~= enc_attribute(a[0]));
    assert(ea.subrange(9, 18) =~= enc_attribute(a[1]));
    assert(ea.subrange(18, 27) =~= enc_attribute(a[2]));
    assert(ea.subrange(27, 36) =~= enc_attribute(a[3]));
    assert(eb.subrange(0, 9) =~= enc_attribute(b[0]));
    assert(eb.subrange(9, 18) =~= enc_attribute(b[1]));
    assert(eb.subrange(18, 27) =~= enc_attribute(b[2]));
    assert(eb.subrange(27, 36) =~= enc_attribute(b[3]));
    lemma_enc_attribute_injective(a[0], b[0]);
    lemma_enc_attribute_injective(a[1], b[1]);
    lemma_enc_attribute_injective(a[2], b[2]);
    lemma_enc_attribute_injective(a[3], b[3]);
    assert(a@ =~= b@);
}

proof fn lemma_enc_calibration_injective(a: StoredCalibration, b: StoredCalibration)
    requires
        enc_calibration(a) == enc_calibration(b),
    ensures
        a == b,
{
    assert(enc_calibration(a).subrange(0, 4) =~= le_u32(a.offset));
    assert(enc_calibration(a).subrange(4, 8) =~= le_u32(a.scaling));
    assert(enc_calibration(b).subrange(0, 4) =~= le_u32(b.offset));
    assert(enc_calibration(b).subrange(4, 8) =~= le_u32(b.scaling));
    lemma_le_u32(a.offset);
    lemma_le_u32(a.scaling);
    lemma_le_u32(b.offset);
    lemma_le_u32(b.scaling);
}

proof fn lemma_enc_calibrations_injective(a: [StoredCalibration; 4], b: [StoredCalibration; 4])
    requires
        enc_calibrations(a) == enc_calibrations(b),
    ensures
        a == b,
{
    let ea = enc_calibrations(a);
    let eb = enc_calibrations(b);
    assert(ea.subrange(0, 8) =~= enc_calibration(a[0]));
    assert(ea.subrange(8, 16) =~= enc_calibration(a[1]));
    assert(ea.subrange(16, 24) =~= enc_calibration(a[2]));
    assert(ea.subrange(24, 32) =~= enc_calibration(a[3]));
    assert(eb.subrange(0, 8) =~= enc_calibration(b[0]));
    assert(eb.subrange(8, 16) =~= enc_calibration(b[1]));
    assert(eb.subrange(16, 24) =~= enc_calibration(b[2]));
    assert(eb.subrange(24, 32) =~= enc_calibration(b[3]));
    lemma_enc_calibration_injective(a[0], b[0]);
    lemma_enc_calibration_injective(a[1], b[1]);
    lemma_enc_calibration_injective(a[2], b[2]);
    lemma_enc_calibration_injective(a[3], b[3]);
    assert(a@ =~= b@);
}

proof fn lemma_enc_options_injective(a: Options, b: Options)
    requires
        enc_options(a) == enc_options(b),
    ensures
        a == b,
{
    assert(enc_options(a)[0] == enc_options(b)[0]);
    assert(enc_options(a)[1] == enc_options(b)[1]);
    assert(enc_options(a)[2] == enc_options(b)[2]);
    assert(enc_options(a)[3] == enc_options(b)[3]);
    assert(enc_options(a)[4] == enc_options(b)[4]);
    assert(enc_options(a)[5] == enc_options(b)[5]);
    assert(enc_options(a)[6] == enc_options(b)[6]);
    assert(enc_options(a)[7] == enc_options(b)[7]);
    assert(enc_options(a)[8] == enc_options(b)[8]);
}

proof fn lemma_enc_rewinds_injective(a: [(usize, usize); 4], b: [(usize, usize); 4])
    requires
        enc_rewinds(a) == enc_rewinds(b),
    ensures
        a == b,
{
    let ea = enc_rewinds(a);
    let eb = enc_rewinds(b);
    assert forall|k: int| 0 <= k < 4 implies a[k] == b[k] by {
        assert(ea.subrange(16 * k, 16 * k + 8) =~= enc_usize(a[k].0));
        assert(ea.subrange(16 * k + 8, 16 * k + 16) =~= enc_usize(a[k].1));
        assert(eb.subrange(16 * k, 16 * k + 8) =~= enc_usize(b[k].0));
        assert(eb.subrange(16 * k + 8, 16 * k + 16) =~= enc_usize(b[k].1));
        lemma_enc_usize_injective(a[k].0, b[k].0);
        lemma_enc_usize_injective(a[k].1, b[k].1);
    }
    assert(a@ =~= b@);
}

proof fn lemma_enc_configuration_injective(a: Configuration, b: Configuration)
    requires
        enc_configuration(a) == enc_configuration(b),
    ensures
        a == b,
{
    let ea = enc_configuration(a);
    let eb = enc_configuration(b);
    assert(ea.subrange(0, 64) =~= enc_rewinds(a.rewind_speed));
    assert(eb.subrange(0, 64) =~= enc_rewinds(b.rewind_speed));
    lemma_enc_rewinds_injective(a.rewind_speed, b.rewind_speed);
    let sa = enc_settings(settings_of(a));
    let sb = enc_settings(settings_of(b));
    assert(ea.subrange(64, 91) =~= sa);
    assert(eb.subrange(64, 91) =~= sb);
    assert(sa[0] == sb[0]);
    assert(sa.subrange(1, 10) =~= enc_option_usize(a.position_reset_mapping));
    assert(sb.subrange(1, 10) =~= enc_option_usize(b.position_reset_mapping));
    lemma_enc_option_usize_injective(a.position_reset_mapping, b.position_reset_mapping);
    assert(sa.subrange(10, 19) =~= enc_option_usize(a.pause_resume_mapping));
    assert(sb.subrange(10, 19) =~= enc_option_usize(b.pause_resume_mapping));
    lemma_enc_option_usize_injective(a.pause_resume_mapping, b.pause_resume_mapping);
    assert(sa.subrange(19, 27) =~= enc_usize(a.tap_interval_denominator));
    assert(sb.subrange(19, 27) =~= enc_usize(b.tap_interval_denominator));
    lemma_enc_usize_injective(a.tap_interval_denominator, b.tap_interval_denominator);
}

/// Equal concatenations of parts of equal lengths have equal parts.
proof fn lemma_concat5_parts(
    x0: Seq<u8>,
    x1: Seq<u8>,
    x2: Seq<u8>,
    x3: Seq<u8>,
    x4: Seq<u8>,
    y0: Seq<u8>,
    y1: Seq<u8>,
    y2: Seq<u8>,
    y3: Seq<u8>,
    y4: Seq<u8>,
)
    requires
        x0.len() == y0.len(),
        x1.len() == y1.len(),
        x2.len() == y2.len(),
        x3.len() == y3.len(),
        x4.len() == y4.len(),
        x0 + x1 + x2 + x3 + x4 == y0 + y1 + y2 + y3 + y4,
    ensures
        x0 == y0,
        x1 == y1,
        x2 == y2,
        x3 == y3,
        x4 == y4,
{
    let x = x0 + x1 + x2 + x3 + x4;
    let y = y0 + y1 + y2 + y3 + y4;
    let l0 = x0.len() as int;
    let l1 = l0 + x1.len();
    let l2 = l1 + x2.len();
    let l3 = l2 + x3.len();
    let l4 = l3 + x4.len();
    assert(x0 =~= x.subrange(0, l0));
    assert(y0 =~= y.subrange(0, l0));
    assert(x1 =~= x.subrange(l0, l1));
    assert(y1 =~= y.subrange(l0, l1));
    assert(x2 =~= x.subrange(l1, l2));
    assert(y2 =~= y.subrange(l1, l2));
    assert(x3 =~= x.subrange(l2, l3));
    assert(y3 =~= y.subrange(l2, l3));
    assert(x4 =~= x.subrange(l3, l4));
    assert(y4 =~= y.subrange(l3, l4));
}

/// Different saves have different encodings.
pub proof fn lemma_enc_save_injective(a: Save, b: Save)
    requires
        enc_save(a) == enc_save(b),
    ensures
        a == b,
{
    lemma_block_lens(a);
    lemma_block_lens(b);
    lemma_concat5_parts(
        enc_mapping(a.mapping),
        enc_calibrations(a.calibrations),
        enc_options(a.options),
        enc_configuration(a.configuration),
        enc_option_u32(a.tapped_tempo),
        enc_mapping(b.mapping),
        enc_calibrations(b.calibrations),
        enc_options(b.options),
        enc_configuration(b.configuration),
        enc_option_u32(b.tapped_tempo),
    );
    lemma_enc_mapping_injective(a.mapping, b.mapping);
    lemma_enc_calibrations_injective(a.calibrations, b.calibrations);
    lemma_enc_options_injective(a.options, b.options);
    lemma_enc_configuration_injective(a.configuration, b.configuration);
    lemma_enc_option_u32_injective(a.tapped_tempo, b.tapped_tempo);
}

/// Reading back the bytes written for a save gives that save.
pub proof fn lemma_save_round_trip(s: Save)
    ensures
        save_of_bytes(enc_save(s)) == Some(s),
{
    let b = enc_save(s);
    assert(exists|t: Save| enc_save(t) == b);
    let t = choose|t: Save| enc_save(t) == b;
    lemma_enc_save_injective(t, s);
}

impl Save {
    /// Nothing mapped, no calibration, default options and configuration,
    /// and no tapped tempo.
    pub open spec fn is_default(&self) -> bool {
        &&& forall|i: int| 0 <= i < 4 ==> self.mapping@[i] == AttributeIdentifier::Unmapped
        &&& forall|i: int| 0 <= i < 4 ==> #[trigger] self.calibrations@[i] == StoredCalibration::new_spec()
        &&& self.options.is_default()
        &&& self.configuration.is_default()
        &&& self.tapped_tempo.is_none()
    }
}

impl Default for Save {
    fn default() -> (save: Self)
        ensures
            save.is_default(),
    {
        Save {
            mapping: crate::mapping::empty_mapping(),
            calibrations: [
                StoredCalibration::new(),
                StoredCalibration::new(),
                StoredCalibration::new(),
                StoredCalibration::new(),
            ],
            options: Options::new(),
            configuration: Configuration::new(),
            tapped_tempo: None,
        }
    }
}

impl Save {
    /// The encoding of the save.
    pub fn to_bytes(&self) -> (bytes: [u8; SAVE_SIZE])
        ensures
            bytes@ == enc_save(*self),
    {
        let mut out: Vec<u8> = Vec::new();
        push_mapping(&mut out, &self.mapping);
        push_calibrations(&mut out, &self.calibrations);
        push_options(&mut out, &self.options);
        push_configuration(&mut out, &self.configuration);
        push_option_u32(&mut out, self.tapped_tempo);
        proof {
            lemma_enc_save_len(*self);
        }
        assert(out@ =~= enc_save(*self));
        let mut bytes = [0u8; SAVE_SIZE];
        let mut i: usize = 0;
        while i < SAVE_SIZE
            invariant
                out@ == enc_save(*self),
                out@.len() == SAVE_SIZE,
                i <= SAVE_SIZE,
                forall|k: int| 0 <= k < i ==> bytes@[k] == out@[k],
            decreases SAVE_SIZE - i,
        {
            bytes[i] = out[i];
            i = i + 1;
        }
        assert(bytes@ =~= out@);
        bytes
    }

    /// The save whose encoding the bytes are; `None` when they encode none.
    pub fn from_bytes(bytes: &[u8; SAVE_SIZE]) -> (save: Option<Save>)
        ensures
            save == save_of_bytes(bytes@),
    {
        let slice = bytes.as_slice();
        assert(slice@ == bytes@);
        let ghost b = bytes@;
        let ghost s0 = b.subrange(0, 36);
        let ghost s1 = b.subrange(36, 68);
        let ghost s2 = b.subrange(68, 77);
        let ghost s3 = b.subrange(77, 168);
        let ghost s4 = b.subrange(168, 173);
        assert(b =~= s0 + s1 + s2 + s3 + s4);
        let mapping = read_mapping(slice, 0);
        let calibrations = read_calibrations(slice, 36);
        let options = read_options(slice, 68);
        let configuration = read_configuration(slice, 77);
        let tapped_tempo = read_option_u32(slice, 168);
        let r = match (mapping, options, configuration, tapped_tempo) {
            (Some(mapping), Some(options), Some(configuration), Some(tapped_tempo)) => Some(
                Save { mapping, calibrations, options, configuration, tapped_tempo },
            ),
            _ => None,
        };
        assert forall|v: Save| enc_save(v) == b implies r == Some(v) by {
            let e = enc_save(v);
            lemma_block_lens(v);
            assert(e.subrange(0, 36) =~= enc_mapping(v.mapping));
            assert(e.subrange(36, 68) =~= enc_calibrations(v.calibrations));
            assert(e.subrange(68, 77) =~= enc_options(v.options));
            assert(e.subrange(77, 168) =~= enc_configuration(v.configuration));
            assert(e.subrange(168, 173) =~= enc_option_u32(v.tapped_tempo));
        }
        proof {
            match r {
                Some(v) => {
                    assert(enc_save(v) =~= b);
                    lemma_save_round_trip(v);
                },
                None => {},
            }
        }
        r
    }
}

// ---------------------------------------------------------------------------
// Framing of a save for persistent memory.

/// This constant is used to invalidate data when needed.
pub const TOKEN: u16 = 1;

/// The number of bytes of a framed save: version, token, save and checksum.
pub const STORE_SIZE: usize = 181;

/// The CRC-16/USB checksum of the bytes.
pub uninterp spec fn crc16_usb(bytes: Seq<u8>) -> u16;

/// Calls `crc::Crc::<u16>::checksum` configured with the `CRC_16_USB`
/// algorithm of the `crc` crate; the result is the CRC-16/USB checksum of the
/// bytes and depends on nothing else.
#[verifier::external_body]
fn checksum(bytes: &[u8]) -> (crc: u16)
    ensures
        crc == crc16_usb(bytes@),
{
    Crc::<u16>::new(&CRC_16_USB).checksum(bytes)
}

/// The frame of a save: version, token, the save's bytes and their checksum.
pub open spec fn frame(version: u32, token: u16, raw: Seq<u8>, crc: u16) -> Seq<u8> {
    le_u32(version) + le_u16(token) + raw + le_u16(crc)
}

pub open spec fn frame_version(bytes: Seq<u8>) -> u32 {
    from_le_u32(bytes.subrange(0, 4))
}

pub open spec fn frame_token(bytes: Seq<u8>) -> u16 {
    from_le_u16(bytes.subrange(4, 6))
}

pub open spec fn frame_raw(bytes: Seq<u8>) -> Seq<u8> {
    bytes.subrange(6, 179)
}

pub open spec fn frame_crc(bytes: Seq<u8>) -> u16 {
    from_le_u16(bytes.subrange(179, 181))
}

/// The frames accepted when loading: the token is current and the checksum
/// matches.
pub open spec fn frame_valid(bytes: Seq<u8>) -> bool {
    &&& bytes.len() == STORE_SIZE
    &&& frame_token(bytes) == TOKEN
    &&& frame_crc(bytes) == crc16_usb(frame_raw(bytes))
}

/// The save's bytes of a frame.
fn frame_payload(bytes: &[u8; STORE_SIZE]) -> (raw: [u8; SAVE_SIZE])
    ensures
        raw@ == frame_raw(bytes@),
{
    let mut raw = [0u8; SAVE_SIZE];
    let mut i: usize = 0;
    while i < SAVE_SIZE
        invariant
            bytes@.len() == STORE_SIZE,
            i <= SAVE_SIZE,
            forall|k: int| 0 <= k < i ==> raw@[k] == bytes@[6 + k],
        decreases SAVE_SIZE - i,
    {
        raw[i] = bytes[6 + i];
        i = i + 1;
    }
    assert(raw@ =~= frame_raw(bytes@));
    raw
}

/// Whether a frame is accepted, given the checksum computed over its save's
/// bytes: the token is current and the stored checksum equals the computed
/// one.
pub fn accepts_frame(bytes: &[u8; STORE_SIZE], computed_crc: u16) -> (accepted: bool)
    ensures
        accepted == (frame_token(bytes@) == TOKEN && frame_crc(bytes@) == computed_crc),
{
    let slice = bytes.as_slice();
    assert(slice@ == bytes@);
    let token = read_u16(slice, 4);
    let crc = read_u16(slice, 179);
    proof {
        lemma_from_le_u16(bytes@.subrange(4, 6));
        lemma_from_le_u16(bytes@.subrange(179, 181));
    }
    token == TOKEN && crc == computed_crc
}

/// The data was not written by this version of the module, or got corrupted.
#[derive(Debug)]
pub struct InvalidData;

/// A save framed for persistent memory, with a version of the firmware that
/// wrote it and a checksum.
#[derive(Clone, Copy)]
pub struct Store {
    version: u32,
    token: u16,
    save_raw: [u8; SAVE_SIZE],
    crc: u16,
}

impl Store {
    #[verifier::type_invariant]
    spec fn consistent(self) -> bool {
        &&& self.token == TOKEN
        &&& self.crc == crc16_usb(self.save_raw@)
    }

    pub closed spec fn spec_version(self) -> u32 {
        self.version
    }

    /// The framed save; `None` when its bytes encode no save.
    pub closed spec fn spec_save(self) -> Option<Save> {
        save_of_bytes(self.save_raw@)
    }

    /// The bytes the store is written as.
    pub closed spec fn encoding(self) -> Seq<u8> {
        frame(self.version, self.token, self.save_raw@, self.crc)
    }

    pub fn new(save: Save, version: u32) -> (store: Self)
        ensures
            store.spec_save() == Some(save),
            store.spec_version() == version,
            store.encoding() == frame(version, TOKEN, enc_save(save), crc16_usb(enc_save(save))),
    {
        let save_raw = save.to_bytes();
        let crc = checksum(save_raw.as_slice());
        proof {
            lemma_save_round_trip(save);
        }
        Self { version, save_raw, crc, token: TOKEN }
    }

    /// Loads a store from its bytes.
    ///
    /// # Errors
    ///
    /// This fails with `InvalidData` when the token does not match or when
    /// the recovered save does not pass CRC check.
    pub fn from_bytes(bytes: [u8; STORE_SIZE]) -> (store: Result<Self, InvalidData>)
        ensures
            store is Ok <==> frame_valid(bytes@),
            store matches Ok(s) ==> {
                &&& s.encoding() == bytes@
                &&& s.spec_version() == frame_version(bytes@)
                &&& s.spec_save() == save_of_bytes(frame_raw(bytes@))
            },
    {
        let save_raw = frame_payload(&bytes);
        let expected = checksum(save_raw.as_slice());
        if !accepts_frame(&bytes, expected) {
            return Err(InvalidData);
        }
        let slice = bytes.as_slice();
        assert(slice@ == bytes@);
        let version = read_u32(slice, 0);
        let token = read_u16(slice, 4);
        let crc = read_u16(slice, 179);
        proof {
            lemma_from_le_u32(bytes@.subrange(0, 4));
            lemma_from_le_u16(bytes@.subrange(4, 6));
            lemma_from_le_u16(bytes@.subrange(179, 181));
            assert(bytes@ =~= frame(version, token, save_raw@, crc));
        }
        Ok(Self { version, token, save_raw, crc })
    }

    /// The bytes to write to persistent memory.
    pub fn to_bytes(self) -> (bytes: [u8; STORE_SIZE])
        ensures
            bytes@ == self.encoding(),
    {
        let mut out: Vec<u8> = Vec::new();
        push_u32(&mut out, self.version);
        push_u16(&mut out, self.token);
        let mut i: usize = 0;
        while i < SAVE_SIZE
            invariant
                out@ == le_u32(self.version) + le_u16(self.token) + self.save_raw@.subrange(0, i as int),
                i <= SAVE_SIZE,
            decreases SAVE_SIZE - i,
        {
            out.push(self.save_raw[i]);
            i = i + 1;
            assert(out@ =~= le_u32(self.version) + le_u16(self.token) + self.save_raw@.subrange(
                0,
                i as int,
            ));
        }
        push_u16(&mut out, self.crc);
        assert(self.save_raw@.subrange(0, SAVE_SIZE as int) =~= self.save_raw@);
        assert(out@ =~= self.encoding());
        let mut bytes = [0u8; STORE_SIZE];
        let mut i: usize = 0;
        while i < STORE_SIZE
            invariant
                out@ == self.encoding(),
                out@.len() == STORE_SIZE,
                i <= STORE_SIZE,
                forall|k: int| 0 <= k < i ==> bytes@[k] == out@[k],
            decreases STORE_SIZE - i,
        {
            bytes[i] = out[i];
            i = i + 1;
        }
        assert(bytes@ =~= out@);
        bytes
    }

    /// The framed save.
    /// The framed save; `None` when its bytes encode no save.
    pub fn save(&self) -> (save: Option<Save>)
        ensures
            save == self.spec_save(),
    {
        Save::from_bytes(&self.save_raw)
    }

    pub fn version(&self) -> (version: u32)
        ensures
            version == self.spec_version(),
    {
        self.version
    }
}

/// A store written to bytes is accepted when loaded, and gives back the
/// version and save it was made of.
pub proof fn lemma_store_round_trip(save: Save, version: u32)
    ensures
        ({
            let bytes = frame(version, TOKEN, enc_save(save), crc16_usb(enc_save(save)));
            &&& frame_valid(bytes)
            &&& frame_version(bytes) == version
            &&& save_of_bytes(frame_raw(bytes)) == Some(save)
        }),
{
    let raw = enc_save(save);
    let crc = crc16_usb(raw);
    let bytes = frame(version, TOKEN, raw, crc);
    lemma_enc_save_len(save);
    lemma_le_u32(version);
    lemma_le_u16(TOKEN);
    lemma_le_u16(crc);
    assert(bytes.subrange(0, 4) =~= le_u32(version));
    assert(bytes.subrange(4, 6) =~= le_u16(TOKEN));
    assert(frame_raw(bytes) =~= raw);
    assert(bytes.subrange(179, 181) =~= le_u16(crc));
    lemma_save_round_trip(save);
}

} // verus!
