//! Layout of the 8-byte input report and the operating context it selects.
use vstd::prelude::*;

verus! {

/// Operating context: a normal or shift layer, each with an absolute mode
/// in `0..=2`.
#[derive(PartialEq, Eq, Structural, Clone, Copy, Debug)]
pub enum Mode {
    Normal(u8),
    Shift(u8),
}

impl Mode {
    /// The context is well formed when its absolute mode is 0, 1 or 2.
    pub open spec fn wf(self) -> bool {
        match self {
            Mode::Normal(n) => n <= 2,
            Mode::Shift(n) => n <= 2,
        }
    }

    pub open spec fn spec_is_shift(&self) -> bool {
        *self is Shift
    }

    pub open spec fn spec_absolute(&self) -> u8 {
        match *self {
            Mode::Normal(n) => n,
            Mode::Shift(n) => n,
        }
    }

    /// Whether this is a shift-layer context.
    #[verifier::when_used_as_spec(spec_is_shift)]
    pub fn is_shift(&self) -> (r: bool)
        ensures
            r == self.spec_is_shift(),
    {
        match self {
            Mode::Normal(_) => false,
            Mode::Shift(_) => true,
        }
    }

    /// The absolute mode number, whichever layer is active.
    #[verifier::when_used_as_spec(spec_absolute)]
    pub fn absolute(&self) -> (r: u8)
        ensures
            r == self.spec_absolute(),
    {
        match self {
            Mode::Normal(n) => *n,
            Mode::Shift(n) => *n,
        }
    }
}

/// The context selected by the low three bits of the mode byte: 0..=2 pick a
/// normal mode, 4..=6 the shift mode `value - 4`, and the undefined values 3
/// and 7 fall back to normal mode 0.
pub open spec fn context_of(mode_byte: u8) -> Mode {
    let v = mode_byte & 7u8;
    if v <= 2 {
        Mode::Normal(v)
    } else if 4 <= v && v <= 6 {
        Mode::Shift((v - 4) as u8)
    } else {
        Mode::Normal(0)
    }
}

/// Decodes the operating context from the mode byte (byte 2 of a report).
pub fn decode_context(mode_byte: u8) -> (r: Mode)
    ensures
        r == context_of(mode_byte),
        r.wf(),
{
    let v: u8 = mode_byte & 7;
    assert(v <= 7) by (bit_vector)
        requires
            v == mode_byte & 7u8,
    ;
    if v <= 2 {
        Mode::Normal(v)
    } else if 4 <= v && v <= 6 {
        Mode::Shift(v - 4)
    } else {
        Mode::Normal(0)
    }
}

/// The context depends on nothing but the low three bits of the mode byte,
/// and the undefined values 3 and 7 always give normal mode 0.
pub proof fn lemma_context_low_bits(a: u8, b: u8)
    ensures
        (a & 7u8) == (b & 7u8) ==> context_of(a) == context_of(b),
        (a & 7u8) == 3 || (a & 7u8) == 7 ==> context_of(a) == Mode::Normal(0),
        context_of(a).wf(),
{
    assert(a & 7u8 <= 7) by (bit_vector);
}

/// Number of remappable logical buttons.
pub const BUTTON_COUNT: usize = 15;

/// The remappable logical buttons, declared in the fixed order in which every
/// cycle evaluates them (the order of their bits in the report).
#[derive(PartialEq, Eq, Structural, Clone, Copy, Debug)]
pub enum LogicalButton {
    BackButton,
    ForwardsButton,
    Button1,
    Button2,
    Button3,
    HatTop,
    HatBottom,
    HatLeft,
    HatRight,
    PrecisionAim,
    ThumbClockwise,
    ThumbAnticlockwise,
    ScrollButton,
    LeftActionlock,
    RightActionlock,
}

/// The button evaluated at position `k` of a cycle.
pub open spec fn button_at(k: int) -> LogicalButton {
    if k == 0 {
        LogicalButton::BackButton
    } else if k == 1 {
        LogicalButton::ForwardsButton
    } else if k == 2 {
        LogicalButton::Button1
    } else if k == 3 {
        LogicalButton::Button2
    } else if k == 4 {
        LogicalButton::Button3
    } else if k == 5 {
        LogicalButton::HatTop
    } else if k == 6 {
        LogicalButton::HatBottom
    } else if k == 7 {
        LogicalButton::HatLeft
    } else if k == 8 {
        LogicalButton::HatRight
    } else if k == 9 {
        LogicalButton::PrecisionAim
    } else if k == 10 {
        LogicalButton::ThumbClockwise
    } else if k == 11 {
        LogicalButton::ThumbAnticlockwise
    } else if k == 12 {
        LogicalButton::ScrollButton
    } else if k == 13 {
        LogicalButton::LeftActionlock
    } else {
        LogicalButton::RightActionlock
    }
}

/// Index of the report byte that carries the state of the button at position `k`.
pub open spec fn button_byte(k: int) -> int {
    if k < 5 {
        0
    } else if k < 12 {
        1
    } else {
        2
    }
}

/// Bit mask, within its byte, of the button at position `k`.
pub open spec fn button_mask(k: int) -> u8 {
    if k == 0 {
        8
    } else if k == 1 {
        16
    } else if k == 2 {
        32
    } else if k == 3 {
        64
    } else if k == 4 {
        128
    } else if k == 5 {
        1
    } else if k == 6 {
        2
    } else if k == 7 {
        4
    } else if k == 8 {
        8
    } else if k == 9 {
        16
    } else if k == 10 {
        32
    } else if k == 11 {
        64
    } else if k == 12 {
        8
    } else if k == 13 {
        16
    } else {
        32
    }
}

/// Whether the report holds the button at position `k` down.
pub open spec fn pressed_at(report: Seq<u8>, k: int) -> bool {
    report[button_byte(k)] & button_mask(k) != 0
}

/// Position, in the list of a device's button configurations, of the button
/// evaluated at position `k`.
pub open spec fn config_index_at(k: int) -> int {
    if k == 0 {
        4
    } else if k == 1 {
        3
    } else if k == 2 {
        11
    } else if k == 3 {
        13
    } else if k == 4 {
        14
    } else if k == 5 {
        7
    } else if k == 6 {
        10
    } else if k == 7 {
        8
    } else if k == 8 {
        9
    } else if k == 9 {
        12
    } else if k == 10 {
        6
    } else if k == 11 {
        5
    } else if k == 12 {
        0
    } else if k == 13 {
        1
    } else {
        2
    }
}

impl LogicalButton {
    /// The button evaluated at position `k` of a cycle.
    pub fn at(k: usize) -> (r: LogicalButton)
        requires
            k < BUTTON_COUNT,
        ensures
            r == button_at(k as int),
    {
        match k {
            0 => LogicalButton::BackButton,
            1 => LogicalButton::ForwardsButton,
            2 => LogicalButton::Button1,
            3 => LogicalButton::Button2,
            4 => LogicalButton::Button3,
            5 => LogicalButton::HatTop,
            6 => LogicalButton::HatBottom,
            7 => LogicalButton::HatLeft,
            8 => LogicalButton::HatRight,
            9 => LogicalButton::PrecisionAim,
            10 => LogicalButton::ThumbClockwise,
            11 => LogicalButton::ThumbAnticlockwise,
            12 => LogicalButton::ScrollButton,
            13 => LogicalButton::LeftActionlock,
            _ => LogicalButton::RightActionlock,
        }
    }
}

/// Position in the button configuration list of the button evaluated at position `k`.
pub fn config_index(k: usize) -> (r: usize)
    requires
        k < BUTTON_COUNT,
    ensures
        r == config_index_at(k as int),
        r < BUTTON_COUNT,
{
    match k {
        0 => 4,
        1 => 3,
        2 => 11,
        3 => 13,
        4 => 14,
        5 => 7,
        6 => 10,
        7 => 8,
        8 => 9,
        9 => 12,
        10 => 6,
        11 => 5,
        12 => 0,
        13 => 1,
        _ => 2,
    }
}

/// Whether the report holds the button at position `k` down.
pub fn is_pressed(report: &[u8; 8], k: usize) -> (r: bool)
    requires
        k < BUTTON_COUNT,
    ensures
        r == pressed_at(report@, k as int),
{
    let (byte, mask): (usize, u8) = match k {
        0 => (0, 8),
        1 => (0, 16),
        2 => (0, 32),
        3 => (0, 64),
        4 => (0, 128),
        5 => (1, 1),
        6 => (1, 2),
        7 => (1, 4),
        8 => (1, 8),
        9 => (1, 16),
        10 => (1, 32),
        11 => (1, 64),
        12 => (2, 8),
        13 => (2, 16),
        _ => (2, 32),
    };
    report[byte] & mask != 0
}

/// A raw movement byte read as a two's-complement 8-bit value.
pub open spec fn signed_delta(raw: u8) -> int {
    if raw < 128 {
        raw as int
    } else {
        raw as int - 256
    }
}

/// Decodes a movement byte as a signed relative delta.
pub fn relative_delta(raw: u8) -> (r: i32)
    ensures
        r == signed_delta(raw),
        -128 <= r < 128,
{
    if raw < 128 {
        raw as i32
    } else {
        raw as i32 - 256
    }
}

} // verus!
