use vstd::prelude::*;

verus! {

/// The keys of the 10 x 8 keyboard matrix, row by row; within a row, the
/// key at position `i` answers on bit `7 - i` of the row byte.
#[derive(Clone, Copy, PartialEq, Eq, Debug, Hash, Structural)]
pub enum CpcKey {
    // Row 1
    Fdot,
    Enter,
    F3,
    F6,
    F9,
    CursorDown,
    CursorRight,
    CursorUp,
    // Row 2
    F0,
    F2,
    F1,
    F5,
    F8,
    F7,
    Copy,
    CursorLeft,
    // Row 3
    Ctrl,
    Backslash,
    Shift,
    F4,
    ClosedBracket,
    Return,
    OpenBracket,
    Clr,
    // Row 4
    Comma,
    Slash,
    Colon,
    Semicolon,
    P,
    At,
    Minus,
    Caret,
    // Row 5
    Dot,
    M,
    K,
    L,
    I,
    O,
    Nine,
    Zero,
    // Row 6
    Space,
    N,
    J,
    H,
    Y,
    U,
    Seven,
    Eight,
    // Row 7
    V,
    B,
    F,
    G,
    T,
    R,
    Five,
    Six,
    // Row 8
    X,
    C,
    D,
    S,
    W,
    E,
    Three,
    Four,
    // Row 9
    Z,
    CapsLock,
    A,
    Tab,
    Q,
    Esc,
    Two,
    One,
    // Row 10
    Del,
    Unused,
    Joy0Fire1,
    Joy0Fire2,
    Joy0Right,
    Joy0Left,
    Joy0Down,
    Joy0Up,
}

/// Position of `key` in the matrix: row times 8 plus its place in the row.
pub open spec fn spec_key_index(key: CpcKey) -> u8 {
    match key {
        CpcKey::Fdot => 0,
        CpcKey::Enter => 1,
        CpcKey::F3 => 2,
        CpcKey::F6 => 3,
        CpcKey::F9 => 4,
        CpcKey::CursorDown => 5,
        CpcKey::CursorRight => 6,
        CpcKey::CursorUp => 7,
        CpcKey::F0 => 8,
        CpcKey::F2 => 9,
        CpcKey::F1 => 10,
        CpcKey::F5 => 11,
        CpcKey::F8 => 12,
        CpcKey::F7 => 13,
        CpcKey::Copy => 14,
        CpcKey::CursorLeft => 15,
        CpcKey::Ctrl => 16,
        CpcKey::Backslash => 17,
        CpcKey::Shift => 18,
        CpcKey::F4 => 19,
        CpcKey::ClosedBracket => 20,
        CpcKey::Return => 21,
        CpcKey::OpenBracket => 22,
        CpcKey::Clr => 23,
        CpcKey::Comma => 24,
        CpcKey::Slash => 25,
        CpcKey::Colon => 26,
        CpcKey::Semicolon => 27,
        CpcKey::P => 28,
        CpcKey::At => 29,
        CpcKey::Minus => 30,
        CpcKey::Caret => 31,
        CpcKey::Dot => 32,
        CpcKey::M => 33,
        CpcKey::K => 34,
        CpcKey::L => 35,
        CpcKey::I => 36,
        CpcKey::O => 37,
        CpcKey::Nine => 38,
        CpcKey::Zero => 39,
        CpcKey::Space => 40,
        CpcKey::N => 41,
        CpcKey::J => 42,
        CpcKey::H => 43,
        CpcKey::Y => 44,
        CpcKey::U => 45,
        CpcKey::Seven => 46,
        CpcKey::Eight => 47,
        CpcKey::V => 48,
        CpcKey::B => 49,
        CpcKey::F => 50,
        CpcKey::G => 51,
        CpcKey::T => 52,
        CpcKey::R => 53,
        CpcKey::Five => 54,
        CpcKey::Six => 55,
        CpcKey::X => 56,
        CpcKey::C => 57,
        CpcKey::D => 58,
        CpcKey::S => 59,
        CpcKey::W => 60,
        CpcKey::E => 61,
        CpcKey::Three => 62,
        CpcKey::Four => 63,
        CpcKey::Z => 64,
        CpcKey::CapsLock => 65,
        CpcKey::A => 66,
        CpcKey::Tab => 67,
        CpcKey::Q => 68,
        CpcKey::Esc => 69,
        CpcKey::Two => 70,
        CpcKey::One => 71,
        CpcKey::Del => 72,
        CpcKey::Unused => 73,
        CpcKey::Joy0Fire1 => 74,
        CpcKey::Joy0Fire2 => 75,
        CpcKey::Joy0Right => 76,
        CpcKey::Joy0Left => 77,
        CpcKey::Joy0Down => 78,
        CpcKey::Joy0Up => 79,
    }
}

/// The key at matrix position `idx`.
pub open spec fn spec_key_at(idx: u8) -> CpcKey
    recommends
        idx < 80,
{
    match idx {
        0 => CpcKey::Fdot,
        1 => CpcKey::Enter,
        2 => CpcKey::F3,
        3 => CpcKey::F6,
        4 => CpcKey::F9,
        5 => CpcKey::CursorDown,
        6 => CpcKey::CursorRight,
        7 => CpcKey::CursorUp,
        8 => CpcKey::F0,
        9 => CpcKey::F2,
        10 => CpcKey::F1,
        11 => CpcKey::F5,
        12 => CpcKey::F8,
        13 => CpcKey::F7,
        14 => CpcKey::Copy,
        15 => CpcKey::CursorLeft,
        16 => CpcKey::Ctrl,
        17 => CpcKey::Backslash,
        18 => CpcKey::Shift,
        19 => CpcKey::F4,
        20 => CpcKey::ClosedBracket,
        21 => CpcKey::Return,
        22 => CpcKey::OpenBracket,
        23 => CpcKey::Clr,
        24 => CpcKey::Comma,
        25 => CpcKey::Slash,
        26 => CpcKey::Colon,
        27 => CpcKey::Semicolon,
        28 => CpcKey::P,
        29 => CpcKey::At,
        30 => CpcKey::Minus,
        31 => CpcKey::Caret,
        32 => CpcKey::Dot,
        33 => CpcKey::M,
        34 => CpcKey::K,
        35 => CpcKey::L,
        36 => CpcKey::I,
        37 => CpcKey::O,
        38 => CpcKey::Nine,
        39 => CpcKey::Zero,
        40 => CpcKey::Space,
        41 => CpcKey::N,
        42 => CpcKey::J,
        43 => CpcKey::H,
        44 => CpcKey::Y,
        45 => CpcKey::U,
        46 => CpcKey::Seven,
        47 => CpcKey::Eight,
        48 => CpcKey::V,
        49 => CpcKey::B,
        50 => CpcKey::F,
        51 => CpcKey::G,
        52 => CpcKey::T,
        53 => CpcKey::R,
        54 => CpcKey::Five,
        55 => CpcKey::Six,
        56 => CpcKey::X,
        57 => CpcKey::C,
        58 => CpcKey::D,
        59 => CpcKey::S,
        60 => CpcKey::W,
        61 => CpcKey::E,
        62 => CpcKey::Three,
        63 => CpcKey::Four,
        64 => CpcKey::Z,
        65 => CpcKey::CapsLock,
        66 => CpcKey::A,
        67 => CpcKey::Tab,
        68 => CpcKey::Q,
        69 => CpcKey::Esc,
        70 => CpcKey::Two,
        71 => CpcKey::One,
        72 => CpcKey::Del,
        73 => CpcKey::Unused,
        74 => CpcKey::Joy0Fire1,
        75 => CpcKey::Joy0Fire2,
        76 => CpcKey::Joy0Right,
        77 => CpcKey::Joy0Left,
        78 => CpcKey::Joy0Down,
        _ => CpcKey::Joy0Up,
    }
}

/// Number of keys in the matrix.
pub const KEY_COUNT: usize = 80;

impl CpcKey {
    pub const ROW1: [Self; 8] = [
        Self::Fdot,
        Self::Enter,
        Self::F3,
        Self::F6,
        Self::F9,
        Self::CursorDown,
        Self::CursorRight,
        Self::CursorUp,
    ];
    pub const ROW2: [Self; 8] = [
        Self::F0,
        Self::F2,
        Self::F1,
        Self::F5,
        Self::F8,
        Self::F7,
        Self::Copy,
        Self::CursorLeft,
    ];
    pub const ROW3: [Self; 8] = [
        Self::Ctrl,
        Self::Backslash,
        Self::Shift,
        Self::F4,
        Self::ClosedBracket,
        Self::Return,
        Self::OpenBracket,
        Self::Clr,
    ];
    pub const ROW4: [Self; 8] = [
        Self::Comma,
        Self::Slash,
        Self::Colon,
        Self::Semicolon,
        Self::P,
        Self::At,
        Self::Minus,
        Self::Caret,
    ];
    pub const ROW5: [Self; 8] = [
        Self::Dot,
        Self::M,
        Self::K,
        Self::L,
        Self::I,
        Self::O,
        Self::Nine,
        Self::Zero,
    ];
    pub const ROW6: [Self; 8] = [
        Self::Space,
        Self::N,
        Self::J,
        Self::H,
        Self::Y,
        Self::U,
        Self::Seven,
        Self::Eight,
    ];
    pub const ROW7: [Self; 8] = [
        Self::V,
        Self::B,
        Self::F,
        Self::G,
        Self::T,
        Self::R,
        Self::Five,
        Self::Six,
    ];
    pub const ROW8: [Self; 8] = [
        Self::X,
        Self::C,
        Self::D,
        Self::S,
        Self::W,
        Self::E,
        Self::Three,
        Self::Four,
    ];
    pub const ROW9: [Self; 8] = [
        Self::Z,
        Self::CapsLock,
        Self::A,
        Self::Tab,
        Self::Q,
        Self::Esc,
        Self::Two,
        Self::One,
    ];
    pub const ROW10: [Self; 8] = [
        Self::Del,
        Self::Unused,
        Self::Joy0Fire1,
        Self::Joy0Fire2,
        Self::Joy0Right,
        Self::Joy0Left,
        Self::Joy0Down,
        Self::Joy0Up,
    ];
    pub const ALL_KEYS: [Self; 80] = [
        Self::Fdot,
        Self::Enter,
        Self::F3,
        Self::F6,
        Self::F9,
        Self::CursorDown,
        Self::CursorRight,
        Self::CursorUp,
        Self::F0,
        Self::F2,
        Self::F1,
        Self::F5,
        Self::F8,
        Self::F7,
        Self::Copy,
        Self::CursorLeft,
        Self::Ctrl,
        Self::Backslash,
        Self::Shift,
        Self::F4,
        Self::ClosedBracket,
        Self::Return,
        Self::OpenBracket,
        Self::Clr,
        Self::Comma,
        Self::Slash,
        Self::Colon,
        Self::Semicolon,
        Self::P,
        Self::At,
        Self::Minus,
        Self::Caret,
        Self::Dot,
        Self::M,
        Self::K,
        Self::L,
        Self::I,
        Self::O,
        Self::Nine,
        Self::Zero,
        Self::Space,
        Self::N,
        Self::J,
        Self::H,
        Self::Y,
        Self::U,
        Self::Seven,
        Self::Eight,
        Self::V,
        Self::B,
        Self::F,
        Self::G,
        Self::T,
        Self::R,
        Self::Five,
        Self::Six,
        Self::X,
        Self::C,
        Self::D,
        Self::S,
        Self::W,
        Self::E,
        Self::Three,
        Self::Four,
        Self::Z,
        Self::CapsLock,
        Self::A,
        Self::Tab,
        Self::Q,
        Self::Esc,
        Self::Two,
        Self::One,
        Self::Del,
        Self::Unused,
        Self::Joy0Fire1,
        Self::Joy0Fire2,
        Self::Joy0Right,
        Self::Joy0Left,
        Self::Joy0Down,
        Self::Joy0Up,
    ];

    /// Position of this key in the matrix (row times 8 plus column).
    pub fn index(&self) -> (r: u8)
        ensures
            r == spec_key_index(*self),
            r < 80,
    {
        match self {
            Self::Fdot => 0,
            Self::Enter => 1,
            Self::F3 => 2,
            Self::F6 => 3,
            Self::F9 => 4,
            Self::CursorDown => 5,
            Self::CursorRight => 6,
            Self::CursorUp => 7,
            Self::F0 => 8,
            Self::F2 => 9,
            Self::F1 => 10,
            Self::F5 => 11,
            Self::F8 => 12,
            Self::F7 => 13,
            Self::Copy => 14,
            Self::CursorLeft => 15,
            Self::Ctrl => 16,
            Self::Backslash => 17,
            Self::Shift => 18,
            Self::F4 => 19,
            Self::ClosedBracket => 20,
            Self::Return => 21,
            Self::OpenBracket => 22,
            Self::Clr => 23,
            Self::Comma => 24,
            Self::Slash => 25,
            Self::Colon => 26,
            Self::Semicolon => 27,
            Self::P => 28,
            Self::At => 29,
            Self::Minus => 30,
            Self::Caret => 31,
            Self::Dot => 32,
            Self::M => 33,
            Self::K => 34,
            Self::L => 35,
            Self::I => 36,
            Self::O => 37,
            Self::Nine => 38,
            Self::Zero => 39,
            Self::Space => 40,
            Self::N => 41,
            Self::J => 42,
            Self::H => 43,
            Self::Y => 44,
            Self::U => 45,
            Self::Seven => 46,
            Self::Eight => 47,
            Self::V => 48,
            Self::B => 49,
            Self::F => 50,
            Self::G => 51,
            Self::T => 52,
            Self::R => 53,
            Self::Five => 54,
            Self::Six => 55,
            Self::X => 56,
            Self::C => 57,
            Self::D => 58,
            Self::S => 59,
            Self::W => 60,
            Self::E => 61,
            Self::Three => 62,
            Self::Four => 63,
            Self::Z => 64,
            Self::CapsLock => 65,
            Self::A => 66,
            Self::Tab => 67,
            Self::Q => 68,
            Self::Esc => 69,
            Self::Two => 70,
            Self::One => 71,
            Self::Del => 72,
            Self::Unused => 73,
            Self::Joy0Fire1 => 74,
            Self::Joy0Fire2 => 75,
            Self::Joy0Right => 76,
            Self::Joy0Left => 77,
            Self::Joy0Down => 78,
            Self::Joy0Up => 79,
        }
    }

    /// The key at matrix position `idx`.
    pub fn from_index(idx: u8) -> (k: CpcKey)
        requires
            idx < 80,
        ensures
            k == spec_key_at(idx),
            spec_key_index(k) == idx,
    {
        match idx {
            0 => Self::Fdot,
            1 => Self::Enter,
            2 => Self::F3,
            3 => Self::F6,
            4 => Self::F9,
            5 => Self::CursorDown,
            6 => Self::CursorRight,
            7 => Self::CursorUp,
            8 => Self::F0,
            9 => Self::F2,
            10 => Self::F1,
            11 => Self::F5,
            12 => Self::F8,
            13 => Self::F7,
            14 => Self::Copy,
            15 => Self::CursorLeft,
            16 => Self::Ctrl,
            17 => Self::Backslash,
            18 => Self::Shift,
            19 => Self::F4,
            20 => Self::ClosedBracket,
            21 => Self::Return,
            22 => Self::OpenBracket,
            23 => Self::Clr,
            24 => Self::Comma,
            25 => Self::Slash,
            26 => Self::Colon,
            27 => Self::Semicolon,
            28 => Self::P,
            29 => Self::At,
            30 => Self::Minus,
            31 => Self::Caret,
            32 => Self::Dot,
            33 => Self::M,
            34 => Self::K,
            35 => Self::L,
            36 => Self::I,
            37 => Self::O,
            38 => Self::Nine,
            39 => Self::Zero,
            40 => Self::Space,
            41 => Self::N,
            42 => Self::J,
            43 => Self::H,
            44 => Self::Y,
            45 => Self::U,
            46 => Self::Seven,
            47 => Self::Eight,
            48 => Self::V,
            49 => Self::B,
            50 => Self::F,
            51 => Self::G,
            52 => Self::T,
            53 => Self::R,
            54 => Self::Five,
            55 => Self::Six,
            56 => Self::X,
            57 => Self::C,
            58 => Self::D,
            59 => Self::S,
            60 => Self::W,
            61 => Self::E,
            62 => Self::Three,
            63 => Self::Four,
            64 => Self::Z,
            65 => Self::CapsLock,
            66 => Self::A,
            67 => Self::Tab,
            68 => Self::Q,
            69 => Self::Esc,
            70 => Self::Two,
            71 => Self::One,
            72 => Self::Del,
            73 => Self::Unused,
            74 => Self::Joy0Fire1,
            75 => Self::Joy0Fire2,
            76 => Self::Joy0Right,
            77 => Self::Joy0Left,
            78 => Self::Joy0Down,
            _ => Self::Joy0Up,
        }
    }
}

/// Every key has its own matrix position.
pub proof fn lemma_key_index_roundtrip(key: CpcKey)
    ensures
        spec_key_index(key) < 80,
        spec_key_at(spec_key_index(key)) == key,
{
}

/// Every matrix position holds its own key.
pub proof fn lemma_key_at_roundtrip(i: u8)
    requires
        i < 80,
    ensures
        spec_key_index(spec_key_at(i)) == i,
{
}

/// Row `r` (0-9) of the matrix as the hardware wires it: `ROW1` to `ROW10`.
pub open spec fn matrix_row(r: int) -> [CpcKey; 8] {
    if r == 0 {
        CpcKey::ROW1
    } else if r == 1 {
        CpcKey::ROW2
    } else if r == 2 {
        CpcKey::ROW3
    } else if r == 3 {
        CpcKey::ROW4
    } else if r == 4 {
        CpcKey::ROW5
    } else if r == 5 {
        CpcKey::ROW6
    } else if r == 6 {
        CpcKey::ROW7
    } else if r == 7 {
        CpcKey::ROW8
    } else if r == 8 {
        CpcKey::ROW9
    } else {
        CpcKey::ROW10
    }
}

/// Matrix layout: the key wired at column `c` of row `r` (the tables
/// `ROW1`-`ROW10`, and `ALL_KEYS` row after row) has matrix position
/// 8 * r + c, and position 8 * r + c holds that key; so that key answers
/// on bit 7 - c of row r's byte.
pub proof fn law_key_layout(r: int, c: int)
    requires
        0 <= r < 10,
        0 <= c < 8,
    ensures
        spec_key_index(matrix_row(r)@[c]) == 8 * r + c,
        spec_key_at((8 * r + c) as u8) == matrix_row(r)@[c],
        CpcKey::ALL_KEYS@[8 * r + c] == matrix_row(r)@[c],
{
}

} // verus!
