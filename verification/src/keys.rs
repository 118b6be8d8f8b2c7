//! The closed enumeration of key identifiers and the canonical name table.
//!
//! Binding configurations refer to keys by name.  Names are resolved once at
//! load time against this table; a name outside the table is a fatal
//! configuration error for the caller.  Single-character names denote the
//! letter, digit or punctuation key they spell; longer names denote the
//! navigation keys listed in `key_name_model`.

use vstd::prelude::*;

verus! {

use vstd::string::StrSliceExecFns;

/// One key a binding can refer to.  The enumeration is closed: the state
/// machine and the classifier treat keys purely as identifiers.
#[derive(Clone, Copy, PartialEq, Eq, Structural, Debug)]
pub enum KeyId {
    A,
    B,
    C,
    D,
    E,
    F,
    G,
    H,
    I,
    J,
    K,
    L,
    M,
    N,
    O,
    P,
    Q,
    R,
    S,
    T,
    U,
    V,
    W,
    X,
    Y,
    Z,
    Num0,
    Num1,
    Num2,
    Num3,
    Num4,
    Num5,
    Num6,
    Num7,
    Num8,
    Num9,
    Space,
    Enter,
    Tab,
    Backspace,
    Escape,
    Delete,
    Insert,
    Home,
    End,
    PageUp,
    PageDown,
    ArrowUp,
    ArrowDown,
    ArrowLeft,
    ArrowRight,
    Minus,
    Plus,
    Equals,
    Comma,
    Period,
    Semicolon,
    Slash,
    Backslash,
    OpenBracket,
    CloseBracket,
    Backtick,
    Quote,
}

/// Key denoted by a single-character name: letters (either case), digits,
/// and the punctuation spellings.
pub open spec fn char_key(ch: char) -> Option<KeyId> {
    match ch {
        'a' | 'A' => Some(KeyId::A),
        'b' | 'B' => Some(KeyId::B),
        'c' | 'C' => Some(KeyId::C),
        'd' | 'D' => Some(KeyId::D),
        'e' | 'E' => Some(KeyId::E),
        'f' | 'F' => Some(KeyId::F),
        'g' | 'G' => Some(KeyId::G),
        'h' | 'H' => Some(KeyId::H),
        'i' | 'I' => Some(KeyId::I),
        'j' | 'J' => Some(KeyId::J),
        'k' | 'K' => Some(KeyId::K),
        'l' | 'L' => Some(KeyId::L),
        'm' | 'M' => Some(KeyId::M),
        'n' | 'N' => Some(KeyId::N),
        'o' | 'O' => Some(KeyId::O),
        'p' | 'P' => Some(KeyId::P),
        'q' | 'Q' => Some(KeyId::Q),
        'r' | 'R' => Some(KeyId::R),
        's' | 'S' => Some(KeyId::S),
        't' | 'T' => Some(KeyId::T),
        'u' | 'U' => Some(KeyId::U),
        'v' | 'V' => Some(KeyId::V),
        'w' | 'W' => Some(KeyId::W),
        'x' | 'X' => Some(KeyId::X),
        'y' | 'Y' => Some(KeyId::Y),
        'z' | 'Z' => Some(KeyId::Z),
        '0' => Some(KeyId::Num0),
        '1' => Some(KeyId::Num1),
        '2' => Some(KeyId::Num2),
        '3' => Some(KeyId::Num3),
        '4' => Some(KeyId::Num4),
        '5' => Some(KeyId::Num5),
        '6' => Some(KeyId::Num6),
        '7' => Some(KeyId::Num7),
        '8' => Some(KeyId::Num8),
        '9' => Some(KeyId::Num9),
        '-' => Some(KeyId::Minus),
        '+' => Some(KeyId::Plus),
        '=' => Some(KeyId::Equals),
        ',' => Some(KeyId::Comma),
        '.' => Some(KeyId::Period),
        ';' => Some(KeyId::Semicolon),
        '/' => Some(KeyId::Slash),
        '\\' => Some(KeyId::Backslash),
        '[' => Some(KeyId::OpenBracket),
        ']' => Some(KeyId::CloseBracket),
        '`' => Some(KeyId::Backtick),
        '\'' => Some(KeyId::Quote),
        ' ' => Some(KeyId::Space),
        _ => None,
    }
}

/// The canonical name table: the key a configuration name denotes, or `None`
/// for a name outside the table.
pub open spec fn key_name_model(s: Seq<char>) -> Option<KeyId> {
    if s.len() == 1 {
        char_key(s[0])
    } else if s == "Space"@ {
        Some(KeyId::Space)
    } else if s == "Enter"@ {
        Some(KeyId::Enter)
    } else if s == "Tab"@ {
        Some(KeyId::Tab)
    } else if s == "Backspace"@ {
        Some(KeyId::Backspace)
    } else if s == "Escape"@ {
        Some(KeyId::Escape)
    } else if s == "Delete"@ {
        Some(KeyId::Delete)
    } else if s == "Insert"@ {
        Some(KeyId::Insert)
    } else if s == "Home"@ {
        Some(KeyId::Home)
    } else if s == "End"@ {
        Some(KeyId::End)
    } else if s == "PageUp"@ {
        Some(KeyId::PageUp)
    } else if s == "PageDown"@ {
        Some(KeyId::PageDown)
    } else if s == "ArrowUp"@ || s == "Up"@ {
        Some(KeyId::ArrowUp)
    } else if s == "ArrowDown"@ || s == "Down"@ {
        Some(KeyId::ArrowDown)
    } else if s == "ArrowLeft"@ || s == "Left"@ {
        Some(KeyId::ArrowLeft)
    } else if s == "ArrowRight"@ || s == "Right"@ {
        Some(KeyId::ArrowRight)
    } else if s == "Minus"@ {
        Some(KeyId::Minus)
    } else if s == "Plus"@ {
        Some(KeyId::Plus)
    } else if s == "Equals"@ {
        Some(KeyId::Equals)
    } else {
        None
    }
}

/// Character-by-character string comparison.
fn str_eq(a: &str, b: &str) -> (r: bool)
    ensures
        r == (a@ == b@),
{
    let la = a.unicode_len();
    let lb = b.unicode_len();
    if la != lb {
        return false;
    }
    let mut i: usize = 0;
    while i < la
        invariant
            la == a@.len(),
            la == b@.len(),
            0 <= i <= la,
            forall|j: int| 0 <= j < i ==> a@[j] == b@[j],
        decreases la - i,
    {
        if a.get_char(i) != b.get_char(i) {
            return false;
        }
        i = i + 1;
    }
    proof {
        assert(a@ =~= b@);
    }
    true
}

/// Key denoted by a single-character name.
fn char_key_of(ch: char) -> (r: Option<KeyId>)
    ensures
        r == char_key(ch),
{
    match ch {
        'a' | 'A' => Some(KeyId::A),
        'b' | 'B' => Some(KeyId::B),
        'c' | 'C' => Some(KeyId::C),
        'd' | 'D' => Some(KeyId::D),
        'e' | 'E' => Some(KeyId::E),
        'f' | 'F' => Some(KeyId::F),
        'g' | 'G' => Some(KeyId::G),
        'h' | 'H' => Some(KeyId::H),
        'i' | 'I' => Some(KeyId::I),
        'j' | 'J' => Some(KeyId::J),
        'k' | 'K' => Some(KeyId::K),
        'l' | 'L' => Some(KeyId::L),
        'm' | 'M' => Some(KeyId::M),
        'n' | 'N' => Some(KeyId::N),
        'o' | 'O' => Some(KeyId::O),
        'p' | 'P' => Some(KeyId::P),
        'q' | 'Q' => Some(KeyId::Q),
        'r' | 'R' => Some(KeyId::R),
        's' | 'S' => Some(KeyId::S),
        't' | 'T' => Some(KeyId::T),
        'u' | 'U' => Some(KeyId::U),
        'v' | 'V' => Some(KeyId::V),
        'w' | 'W' => Some(KeyId::W),
        'x' | 'X' => Some(KeyId::X),
        'y' | 'Y' => Some(KeyId::Y),
        'z' | 'Z' => Some(KeyId::Z),
        '0' => Some(KeyId::Num0),
        '1' => Some(KeyId::Num1),
        '2' => Some(KeyId::Num2),
        '3' => Some(KeyId::Num3),
        '4' => Some(KeyId::Num4),
        '5' => Some(KeyId::Num5),
        '6' => Some(KeyId::Num6),
        '7' => Some(KeyId::Num7),
        '8' => Some(KeyId::Num8),
        '9' => Some(KeyId::Num9),
        '-' => Some(KeyId::Minus),
        '+' => Some(KeyId::Plus),
        '=' => Some(KeyId::Equals),
        ',' => Some(KeyId::Comma),
        '.' => Some(KeyId::Period),
        ';' => Some(KeyId::Semicolon),
        '/' => Some(KeyId::Slash),
        '\\' => Some(KeyId::Backslash),
        '[' => Some(KeyId::OpenBracket),
        ']' => Some(KeyId::CloseBracket),
        '`' => Some(KeyId::Backtick),
        '\'' => Some(KeyId::Quote),
        ' ' => Some(KeyId::Space),
        _ => None,
    }
}

/// Resolve a configuration name against the canonical name table.
pub fn key_from_name(name: &str) -> (r: Option<KeyId>)
    ensures
        r == key_name_model(name@),
{
    let n = name.unicode_len();
    if n == 1 {
        char_key_of(name.get_char(0))
    } else if str_eq(name, "Space") {
        Some(KeyId::Space)
    } else if str_eq(name, "Enter") {
        Some(KeyId::Enter)
    } else if str_eq(name, "Tab") {
        Some(KeyId::Tab)
    } else if str_eq(name, "Backspace") {
        Some(KeyId::Backspace)
    } else if str_eq(name, "Escape") {
        Some(KeyId::Escape)
    } else if str_eq(name, "Delete") {
        Some(KeyId::Delete)
    } else if str_eq(name, "Insert") {
        Some(KeyId::Insert)
    } else if str_eq(name, "Home") {
        Some(KeyId::Home)
    } else if str_eq(name, "End") {
        Some(KeyId::End)
    } else if str_eq(name, "PageUp") {
        Some(KeyId::PageUp)
    } else if str_eq(name, "PageDown") {
        Some(KeyId::PageDown)
    } else if str_eq(name, "ArrowUp") || str_eq(name, "Up") {
        Some(KeyId::ArrowUp)
    } else if str_eq(name, "ArrowDown") || str_eq(name, "Down") {
        Some(KeyId::ArrowDown)
    } else if str_eq(name, "ArrowLeft") || str_eq(name, "Left") {
        Some(KeyId::ArrowLeft)
    } else if str_eq(name, "ArrowRight") || str_eq(name, "Right") {
        Some(KeyId::ArrowRight)
    } else if str_eq(name, "Minus") {
        Some(KeyId::Minus)
    } else if str_eq(name, "Plus") {
        Some(KeyId::Plus)
    } else if str_eq(name, "Equals") {
        Some(KeyId::Equals)
    } else {
        None
    }
}

} // verus!
