//! Logical keys, keycode-to-character tables, and injection planning.
//!
//! The capture backends read raw, layout-independent key codes; the engine
//! wants characters. [`key_to_char`] maps a logical key with the live
//! shift state to the character it produces on a US layout, kept as a
//! data table so it can be tested character for character without a real
//! keyboard. [`char_to_keycode`] is the reverse table the virtual-device
//! injector uses: which key, and whether shift must be held, to produce a
//! character. [`ShiftState`] tracks the shift keys across raw key
//! transitions and turns key-down events into [`InputEvent`]s.

use vstd::prelude::*;
use crate::engine::InputEvent;

verus! {

/// A logical key of the keyboard, named independently of any backend's
/// key-code numbering. `Other` stands for every key the engine does not
/// read.
#[derive(Clone, Copy, Debug, PartialEq, Eq, Structural)]
pub enum Key {
    KeyA,
    KeyB,
    KeyC,
    KeyD,
    KeyE,
    KeyF,
    KeyG,
    KeyH,
    KeyI,
    KeyJ,
    KeyK,
    KeyL,
    KeyM,
    KeyN,
    KeyO,
    KeyP,
    KeyQ,
    KeyR,
    KeyS,
    KeyT,
    KeyU,
    KeyV,
    KeyW,
    KeyX,
    KeyY,
    KeyZ,
    Num0,
    Num1,
    Num2,
    Num3,
    Num4,
    Num5,
    Num6,
    Num7,
    Num8,
    Num9,
    Space,
    Slash,
    Dot,
    Comma,
    Minus,
    Equal,
    LeftBracket,
    RightBracket,
    BackSlash,
    SemiColon,
    Quote,
    BackQuote,
    Backspace,
    Return,
    KpReturn,
    Tab,
    ShiftLeft,
    ShiftRight,
    LeftArrow,
    Other,
}

/// The unshifted and shifted characters of a printable key, if it has
/// them.
pub open spec fn key_chars(key: Key) -> Option<(char, char)> {
    match key {
        Key::KeyA => Some(('a', 'A')),
        Key::KeyB => Some(('b', 'B')),
        Key::KeyC => Some(('c', 'C')),
        Key::KeyD => Some(('d', 'D')),
        Key::KeyE => Some(('e', 'E')),
        Key::KeyF => Some(('f', 'F')),
        Key::KeyG => Some(('g', 'G')),
        Key::KeyH => Some(('h', 'H')),
        Key::KeyI => Some(('i', 'I')),
        Key::KeyJ => Some(('j', 'J')),
        Key::KeyK => Some(('k', 'K')),
        Key::KeyL => Some(('l', 'L')),
        Key::KeyM => Some(('m', 'M')),
        Key::KeyN => Some(('n', 'N')),
        Key::KeyO => Some(('o', 'O')),
        Key::KeyP => Some(('p', 'P')),
        Key::KeyQ => Some(('q', 'Q')),
        Key::KeyR => Some(('r', 'R')),
        Key::KeyS => Some(('s', 'S')),
        Key::KeyT => Some(('t', 'T')),
        Key::KeyU => Some(('u', 'U')),
        Key::KeyV => Some(('v', 'V')),
        Key::KeyW => Some(('w', 'W')),
        Key::KeyX => Some(('x', 'X')),
        Key::KeyY => Some(('y', 'Y')),
        Key::KeyZ => Some(('z', 'Z')),
        Key::Num0 => Some(('0', ')')),
        Key::Num1 => Some(('1', '!')),
        Key::Num2 => Some(('2', '@')),
        Key::Num3 => Some(('3', '#')),
        Key::Num4 => Some(('4', '$')),
        Key::Num5 => Some(('5', '%')),
        Key::Num6 => Some(('6', '^')),
        Key::Num7 => Some(('7', '&')),
        Key::Num8 => Some(('8', '*')),
        Key::Num9 => Some(('9', '(')),
        Key::Space => Some((' ', ' ')),
        Key::Slash => Some(('/', '?')),
        Key::Dot => Some(('.', '>')),
        Key::Comma => Some((',', '<')),
        Key::Minus => Some(('-', '_')),
        Key::Equal => Some(('=', '+')),
        Key::LeftBracket => Some(('[', '{')),
        Key::RightBracket => Some((']', '}')),
        Key::BackSlash => Some(('\\', '|')),
        Key::SemiColon => Some((';', ':')),
        Key::Quote => Some(('\'', '"')),
        Key::BackQuote => Some(('`', '~')),
        _ => None,
    }
}

/// The character a key-down produces: backspace, newline and tab for the
/// editing keys, and the cased character of a printable key under the
/// live shift state.
pub open spec fn key_to_char_spec(key: Key, is_shifted: bool) -> Option<char> {
    match key {
        Key::Backspace => Some('\u{8}'),
        Key::Return => Some('\n'),
        Key::KpReturn => Some('\n'),
        Key::Tab => Some('\t'),
        _ => match key_chars(key) {
            Some((lower, upper)) => Some(
                if is_shifted {
                    upper
                } else {
                    lower
                },
            ),
            None => None,
        },
    }
}

/// The character a key-down produces, per [`key_to_char_spec`].
pub fn key_to_char(key: &Key, is_shifted: bool) -> (r: Option<char>)
    ensures
        r == key_to_char_spec(*key, is_shifted),
{
    match key {
        Key::Backspace => Some('\u{8}'),
        Key::Return => Some('\n'),
        Key::KpReturn => Some('\n'),
        Key::Tab => Some('\t'),
        _ => {
            let pair: Option<(char, char)> = match key {
                Key::KeyA => Some(('a', 'A')),
                Key::KeyB => Some(('b', 'B')),
                Key::KeyC => Some(('c', 'C')),
                Key::KeyD => Some(('d', 'D')),
                Key::KeyE => Some(('e', 'E')),
                Key::KeyF => Some(('f', 'F')),
                Key::KeyG => Some(('g', 'G')),
                Key::KeyH => Some(('h', 'H')),
                Key::KeyI => Some(('i', 'I')),
                Key::KeyJ => Some(('j', 'J')),
                Key::KeyK => Some(('k', 'K')),
                Key::KeyL => Some(('l', 'L')),
                Key::KeyM => Some(('m', 'M')),
                Key::KeyN => Some(('n', 'N')),
                Key::KeyO => Some(('o', 'O')),
                Key::KeyP => Some(('p', 'P')),
                Key::KeyQ => Some(('q', 'Q')),
                Key::KeyR => Some(('r', 'R')),
                Key::KeyS => Some(('s', 'S')),
                Key::KeyT => Some(('t', 'T')),
                Key::KeyU => Some(('u', 'U')),
                Key::KeyV => Some(('v', 'V')),
                Key::KeyW => Some(('w', 'W')),
                Key::KeyX => Some(('x', 'X')),
                Key::KeyY => Some(('y', 'Y')),
                Key::KeyZ => Some(('z', 'Z')),
                Key::Num0 => Some(('0', ')')),
                Key::Num1 => Some(('1', '!')),
                Key::Num2 => Some(('2', '@')),
                Key::Num3 => Some(('3', '#')),
                Key::Num4 => Some(('4', '$')),
                Key::Num5 => Some(('5', '%')),
                Key::Num6 => Some(('6', '^')),
                Key::Num7 => Some(('7', '&')),
                Key::Num8 => Some(('8', '*')),
                Key::Num9 => Some(('9', '(')),
                Key::Space => Some((' ', ' ')),
                Key::Slash => Some(('/', '?')),
                Key::Dot => Some(('.', '>')),
                Key::Comma => Some((',', '<')),
                Key::Minus => Some(('-', '_')),
                Key::Equal => Some(('=', '+')),
                Key::LeftBracket => Some(('[', '{')),
                Key::RightBracket => Some((']', '}')),
                Key::BackSlash => Some(('\\', '|')),
                Key::SemiColon => Some((';', ':')),
                Key::Quote => Some(('\'', '"')),
                Key::BackQuote => Some(('`', '~')),
                _ => None,
            };
            match pair {
                Some((lower, upper)) => Some(
                    if is_shifted {
                        upper
                    } else {
                        lower
                    },
                ),
                None => None,
            }
        },
    }
}

/// The key, and whether shift must be held, that produces a character on
/// the virtual device; the reverse reading of [`key_chars`], with enter
/// and tab mapped to their keys.
pub open spec fn char_to_keycode_spec(c: char) -> Option<(Key, bool)> {
    if c == '\n' {
        Some((Key::Return, false))
    } else if c == '\t' {
        Some((Key::Tab, false))
    } else if c == ' ' {
        Some((Key::Space, false))
    } else {
        char_key_lookup(c)
    }
}

/// The printable key producing `c`, by the table of [`key_chars`]:
/// the unshifted column first, then the shifted one.
pub open spec fn char_key_lookup(c: char) -> Option<(Key, bool)> {
    if c == 'a' {
        Some((Key::KeyA, false))
    } else if c == 'b' {
        Some((Key::KeyB, false))
    } else if c == 'c' {
        Some((Key::KeyC, false))
    } else if c == 'd' {
        Some((Key::KeyD, false))
    } else if c == 'e' {
        Some((Key::KeyE, false))
    } else if c == 'f' {
        Some((Key::KeyF, false))
    } else if c == 'g' {
        Some((Key::KeyG, false))
    } else if c == 'h' {
        Some((Key::KeyH, false))
    } else if c == 'i' {
        Some((Key::KeyI, false))
    } else if c == 'j' {
        Some((Key::KeyJ, false))
    } else if c == 'k' {
        Some((Key::KeyK, false))
    } else if c == 'l' {
        Some((Key::KeyL, false))
    } else if c == 'm' {
        Some((Key::KeyM, false))
    } else if c == 'n' {
        Some((Key::KeyN, false))
    } else if c == 'o' {
        Some((Key::KeyO, false))
    } else if c == 'p' {
        Some((Key::KeyP, false))
    } else if c == 'q' {
        Some((Key::KeyQ, false))
    } else if c == 'r' {
        Some((Key::KeyR, false))
    } else if c == 's' {
        Some((Key::KeyS, false))
    } else if c == 't' {
        Some((Key::KeyT, false))
    } else if c == 'u' {
        Some((Key::KeyU, false))
    } else if c == 'v' {
        Some((Key::KeyV, false))
    } else if c == 'w' {
        Some((Key::KeyW, false))
    } else if c == 'x' {
        Some((Key::KeyX, false))
    } else if c == 'y' {
        Some((Key::KeyY, false))
    } else if c == 'z' {
        Some((Key::KeyZ, false))
    } else if c == 'A' {
        Some((Key::KeyA, true))
    } else if c == 'B' {
        Some((Key::KeyB, true))
    } else if c == 'C' {
        Some((Key::KeyC, true))
    } else if c == 'D' {
        Some((Key::KeyD, true))
    } else if c == 'E' {
        Some((Key::KeyE, true))
    } else if c == 'F' {
        Some((Key::KeyF, true))
    } else if c == 'G' {
        Some((Key::KeyG, true))
    } else if c == 'H' {
        Some((Key::KeyH, true))
    } else if c == 'I' {
        Some((Key::KeyI, true))
    } else if c == 'J' {
        Some((Key::KeyJ, true))
    } else if c == 'K' {
        Some((Key::KeyK, true))
    } else if c == 'L' {
        Some((Key::KeyL, true))
    } else if c == 'M' {
        Some((Key::KeyM, true))
    } else if c == 'N' {
        Some((Key::KeyN, true))
    } else if c == 'O' {
        Some((Key::KeyO, true))
    } else if c == 'P' {
        Some((Key::KeyP, true))
    } else if c == 'Q' {
        Some((Key::KeyQ, true))
    } else if c == 'R' {
        Some((Key::KeyR, true))
    } else if c == 'S' {
        Some((Key::KeyS, true))
    } else if c == 'T' {
        Some((Key::KeyT, true))
    } else if c == 'U' {
        Some((Key::KeyU, true))
    } else if c == 'V' {
        Some((Key::KeyV, true))
    } else if c == 'W' {
        Some((Key::KeyW, true))
    } else if c == 'X' {
        Some((Key::KeyX, true))
    } else if c == 'Y' {
        Some((Key::KeyY, true))
    } else if c == 'Z' {
        Some((Key::KeyZ, true))
    } else if c == '0' {
        Some((Key::Num0, false))
    } else if c == '1' {
        Some((Key::Num1, false))
    } else if c == '2' {
        Some((Key::Num2, false))
    } else if c == '3' {
        Some((Key::Num3, false))
    } else if c == '4' {
        Some((Key::Num4, false))
    } else if c == '5' {
        Some((Key::Num5, false))
    } else if c == '6' {
        Some((Key::Num6, false))
    } else if c == '7' {
        Some((Key::Num7, false))
    } else if c == '8' {
        Some((Key::Num8, false))
    } else if c == '9' {
        Some((Key::Num9, false))
    } else if c == ')' {
        Some((Key::Num0, true))
    } else if c == '!' {
        Some((Key::Num1, true))
    } else if c == '@' {
        Some((Key::Num2, true))
    } else if c == '#' {
        Some((Key::Num3, true))
    } else if c == '$' {
        Some((Key::Num4, true))
    } else if c == '%' {
        Some((Key::Num5, true))
    } else if c == '^' {
        Some((Key::Num6, true))
    } else if c == '&' {
        Some((Key::Num7, true))
    } else if c == '*' {
        Some((Key::Num8, true))
    } else if c == '(' {
        Some((Key::Num9, true))
    } else if c == '-' {
        Some((Key::Minus, false))
    } else if c == '_' {
        Some((Key::Minus, true))
    } else if c == '=' {
        Some((Key::Equal, false))
    } else if c == '+' {
        Some((Key::Equal, true))
    } else if c == '[' {
        Some((Key::LeftBracket, false))
    } else if c == '{' {
        Some((Key::LeftBracket, true))
    } else if c == ']' {
        Some((Key::RightBracket, false))
    } else if c == '}' {
        Some((Key::RightBracket, true))
    } else if c == '\\' {
        Some((Key::BackSlash, false))
    } else if c == '|' {
        Some((Key::BackSlash, true))
    } else if c == ';' {
        Some((Key::SemiColon, false))
    } else if c == ':' {
        Some((Key::SemiColon, true))
    } else if c == '\'' {
        Some((Key::Quote, false))
    } else if c == '"' {
        Some((Key::Quote, true))
    } else if c == ',' {
        Some((Key::Comma, false))
    } else if c == '<' {
        Some((Key::Comma, true))
    } else if c == '.' {
        Some((Key::Dot, false))
    } else if c == '>' {
        Some((Key::Dot, true))
    } else if c == '/' {
        Some((Key::Slash, false))
    } else if c == '?' {
        Some((Key::Slash, true))
    } else if c == '`' {
        Some((Key::BackQuote, false))
    } else if c == '~' {
        Some((Key::BackQuote, true))
    } else {
        None
    }
}

/// The key and shift state producing `c`, per [`char_to_keycode_spec`];
/// `None` for characters the virtual device cannot type.
pub fn char_to_keycode(c: char) -> (r: Option<(Key, bool)>)
    ensures
        r == char_to_keycode_spec(c),
{
    match c {
        '\n' => Some((Key::Return, false)),
        '\t' => Some((Key::Tab, false)),
        ' ' => Some((Key::Space, false)),
        'a' => Some((Key::KeyA, false)),
        'b' => Some((Key::KeyB, false)),
        'c' => Some((Key::KeyC, false)),
        'd' => Some((Key::KeyD, false)),
        'e' => Some((Key::KeyE, false)),
        'f' => Some((Key::KeyF, false)),
        'g' => Some((Key::KeyG, false)),
        'h' => Some((Key::KeyH, false)),
        'i' => Some((Key::KeyI, false)),
        'j' => Some((Key::KeyJ, false)),
        'k' => Some((Key::KeyK, false)),
        'l' => Some((Key::KeyL, false)),
        'm' => Some((Key::KeyM, false)),
        'n' => Some((Key::KeyN, false)),
        'o' => Some((Key::KeyO, false)),
        'p' => Some((Key::KeyP, false)),
        'q' => Some((Key::KeyQ, false)),
        'r' => Some((Key::KeyR, false)),
        's' => Some((Key::KeyS, false)),
        't' => Some((Key::KeyT, false)),
        'u' => Some((Key::KeyU, false)),
        'v' => Some((Key::KeyV, false)),
        'w' => Some((Key::KeyW, false)),
        'x' => Some((Key::KeyX, false)),
        'y' => Some((Key::KeyY, false)),
        'z' => Some((Key::KeyZ, false)),
        'A' => Some((Key::KeyA, true)),
        'B' => Some((Key::KeyB, true)),
        'C' => Some((Key::KeyC, true)),
        'D' => Some((Key::KeyD, true)),
        'E' => Some((Key::KeyE, true)),
        'F' => Some((Key::KeyF, true)),
        'G' => Some((Key::KeyG, true)),
        'H' => Some((Key::KeyH, true)),
        'I' => Some((Key::KeyI, true)),
        'J' => Some((Key::KeyJ, true)),
        'K' => Some((Key::KeyK, true)),
        'L' => Some((Key::KeyL, true)),
        'M' => Some((Key::KeyM, true)),
        'N' => Some((Key::KeyN, true)),
        'O' => Some((Key::KeyO, true)),
        'P' => Some((Key::KeyP, true)),
        'Q' => Some((Key::KeyQ, true)),
        'R' => Some((Key::KeyR, true)),
        'S' => Some((Key::KeyS, true)),
        'T' => Some((Key::KeyT, true)),
        'U' => Some((Key::KeyU, true)),
        'V' => Some((Key::KeyV, true)),
        'W' => Some((Key::KeyW, true)),
        'X' => Some((Key::KeyX, true)),
        'Y' => Some((Key::KeyY, true)),
        'Z' => Some((Key::KeyZ, true)),
        '0' => Some((Key::Num0, false)),
        '1' => Some((Key::Num1, false)),
        '2' => Some((Key::Num2, false)),
        '3' => Some((Key::Num3, false)),
        '4' => Some((Key::Num4, false)),
        '5' => Some((Key::Num5, false)),
        '6' => Some((Key::Num6, false)),
        '7' => Some((Key::Num7, false)),
        '8' => Some((Key::Num8, false)),
        '9' => Some((Key::Num9, false)),
        ')' => Some((Key::Num0, true)),
        '!' => Some((Key::Num1, true)),
        '@' => Some((Key::Num2, true)),
        '#' => Some((Key::Num3, true)),
        '$' => Some((Key::Num4, true)),
        '%' => Some((Key::Num5, true)),
        '^' => Some((Key::Num6, true)),
        '&' => Some((Key::Num7, true)),
        '*' => Some((Key::Num8, true)),
        '(' => Some((Key::Num9, true)),
        '-' => Some((Key::Minus, false)),
        '_' => Some((Key::Minus, true)),
        '=' => Some((Key::Equal, false)),
        '+' => Some((Key::Equal, true)),
        '[' => Some((Key::LeftBracket, false)),
        '{' => Some((Key::LeftBracket, true)),
        ']' => Some((Key::RightBracket, false)),
        '}' => Some((Key::RightBracket, true)),
        '\\' => Some((Key::BackSlash, false)),
        '|' => Some((Key::BackSlash, true)),
        ';' => Some((Key::SemiColon, false)),
        ':' => Some((Key::SemiColon, true)),
        '\'' => Some((Key::Quote, false)),
        '"' => Some((Key::Quote, true)),
        ',' => Some((Key::Comma, false)),
        '<' => Some((Key::Comma, true)),
        '.' => Some((Key::Dot, false)),
        '>' => Some((Key::Dot, true)),
        '/' => Some((Key::Slash, false)),
        '?' => Some((Key::Slash, true)),
        '`' => Some((Key::BackQuote, false)),
        '~' => Some((Key::BackQuote, true)),
        _ => None,
    }
}

/// The two tables agree: pressing the key that the injection table picks
/// for a character, with the shift it asks for, produces that character.
pub proof fn lemma_keycode_roundtrip(c: char)
    requires
        char_to_keycode_spec(c) is Some,
    ensures
        key_to_char_spec((char_to_keycode_spec(c)->0).0, (char_to_keycode_spec(c)->0).1) == Some(
            c,
        ),
{
}

/// Live shift tracking for the hook-based capture backend: the listener
/// feeds every raw key transition through it and gets the engine's
/// events out.
pub struct ShiftState {
    shift_down: bool,
}

impl View for ShiftState {
    type V = bool;

    closed spec fn view(&self) -> bool {
        self.shift_down
    }
}

/// Whether a key is one of the shift keys.
pub open spec fn is_shift_key(key: Key) -> bool {
    key == Key::ShiftLeft || key == Key::ShiftRight
}

impl ShiftState {
    /// A fresh tracker with shift released.
    pub fn new() -> (r: ShiftState)
        ensures
            r@ == false,
    {
        ShiftState { shift_down: false }
    }

    /// A key went down: a shift key raises the shift state first, and the
    /// key's character under the resulting state becomes an event.
    pub fn on_key_down(&mut self, key: Key) -> (r: Option<InputEvent>)
        ensures
            final(self)@ == (old(self)@ || is_shift_key(key)),
            r == (match key_to_char_spec(key, final(self)@) {
                Some(c) => Some(InputEvent::KeyPress(c)),
                None => None::<InputEvent>,
            }),
    {
        if key == Key::ShiftLeft || key == Key::ShiftRight {
            self.shift_down = true;
        }
        match key_to_char(&key, self.shift_down) {
            Some(c) => Some(InputEvent::KeyPress(c)),
            None => None,
        }
    }

    /// A key came up: releasing a shift key lowers the shift state.
    pub fn on_key_up(&mut self, key: Key)
        ensures
            final(self)@ == (old(self)@ && !is_shift_key(key)),
    {
        if key == Key::ShiftLeft || key == Key::ShiftRight {
            self.shift_down = false;
        }
    }
}

/// The hook-based capture backend's engine-side state; the OS hook and
/// the injector live outside the library and drive [`ShiftState`] and
/// [`key_to_char`].
pub struct RdevInputManager;

impl RdevInputManager {
    /// A hook-based backend holds no engine state of its own.
    pub fn new() -> (r: RdevInputManager)
    {
        RdevInputManager
    }
}

/// One low-level injection step: a backspace key click, or a chunk of
/// text typed as a unit.
#[derive(Clone, Debug)]
pub enum InjectStep {
    Backspace,
    Text(String),
}

/// The mathematical shape of an injection step.
pub enum InjectStepView {
    Backspace,
    Text(Seq<char>),
}

impl View for InjectStep {
    type V = InjectStepView;

    open spec fn view(&self) -> InjectStepView {
        match self {
            InjectStep::Backspace => InjectStepView::Backspace,
            InjectStep::Text(t) => InjectStepView::Text(t@),
        }
    }
}

/// The position of the first backspace character at or after `i`, or the
/// length of `s`.
pub open spec fn bs_pos(s: Seq<char>, i: int) -> int
    decreases s.len() - i,
{
    if 0 <= i < s.len() {
        if s[i] == '\u{8}' {
            i
        } else {
            bs_pos(s, i + 1)
        }
    } else {
        i
    }
}

/// The injection steps for a text from `i` on: each backspace character
/// becomes a backspace click, and each maximal run of other characters a
/// text chunk, in order.
pub open spec fn inject_steps_from(s: Seq<char>, i: int) -> Seq<InjectStepView>
    decreases s.len() - i,
{
    if !(0 <= i < s.len()) {
        seq![]
    } else if s[i] == '\u{8}' {
        seq![InjectStepView::Backspace] + inject_steps_from(s, i + 1)
    } else {
        let e = bs_pos(s, i);
        if i < e <= s.len() {
            seq![InjectStepView::Text(s.subrange(i, e))] + inject_steps_from(s, e)
        } else {
            seq![]
        }
    }
}

/// Splits a text to inject into low-level steps, per
/// [`inject_steps_from`]: backspaces become individual key clicks and
/// everything between them is typed in chunks.
pub fn inject_steps(text: &str) -> (r: Vec<InjectStep>)
    ensures
        r@.map_values(|st: InjectStep| st@) == inject_steps_from(text@, 0),
{
    let s = crate::chars::str_to_chars(text);
    let n = s.len();
    let mut acc: Vec<InjectStep> = Vec::new();
    let mut i: usize = 0;
    while i < n
        invariant
            n == s@.len(),
            s@ == text@,
            i <= n,
            inject_steps_from(text@, 0) == acc@.map_values(|st: InjectStep| st@)
                + inject_steps_from(text@, i as int),
        decreases n - i,
    {
        if s[i] == '\u{8}' {
            acc.push(InjectStep::Backspace);
            i += 1;
            proof {
                assert(inject_steps_from(text@, 0) =~= acc@.map_values(|st: InjectStep| st@)
                    + inject_steps_from(text@, i as int));
            }
        } else {
            let mut e: usize = i;
            while e < n && s[e] != '\u{8}'
                invariant
                    i <= e <= n,
                    n == s@.len(),
                    bs_pos(s@, i as int) == bs_pos(s@, e as int),
                decreases n - e,
            {
                e += 1;
            }
            let chunk = crate::template::string_of_range(&s, i, e);
            acc.push(InjectStep::Text(chunk));
            i = e;
            proof {
                assert(inject_steps_from(text@, 0) =~= acc@.map_values(|st: InjectStep| st@)
                    + inject_steps_from(text@, i as int));
            }
        }
    }
    proof {
        assert(inject_steps_from(text@, 0) =~= acc@.map_values(|st: InjectStep| st@));
    }
    acc
}

} // verus!