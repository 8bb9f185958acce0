use vstd::prelude::*;
use vstd::string::*;
use crate::error::WhisperCatError;
use crate::text::{lower, split_on, split_seq, str_eq, to_ascii_lower, trim_str, trimmed};
use crate::time::elapsed_ms_spec;

verus! {

/// A keyboard key, one for each name the hotkey strings accept.
#[derive(Debug, Clone, Copy, PartialEq, Eq, Structural)]
pub enum KeyCode {
    KeyA,
    KeyB,
    KeyC,
    KeyD,
    KeyE,
    KeyF,
    KeyG,
    KeyH,
    KeyI,
    KeyJ,
    KeyK,
    KeyL,
    KeyM,
    KeyN,
    KeyO,
    KeyP,
    KeyQ,
    KeyR,
    KeyS,
    KeyT,
    KeyU,
    KeyV,
    KeyW,
    KeyX,
    KeyY,
    KeyZ,
    Digit0,
    Digit1,
    Digit2,
    Digit3,
    Digit4,
    Digit5,
    Digit6,
    Digit7,
    Digit8,
    Digit9,
    F1,
    F2,
    F3,
    F4,
    F5,
    F6,
    F7,
    F8,
    F9,
    F10,
    F11,
    F12,
    Space,
    Enter,
    Backspace,
    Tab,
    Escape,
}

/// The modifier keys held together with a key.
#[derive(Debug, Clone, Copy, PartialEq, Eq, Structural)]
pub struct KeyModifiers {
    pub control: bool,
    pub shift: bool,
    pub alt: bool,
    pub meta: bool,
}

/// One chord: modifiers plus a key.
#[derive(Debug, Clone, Copy, PartialEq, Eq, Structural)]
pub struct HotKey {
    pub mods: KeyModifiers,
    pub key: KeyCode,
}

/// The key a lowercased token names, if any.
pub open spec fn key_of_token(tok: Seq<char>) -> Option<KeyCode> {
    if tok == "a"@ {
        Some(KeyCode::KeyA)
    } else if tok == "b"@ {
        Some(KeyCode::KeyB)
    } else if tok == "c"@ {
        Some(KeyCode::KeyC)
    } else if tok == "d"@ {
        Some(KeyCode::KeyD)
    } else if tok == "e"@ {
        Some(KeyCode::KeyE)
    } else if tok == "f"@ {
        Some(KeyCode::KeyF)
    } else if tok == "g"@ {
        Some(KeyCode::KeyG)
    } else if tok == "h"@ {
        Some(KeyCode::KeyH)
    } else if tok == "i"@ {
        Some(KeyCode::KeyI)
    } else if tok == "j"@ {
        Some(KeyCode::KeyJ)
    } else if tok == "k"@ {
        Some(KeyCode::KeyK)
    } else if tok == "l"@ {
        Some(KeyCode::KeyL)
    } else if tok == "m"@ {
        Some(KeyCode::KeyM)
    } else if tok == "n"@ {
        Some(KeyCode::KeyN)
    } else if tok == "o"@ {
        Some(KeyCode::KeyO)
    } else if tok == "p"@ {
        Some(KeyCode::KeyP)
    } else if tok == "q"@ {
        Some(KeyCode::KeyQ)
    } else if tok == "r"@ {
        Some(KeyCode::KeyR)
    } else if tok == "s"@ {
        Some(KeyCode::KeyS)
    } else if tok == "t"@ {
        Some(KeyCode::KeyT)
    } else if tok == "u"@ {
        Some(KeyCode::KeyU)
    } else if tok == "v"@ {
        Some(KeyCode::KeyV)
    } else if tok == "w"@ {
        Some(KeyCode::KeyW)
    } else if tok == "x"@ {
        Some(KeyCode::KeyX)
    } else if tok == "y"@ {
        Some(KeyCode::KeyY)
    } else if tok == "z"@ {
        Some(KeyCode::KeyZ)
    } else if tok == "0"@ {
        Some(KeyCode::Digit0)
    } else if tok == "1"@ {
        Some(KeyCode::Digit1)
    } else if tok == "2"@ {
        Some(KeyCode::Digit2)
    } else if tok == "3"@ {
        Some(KeyCode::Digit3)
    } else if tok == "4"@ {
        Some(KeyCode::Digit4)
    } else if tok == "5"@ {
        Some(KeyCode::Digit5)
    } else if tok == "6"@ {
        Some(KeyCode::Digit6)
    } else if tok == "7"@ {
        Some(KeyCode::Digit7)
    } else if tok == "8"@ {
        Some(KeyCode::Digit8)
    } else if tok == "9"@ {
        Some(KeyCode::Digit9)
    } else if tok == "f1"@ {
        Some(KeyCode::F1)
    } else if tok == "f2"@ {
        Some(KeyCode::F2)
    } else if tok == "f3"@ {
        Some(KeyCode::F3)
    } else if tok == "f4"@ {
        Some(KeyCode::F4)
    } else if tok == "f5"@ {
        Some(KeyCode::F5)
    } else if tok == "f6"@ {
        Some(KeyCode::F6)
    } else if tok == "f7"@ {
        Some(KeyCode::F7)
    } else if tok == "f8"@ {
        Some(KeyCode::F8)
    } else if tok == "f9"@ {
        Some(KeyCode::F9)
    } else if tok == "f10"@ {
        Some(KeyCode::F10)
    } else if tok == "f11"@ {
        Some(KeyCode::F11)
    } else if tok == "f12"@ {
        Some(KeyCode::F12)
    } else if tok == "space"@ {
        Some(KeyCode::Space)
    } else if tok == "enter"@ || tok == "return"@ {
        Some(KeyCode::Enter)
    } else if tok == "backspace"@ {
        Some(KeyCode::Backspace)
    } else if tok == "tab"@ {
        Some(KeyCode::Tab)
    } else if tok == "escape"@ || tok == "esc"@ {
        Some(KeyCode::Escape)
    } else {
        None
    }
}

/// The key a lowercased token names, as `key_of_token` describes.
fn key_of_token_exec(tok: &str) -> (r: Option<KeyCode>)
    ensures
        r == key_of_token(tok@),
{
    if str_eq(tok, "a") {
        Some(KeyCode::KeyA)
    } else if str_eq(tok, "b") {
        Some(KeyCode::KeyB)
    } else if str_eq(tok, "c") {
        Some(KeyCode::KeyC)
    } else if str_eq(tok, "d") {
        Some(KeyCode::KeyD)
    } else if str_eq(tok, "e") {
        Some(KeyCode::KeyE)
    } else if str_eq(tok, "f") {
        Some(KeyCode::KeyF)
    } else if str_eq(tok, "g") {
        Some(KeyCode::KeyG)
    } else if str_eq(tok, "h") {
        Some(KeyCode::KeyH)
    } else if str_eq(tok, "i") {
        Some(KeyCode::KeyI)
    } else if str_eq(tok, "j") {
        Some(KeyCode::KeyJ)
    } else if str_eq(tok, "k") {
        Some(KeyCode::KeyK)
    } else if str_eq(tok, "l") {
        Some(KeyCode::KeyL)
    } else if str_eq(tok, "m") {
        Some(KeyCode::KeyM)
    } else if str_eq(tok, "n") {
        Some(KeyCode::KeyN)
    } else if str_eq(tok, "o") {
        Some(KeyCode::KeyO)
    } else if str_eq(tok, "p") {
        Some(KeyCode::KeyP)
    } else if str_eq(tok, "q") {
        Some(KeyCode::KeyQ)
    } else if str_eq(tok, "r") {
        Some(KeyCode::KeyR)
    } else if str_eq(tok, "s") {
        Some(KeyCode::KeyS)
    } else if str_eq(tok, "t") {
        Some(KeyCode::KeyT)
    } else if str_eq(tok, "u") {
        Some(KeyCode::KeyU)
    } else if str_eq(tok, "v") {
        Some(KeyCode::KeyV)
    } else if str_eq(tok, "w") {
        Some(KeyCode::KeyW)
    } else if str_eq(tok, "x") {
        Some(KeyCode::KeyX)
    } else if str_eq(tok, "y") {
        Some(KeyCode::KeyY)
    } else if str_eq(tok, "z") {
        Some(KeyCode::KeyZ)
    } else if str_eq(tok, "0") {
        Some(KeyCode::Digit0)
    } else if str_eq(tok, "1") {
        Some(KeyCode::Digit1)
    } else if str_eq(tok, "2") {
        Some(KeyCode::Digit2)
    } else if str_eq(tok, "3") {
        Some(KeyCode::Digit3)
    } else if str_eq(tok, "4") {
        Some(KeyCode::Digit4)
    } else if str_eq(tok, "5") {
        Some(KeyCode::Digit5)
    } else if str_eq(tok, "6") {
        Some(KeyCode::Digit6)
    } else if str_eq(tok, "7") {
        Some(KeyCode::Digit7)
    } else if str_eq(tok, "8") {
        Some(KeyCode::Digit8)
    } else if str_eq(tok, "9") {
        Some(KeyCode::Digit9)
    } else if str_eq(tok, "f1") {
        Some(KeyCode::F1)
    } else if str_eq(tok, "f2") {
        Some(KeyCode::F2)
    } else if str_eq(tok, "f3") {
        Some(KeyCode::F3)
    } else if str_eq(tok, "f4") {
        Some(KeyCode::F4)
    } else if str_eq(tok, "f5") {
        Some(KeyCode::F5)
    } else if str_eq(tok, "f6") {
        Some(KeyCode::F6)
    } else if str_eq(tok, "f7") {
        Some(KeyCode::F7)
    } else if str_eq(tok, "f8") {
        Some(KeyCode::F8)
    } else if str_eq(tok, "f9") {
        Some(KeyCode::F9)
    } else if str_eq(tok, "f10") {
        Some(KeyCode::F10)
    } else if str_eq(tok, "f11") {
        Some(KeyCode::F11)
    } else if str_eq(tok, "f12") {
        Some(KeyCode::F12)
    } else if str_eq(tok, "space") {
        Some(KeyCode::Space)
    } else if str_eq(tok, "enter") || str_eq(tok, "return") {
        Some(KeyCode::Enter)
    } else if str_eq(tok, "backspace") {
        Some(KeyCode::Backspace)
    } else if str_eq(tok, "tab") {
        Some(KeyCode::Tab)
    } else if str_eq(tok, "escape") || str_eq(tok, "esc") {
        Some(KeyCode::Escape)
    } else {
        None
    }
}

/// One left-to-right pass over the `+`-separated tokens: each modifier
/// token switches its modifier on, each key token becomes the (last) key,
/// and an unknown token fails the parse.
pub open spec fn scan_tokens(
    parts: Seq<Seq<char>>,
    mods: KeyModifiers,
    key: Option<KeyCode>,
) -> Option<(KeyModifiers, Option<KeyCode>)>
    decreases parts.len(),
{
    if parts.len() == 0 {
        Some((mods, key))
    } else {
        let tok = lower(trimmed(parts[0]));
        if tok == "ctrl"@ || tok == "control"@ {
            scan_tokens(parts.skip(1), KeyModifiers { control: true, ..mods }, key)
        } else if tok == "shift"@ {
            scan_tokens(parts.skip(1), KeyModifiers { shift: true, ..mods }, key)
        } else if tok == "alt"@ {
            scan_tokens(parts.skip(1), KeyModifiers { alt: true, ..mods }, key)
        } else if tok == "super"@ || tok == "meta"@ || tok == "win"@ || tok == "cmd"@ {
            scan_tokens(parts.skip(1), KeyModifiers { meta: true, ..mods }, key)
        } else {
            match key_of_token(tok) {
                Some(k) => scan_tokens(parts.skip(1), mods, Some(k)),
                None => None,
            }
        }
    }
}

/// No modifiers held.
pub open spec fn no_mods() -> KeyModifiers {
    KeyModifiers { control: false, shift: false, alt: false, meta: false }
}

/// What a hotkey string like "Ctrl+Shift+R" parses to: the modifiers named
/// by its tokens and its last key token; no parse when a token is unknown
/// or no key token occurs.
pub open spec fn parse_hotkey_spec(s: Seq<char>) -> Option<HotKey> {
    match scan_tokens(split_seq(s, '+'), no_mods(), None) {
        Some((mods, key)) => match key {
            Some(k) => Some(HotKey { mods, key: k }),
            None => None,
        },
        None => None,
    }
}

/// Parses a hotkey string such as "Ctrl+Shift+R" or "Alt+F1", exactly as
/// `parse_hotkey_spec` describes; a string it cannot parse is a
/// configuration error.
pub fn parse_hotkey(hotkey_str: &str) -> (r: Result<HotKey, WhisperCatError>)
    ensures
        r is Ok <==> parse_hotkey_spec(hotkey_str@) is Some,
        r is Ok ==> Some(r->Ok_0) == parse_hotkey_spec(hotkey_str@),
        r is Err ==> r->Err_0 is ConfigError,
{
    let parts = split_on(hotkey_str, '+');
    let ghost pviews = parts@.map_values(|p: String| p@);
    let mut mods = KeyModifiers { control: false, shift: false, alt: false, meta: false };
    let mut key: Option<KeyCode> = None;
    let mut i: usize = 0;
    proof {
        assert(pviews.skip(0) =~= pviews);
    }
    while i < parts.len()
        invariant
            i <= parts@.len(),
            pviews == parts@.map_values(|p: String| p@),
            pviews == split_seq(hotkey_str@, '+'),
            scan_tokens(pviews.skip(i as int), mods, key) == scan_tokens(
                pviews,
                no_mods(),
                None,
            ),
        decreases parts@.len() - i,
    {
        let ghost rest = pviews.skip(i as int);
        proof {
            assert(rest[0] == pviews[i as int]);
            assert(rest.skip(1) =~= pviews.skip(i + 1));
        }
        let trimmed_part = trim_str(parts[i].as_str());
        let token = to_ascii_lower(trimmed_part);
        let tok = token.as_str();
        proof {
            assert(tok@ == lower(trimmed(pviews[i as int])));
        }
        if str_eq(tok, "ctrl") || str_eq(tok, "control") {
            mods = KeyModifiers { control: true, ..mods };
        } else if str_eq(tok, "shift") {
            mods = KeyModifiers { shift: true, ..mods };
        } else if str_eq(tok, "alt") {
            mods = KeyModifiers { alt: true, ..mods };
        } else if str_eq(tok, "super") || str_eq(tok, "meta") || str_eq(tok, "win") || str_eq(
            tok,
            "cmd",
        ) {
            mods = KeyModifiers { meta: true, ..mods };
        } else {
            match key_of_token_exec(tok) {
                Some(k) => {
                    key = Some(k);
                },
                None => {
                    proof {
                        assert(scan_tokens(rest, mods, key) is None);
                    }
                    let mut message = String::from_str("Unknown key: ");
                    message.append(tok);
                    return Err(WhisperCatError::ConfigError(message));
                },
            }
        }
        i = i + 1;
    }
    proof {
        assert(pviews.skip(i as int) =~= Seq::<Seq<char>>::empty());
        assert(scan_tokens(pviews.skip(i as int), mods, key) == Some((mods, key)));
    }
    match key {
        Some(k) => Ok(HotKey { mods, key: k }),
        None => {
            let mut message = String::from_str("No key code found in hotkey: ");
            message.append(hotkey_str);
            Err(WhisperCatError::ConfigError(message))
        },
    }
}

/// The sequence a comma-separated list of chords parses to; every part
/// must parse.
pub open spec fn parse_parts_spec(parts: Seq<Seq<char>>) -> Option<Seq<HotKey>>
    decreases parts.len(),
{
    if parts.len() == 0 {
        Some(Seq::<HotKey>::empty())
    } else {
        match parse_hotkey_spec(trimmed(parts[0])) {
            Some(h) => match parse_parts_spec(parts.skip(1)) {
                Some(rest) => Some(seq![h] + rest),
                None => None,
            },
            None => None,
        }
    }
}

/// What a key-sequence string parses to: with a comma it is a sequence of
/// chords, without one a single chord.
pub open spec fn parse_sequence_spec(s: Seq<char>) -> Option<Seq<HotKey>> {
    if exists|i: int| 0 <= i < s.len() && s[i] == ',' {
        parse_parts_spec(split_seq(s, ','))
    } else {
        match parse_hotkey_spec(s) {
            Some(h) => Some(seq![h]),
            None => None,
        }
    }
}

/// A key sequence: a single chord, or several chords pressed within a
/// timeout of one another.
#[derive(Debug)]
pub struct KeySequence {
    keys: Vec<HotKey>,
    timeout_ms: u64,
}

impl KeySequence {
    /// The chords of the sequence, in press order.
    pub closed spec fn keys_spec(&self) -> Seq<HotKey> {
        self.keys@
    }

    /// The gap allowed between two presses.
    pub closed spec fn timeout_spec(&self) -> u64 {
        self.timeout_ms
    }

    /// Creates a new single-key sequence.
    pub fn single(hotkey: HotKey) -> (r: Self)
        ensures
            r.keys_spec() == seq![hotkey],
            r.timeout_spec() == 1000,
    {
        let mut keys: Vec<HotKey> = Vec::new();
        keys.push(hotkey);
        proof {
            assert(keys@ =~= seq![hotkey]);
        }
        KeySequence { keys, timeout_ms: 1000 }
    }

    /// Creates a new multi-key sequence with the default one-second
    /// timeout between keys.
    pub fn multi(keys: Vec<HotKey>) -> (r: Self)
        ensures
            r.keys_spec() == keys@,
            r.timeout_spec() == 1000,
    {
        KeySequence { keys, timeout_ms: 1000 }
    }

    /// Returns true if this is a single-key sequence.
    pub fn is_single(&self) -> (r: bool)
        ensures
            r == (self.keys_spec().len() == 1),
    {
        self.keys.len() == 1
    }

    /// Returns the keys in the sequence.
    pub fn keys(&self) -> (r: &[HotKey])
        ensures
            r@ == self.keys_spec(),
    {
        self.keys.as_slice()
    }
}

/// Parses a key-sequence string: single keys like "Ctrl+Shift+R", or
/// sequences like "Ctrl+K, Ctrl+S", exactly as `parse_sequence_spec`
/// describes.
pub fn parse_key_sequence(input: &str) -> (r: Result<KeySequence, WhisperCatError>)
    ensures
        r is Ok <==> parse_sequence_spec(input@) is Some,
        r is Ok ==> Some(r->Ok_0.keys_spec()) == parse_sequence_spec(input@),
        r is Ok ==> r->Ok_0.timeout_spec() == 1000,
        r is Err ==> r->Err_0 is ConfigError,
{
    let len = input.unicode_len();
    let mut has_comma = false;
    let mut c: usize = 0;
    while c < len
        invariant
            c <= len,
            len == input@.len(),
            has_comma == exists|i: int| 0 <= i < c && input@[i] == ',',
        decreases len - c,
    {
        if input.get_char(c) == ',' {
            has_comma = true;
        }
        c = c + 1;
    }
    if has_comma {
        let parts = split_on(input, ',');
        let ghost pviews = parts@.map_values(|p: String| p@);
        let mut keys: Vec<HotKey> = Vec::new();
        let mut i: usize = 0;
        proof {
            assert(pviews.skip(0) =~= pviews);
        }
        while i < parts.len()
            invariant
                i <= parts@.len(),
                pviews == parts@.map_values(|p: String| p@),
                pviews == split_seq(input@, ','),
                has_comma,
                has_comma == exists|c: int| 0 <= c < input@.len() && input@[c] == ',',
                ({
                    let rem = parse_parts_spec(pviews.skip(i as int));
                    match rem {
                        Some(rest) => parse_parts_spec(pviews) == Some(keys@ + rest),
                        None => parse_parts_spec(pviews) is None,
                    }
                }),
            decreases parts@.len() - i,
        {
            let ghost oldkeys = keys@;
            let ghost rest = pviews.skip(i as int);
            proof {
                assert(rest[0] == pviews[i as int]);
                assert(rest.skip(1) =~= pviews.skip(i + 1));
            }
            let part = trim_str(parts[i].as_str());
            match parse_hotkey(part) {
                Ok(hotkey) => {
                    keys.push(hotkey);
                    proof {
                        assert(parse_hotkey_spec(trimmed(pviews[i as int])) == Some(hotkey));
                        assert(keys@ =~= oldkeys + seq![hotkey]);
                        if parse_parts_spec(pviews.skip(i + 1)) is Some {
                            let r2 = parse_parts_spec(pviews.skip(i + 1))->0;
                            assert(parse_parts_spec(rest) == Some(seq![hotkey] + r2));
                            assert(keys@ + r2 =~= oldkeys + (seq![hotkey] + r2));
                        } else {
                            assert(parse_parts_spec(rest) is None);
                        }
                    }
                },
                Err(e) => {
                    proof {
                        assert(parse_hotkey_spec(trimmed(pviews[i as int])) is None);
                        assert(parse_parts_spec(rest) is None);
                        assert(parse_sequence_spec(input@) is None);
                    }
                    return Err(e);
                },
            }
            i = i + 1;
        }
        proof {
            assert(pviews.skip(i as int) =~= Seq::<Seq<char>>::empty());
            assert(parse_parts_spec(pviews.skip(i as int)) == Some(Seq::<HotKey>::empty()));
            assert(keys@ + Seq::<HotKey>::empty() =~= keys@);
            assert(parse_parts_spec(pviews) == Some(keys@));
        }
        Ok(KeySequence::multi(keys))
    } else {
        match parse_hotkey(input) {
            Ok(hotkey) => Ok(KeySequence::single(hotkey)),
            Err(e) => Err(e),
        }
    }
}

/// Tracks how far through a multi-key sequence the user has pressed.
#[derive(Debug, Clone, Copy, PartialEq, Eq, Structural)]
pub struct SequenceState {
    pub current_index: usize,
    pub last_press_ms: i64,
}

impl SequenceState {
    /// A fresh state at the start of the sequence.
    pub fn new(now_ms: i64) -> (r: Self)
        ensures
            r.current_index == 0,
            r.last_press_ms == now_ms,
    {
        SequenceState { current_index: 0, last_press_ms: now_ms }
    }

    /// Back to the start of the sequence.
    pub fn reset(&mut self, now_ms: i64)
        ensures
            final(self).current_index == 0,
            final(self).last_press_ms == now_ms,
    {
        self.current_index = 0;
        self.last_press_ms = now_ms;
    }

    /// One more chord matched.
    pub fn advance(&mut self, now_ms: i64)
        requires
            old(self).current_index < usize::MAX,
        ensures
            final(self).current_index == old(self).current_index + 1,
            final(self).last_press_ms == now_ms,
    {
        self.current_index = self.current_index + 1;
        self.last_press_ms = now_ms;
    }

    /// Has too long passed since the last press?
    pub fn is_timed_out(&self, timeout_ms: u64, now_ms: i64) -> (r: bool)
        ensures
            r == (elapsed_ms_spec(self.last_press_ms, now_ms) > timeout_ms),
    {
        crate::time::elapsed_ms(self.last_press_ms, now_ms) > timeout_ms
    }
}

} // verus!
