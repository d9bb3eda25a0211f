use vstd::prelude::*;

use crate::text::{ascii_lower, lemma_split_on_ascii, split_on, split_plus, str_eq, strings_view};

verus! {

/// The physical keys that a global hotkey can be bound to.
#[derive(Clone, Copy, PartialEq, Eq, Structural, Debug)]
pub enum Code {
    Space,
    Enter,
    Tab,
    Escape,
    Backspace,
    Delete,
    Home,
    End,
    PageUp,
    PageDown,
    ArrowUp,
    ArrowDown,
    ArrowLeft,
    ArrowRight,
    F1,
    F2,
    F3,
    F4,
    F5,
    F6,
    F7,
    F8,
    F9,
    F10,
    F11,
    F12,
    KeyA,
    KeyB,
    KeyC,
    KeyD,
    KeyE,
    KeyF,
    KeyG,
    KeyH,
    KeyI,
    KeyJ,
    KeyK,
    KeyL,
    KeyM,
    KeyN,
    KeyO,
    KeyP,
    KeyQ,
    KeyR,
    KeyS,
    KeyT,
    KeyU,
    KeyV,
    KeyW,
    KeyX,
    KeyY,
    KeyZ,
    Digit0,
    Digit1,
    Digit2,
    Digit3,
    Digit4,
    Digit5,
    Digit6,
    Digit7,
    Digit8,
    Digit9,
}

/// The key named by the lower-case word `s`, if the word names one.
pub open spec fn code_of(s: Seq<char>) -> Option<Code> {
    if s == "space"@ {
        Some(Code::Space)
    } else if s == "enter"@ || s == "return"@ {
        Some(Code::Enter)
    } else if s == "tab"@ {
        Some(Code::Tab)
    } else if s == "escape"@ || s == "esc"@ {
        Some(Code::Escape)
    } else if s == "backspace"@ {
        Some(Code::Backspace)
    } else if s == "delete"@ || s == "del"@ {
        Some(Code::Delete)
    } else if s == "home"@ {
        Some(Code::Home)
    } else if s == "end"@ {
        Some(Code::End)
    } else if s == "pageup"@ {
        Some(Code::PageUp)
    } else if s == "pagedown"@ {
        Some(Code::PageDown)
    } else if s == "arrowup"@ {
        Some(Code::ArrowUp)
    } else if s == "arrowdown"@ {
        Some(Code::ArrowDown)
    } else if s == "arrowleft"@ {
        Some(Code::ArrowLeft)
    } else if s == "arrowright"@ {
        Some(Code::ArrowRight)
    } else if s == "f1"@ {
        Some(Code::F1)
    } else if s == "f2"@ {
        Some(Code::F2)
    } else if s == "f3"@ {
        Some(Code::F3)
    } else if s == "f4"@ {
        Some(Code::F4)
    } else if s == "f5"@ {
        Some(Code::F5)
    } else if s == "f6"@ {
        Some(Code::F6)
    } else if s == "f7"@ {
        Some(Code::F7)
    } else if s == "f8"@ {
        Some(Code::F8)
    } else if s == "f9"@ {
        Some(Code::F9)
    } else if s == "f10"@ {
        Some(Code::F10)
    } else if s == "f11"@ {
        Some(Code::F11)
    } else if s == "f12"@ {
        Some(Code::F12)
    } else if s == "a"@ {
        Some(Code::KeyA)
    } else if s == "b"@ {
        Some(Code::KeyB)
    } else if s == "c"@ {
        Some(Code::KeyC)
    } else if s == "d"@ {
        Some(Code::KeyD)
    } else if s == "e"@ {
        Some(Code::KeyE)
    } else if s == "f"@ {
        Some(Code::KeyF)
    } else if s == "g"@ {
        Some(Code::KeyG)
    } else if s == "h"@ {
        Some(Code::KeyH)
    } else if s == "i"@ {
        Some(Code::KeyI)
    } else if s == "j"@ {
        Some(Code::KeyJ)
    } else if s == "k"@ {
        Some(Code::KeyK)
    } else if s == "l"@ {
        Some(Code::KeyL)
    } else if s == "m"@ {
        Some(Code::KeyM)
    } else if s == "n"@ {
        Some(Code::KeyN)
    } else if s == "o"@ {
        Some(Code::KeyO)
    } else if s == "p"@ {
        Some(Code::KeyP)
    } else if s == "q"@ {
        Some(Code::KeyQ)
    } else if s == "r"@ {
        Some(Code::KeyR)
    } else if s == "s"@ {
        Some(Code::KeyS)
    } else if s == "t"@ {
        Some(Code::KeyT)
    } else if s == "u"@ {
        Some(Code::KeyU)
    } else if s == "v"@ {
        Some(Code::KeyV)
    } else if s == "w"@ {
        Some(Code::KeyW)
    } else if s == "x"@ {
        Some(Code::KeyX)
    } else if s == "y"@ {
        Some(Code::KeyY)
    } else if s == "z"@ {
        Some(Code::KeyZ)
    } else if s == "0"@ {
        Some(Code::Digit0)
    } else if s == "1"@ {
        Some(Code::Digit1)
    } else if s == "2"@ {
        Some(Code::Digit2)
    } else if s == "3"@ {
        Some(Code::Digit3)
    } else if s == "4"@ {
        Some(Code::Digit4)
    } else if s == "5"@ {
        Some(Code::Digit5)
    } else if s == "6"@ {
        Some(Code::Digit6)
    } else if s == "7"@ {
        Some(Code::Digit7)
    } else if s == "8"@ {
        Some(Code::Digit8)
    } else if s == "9"@ {
        Some(Code::Digit9)
    } else {
        None
    }
}

/// Maps a lower-case key name to its key.
pub fn str_to_code(s: &str) -> (r: Option<Code>)
    ensures
        r == code_of(s@),
{
    if str_eq(s, "space") {
        Some(Code::Space)
    } else if str_eq(s, "enter") || str_eq(s, "return") {
        Some(Code::Enter)
    } else if str_eq(s, "tab") {
        Some(Code::Tab)
    } else if str_eq(s, "escape") || str_eq(s, "esc") {
        Some(Code::Escape)
    } else if str_eq(s, "backspace") {
        Some(Code::Backspace)
    } else if str_eq(s, "delete") || str_eq(s, "del") {
        Some(Code::Delete)
    } else if str_eq(s, "home") {
        Some(Code::Home)
    } else if str_eq(s, "end") {
        Some(Code::End)
    } else if str_eq(s, "pageup") {
        Some(Code::PageUp)
    } else if str_eq(s, "pagedown") {
        Some(Code::PageDown)
    } else if str_eq(s, "arrowup") {
        Some(Code::ArrowUp)
    } else if str_eq(s, "arrowdown") {
        Some(Code::ArrowDown)
    } else if str_eq(s, "arrowleft") {
        Some(Code::ArrowLeft)
    } else if str_eq(s, "arrowright") {
        Some(Code::ArrowRight)
    } else if str_eq(s, "f1") {
        Some(Code::F1)
    } else if str_eq(s, "f2") {
        Some(Code::F2)
    } else if str_eq(s, "f3") {
        Some(Code::F3)
    } else if str_eq(s, "f4") {
        Some(Code::F4)
    } else if str_eq(s, "f5") {
        Some(Code::F5)
    } else if str_eq(s, "f6") {
        Some(Code::F6)
    } else if str_eq(s, "f7") {
        Some(Code::F7)
    } else if str_eq(s, "f8") {
        Some(Code::F8)
    } else if str_eq(s, "f9") {
        Some(Code::F9)
    } else if str_eq(s, "f10") {
        Some(Code::F10)
    } else if str_eq(s, "f11") {
        Some(Code::F11)
    } else if str_eq(s, "f12") {
        Some(Code::F12)
    } else if str_eq(s, "a") {
        Some(Code::KeyA)
    } else if str_eq(s, "b") {
        Some(Code::KeyB)
    } else if str_eq(s, "c") {
        Some(Code::KeyC)
    } else if str_eq(s, "d") {
        Some(Code::KeyD)
    } else if str_eq(s, "e") {
        Some(Code::KeyE)
    } else if str_eq(s, "f") {
        Some(Code::KeyF)
    } else if str_eq(s, "g") {
        Some(Code::KeyG)
    } else if str_eq(s, "h") {
        Some(Code::KeyH)
    } else if str_eq(s, "i") {
        Some(Code::KeyI)
    } else if str_eq(s, "j") {
        Some(Code::KeyJ)
    } else if str_eq(s, "k") {
        Some(Code::KeyK)
    } else if str_eq(s, "l") {
        Some(Code::KeyL)
    } else if str_eq(s, "m") {
        Some(Code::KeyM)
    } else if str_eq(s, "n") {
        Some(Code::KeyN)
    } else if str_eq(s, "o") {
        Some(Code::KeyO)
    } else if str_eq(s, "p") {
        Some(Code::KeyP)
    } else if str_eq(s, "q") {
        Some(Code::KeyQ)
    } else if str_eq(s, "r") {
        Some(Code::KeyR)
    } else if str_eq(s, "s") {
        Some(Code::KeyS)
    } else if str_eq(s, "t") {
        Some(Code::KeyT)
    } else if str_eq(s, "u") {
        Some(Code::KeyU)
    } else if str_eq(s, "v") {
        Some(Code::KeyV)
    } else if str_eq(s, "w") {
        Some(Code::KeyW)
    } else if str_eq(s, "x") {
        Some(Code::KeyX)
    } else if str_eq(s, "y") {
        Some(Code::KeyY)
    } else if str_eq(s, "z") {
        Some(Code::KeyZ)
    } else if str_eq(s, "0") {
        Some(Code::Digit0)
    } else if str_eq(s, "1") {
        Some(Code::Digit1)
    } else if str_eq(s, "2") {
        Some(Code::Digit2)
    } else if str_eq(s, "3") {
        Some(Code::Digit3)
    } else if str_eq(s, "4") {
        Some(Code::Digit4)
    } else if str_eq(s, "5") {
        Some(Code::Digit5)
    } else if str_eq(s, "6") {
        Some(Code::Digit6)
    } else if str_eq(s, "7") {
        Some(Code::Digit7)
    } else if str_eq(s, "8") {
        Some(Code::Digit8)
    } else if str_eq(s, "9") {
        Some(Code::Digit9)
    } else {
        None
    }
}

/// The modifier keys held together with a hotkey.
#[derive(Clone, Copy, PartialEq, Eq, Structural, Debug)]
pub struct Modifiers {
    pub control: bool,
    pub alt: bool,
    pub shift: bool,
    pub meta: bool,
}

/// No modifier held.
pub open spec fn no_modifiers() -> Modifiers {
    Modifiers { control: false, alt: false, shift: false, meta: false }
}

impl Modifiers {
    pub fn empty() -> (m: Modifiers)
        ensures
            m == no_modifiers(),
    {
        Modifiers { control: false, alt: false, shift: false, meta: false }
    }

    pub fn is_empty(&self) -> (b: bool)
        ensures
            b == (*self == no_modifiers()),
    {
        !self.control && !self.alt && !self.shift && !self.meta
    }
}

/// A global hotkey: a key together with the modifiers held with it.
#[derive(Clone, Copy, PartialEq, Eq, Structural, Debug)]
pub struct Shortcut {
    pub mods: Modifiers,
    pub key: Code,
}

impl Shortcut {
    /// A hotkey of `key`, with `mods` held or none when `mods` is `None`.
    pub fn new(mods: Option<Modifiers>, key: Code) -> (s: Shortcut)
        ensures
            s.mods == (match mods {
                Some(m) => m,
                None => no_modifiers(),
            }),
            s.key == key,
    {
        match mods {
            Some(m) => Shortcut { mods: m, key },
            None => Shortcut { mods: Modifiers::empty(), key },
        }
    }
}

/// `m` with the modifier named by the lower-case word `w` added, if `w`
/// names a modifier.
pub open spec fn with_modifier(m: Modifiers, w: Seq<char>) -> Option<Modifiers> {
    if w == "ctrl"@ || w == "control"@ {
        Some(Modifiers { control: true, ..m })
    } else if w == "alt"@ || w == "option"@ {
        Some(Modifiers { alt: true, ..m })
    } else if w == "shift"@ {
        Some(Modifiers { shift: true, ..m })
    } else if w == "super"@ || w == "meta"@ || w == "cmd"@ || w == "command"@ {
        Some(Modifiers { meta: true, ..m })
    } else {
        None
    }
}

/// The message for a word that names neither a modifier nor a key.
pub open spec fn unknown_key_message(w: Seq<char>) -> Seq<char> {
    "알 수 없는 키: "@ + w
}

/// The message for a hotkey string that names no key.
pub open spec fn missing_key_message() -> Seq<char> {
    "키가 지정되지 않았습니다"@
}

/// Reads the words of a hotkey from left to right: modifier words add their
/// modifier, a key word sets the key (a later one replaces an earlier one),
/// and the first other word is an error.
pub open spec fn scan_words(words: Seq<Seq<char>>) -> Result<(Modifiers, Option<Code>), Seq<char>>
    decreases words.len(),
{
    if words.len() == 0 {
        Ok((no_modifiers(), None))
    } else {
        match scan_words(words.drop_last()) {
            Err(e) => Err(e),
            Ok((m, k)) => {
                let w = words.last();
                match with_modifier(m, w) {
                    Some(m2) => Ok((m2, k)),
                    None => match code_of(w) {
                        Some(c) => Ok((m, Some(c))),
                        None => Err(unknown_key_message(w)),
                    },
                }
            },
        }
    }
}

/// The hotkey that a list of lower-case words describes, or the error
/// message for it.
pub open spec fn shortcut_of_words(words: Seq<Seq<char>>) -> Result<Shortcut, Seq<char>> {
    match scan_words(words) {
        Err(e) => Err(e),
        Ok((m, k)) => match k {
            None => Err(missing_key_message()),
            Some(c) => Ok(Shortcut { mods: m, key: c }),
        },
    }
}

/// A result with its error message taken by its view.
pub open spec fn error_view<T>(r: Result<T, String>) -> Result<T, Seq<char>> {
    match r {
        Ok(t) => Ok(t),
        Err(e) => Err(e@),
    }
}

/// The text that `str::to_lowercase` makes of `s`.
pub uninterp spec fn lowercase(s: Seq<char>) -> Seq<char>;

/// Calls `str::to_lowercase`, which lower-cases by the Unicode rules. The
/// contract claims that the result is a function of the text, and that on
/// ASCII text it turns `A`..`Z` into `a`..`z` and keeps every other
/// character, as `str::to_ascii_lowercase` does (whose documentation points
/// to `to_lowercase` for the same on non-ASCII text too). What it makes of
/// non-ASCII text is not stated.
#[verifier::external_body]
fn to_lowercase(s: &str) -> (r: String)
    ensures
        r@ == lowercase(s@),
        vstd::utf8::is_ascii_chars(s@) ==> r@ == ascii_lower(s@),
{
    s.to_lowercase()
}

/// The lower-cased `'+'`-separated words of a hotkey string.
pub open spec fn hotkey_words(s: Seq<char>) -> Seq<Seq<char>> {
    split_on(s, '+').map_values(|p: Seq<char>| lowercase(p))
}

/// The `'+'`-separated words of an ASCII hotkey string, with its ASCII
/// letters in lower case.
pub open spec fn ascii_hotkey_words(s: Seq<char>) -> Seq<Seq<char>> {
    split_on(s, '+').map_values(|p: Seq<char>| ascii_lower(p))
}

/// Once the words read so far hold an error, more words do not change it.
pub proof fn lemma_scan_error_persists(words: Seq<Seq<char>>, i: int)
    requires
        0 <= i <= words.len(),
        scan_words(words.take(i)) is Err,
    ensures
        scan_words(words) == scan_words(words.take(i)),
    decreases words.len() - i,
{
    if i < words.len() {
        assert(words.take(i + 1).drop_last() =~= words.take(i));
        lemma_scan_error_persists(words, i + 1);
    } else {
        assert(words.take(i) =~= words);
    }
}

/// Builds the hotkey that a list of lower-case words describes.
pub fn parse_words(words: &Vec<String>) -> (r: Result<Shortcut, String>)
    ensures
        error_view(r) == shortcut_of_words(strings_view(words@)),
{
    let ghost ws = strings_view(words@);
    let mut mods = Modifiers::empty();
    let mut key: Option<Code> = None;
    let mut i: usize = 0;
    assert(ws.take(0) =~= Seq::<Seq<char>>::empty());
    while i < words.len()
        invariant
            i <= words.len(),
            ws == strings_view(words@),
            scan_words(ws.take(i as int)) == Ok::<(Modifiers, Option<Code>), Seq<char>>((mods, key)),
        decreases words.len() - i,
    {
        let w = words[i].as_str();
        assert(ws.take(i + 1).drop_last() =~= ws.take(i as int));
        assert(ws.take(i + 1).last() == w@);
        if str_eq(w, "ctrl") || str_eq(w, "control") {
            mods = Modifiers { control: true, ..mods };
        } else if str_eq(w, "alt") || str_eq(w, "option") {
            mods = Modifiers { alt: true, ..mods };
        } else if str_eq(w, "shift") {
            mods = Modifiers { shift: true, ..mods };
        } else if str_eq(w, "super") || str_eq(w, "meta") || str_eq(w, "cmd") || str_eq(w, "command") {
            mods = Modifiers { meta: true, ..mods };
        } else {
            match str_to_code(w) {
                Some(c) => {
                    key = Some(c);
                },
                None => {
                    let mut msg = String::from_str("알 수 없는 키: ");
                    msg.append(w);
                    proof {
                        lemma_scan_error_persists(ws, i + 1);
                        assert(ws.take(words.len() as int) =~= ws);
                    }
                    return Err(msg);
                },
            }
        }
        i = i + 1;
    }
    assert(ws.take(words.len() as int) =~= ws);
    match key {
        Some(c) => Ok(Shortcut::new(if mods.is_empty() { None } else { Some(mods) }, c)),
        None => Err(String::from_str("키가 지정되지 않았습니다")),
    }
}

/// Parses a hotkey string such as `"Ctrl+Shift+K"`: the `'+'`-separated
/// words are matched case-insensitively against the modifier and key names.
pub fn parse_shortcut_str(s: &str) -> (r: Result<Shortcut, String>)
    ensures
        error_view(r) == shortcut_of_words(hotkey_words(s@)),
        vstd::utf8::is_ascii_chars(s@) ==> error_view(r) == shortcut_of_words(ascii_hotkey_words(s@)),
{
    let parts = split_plus(s);
    let mut words: Vec<String> = Vec::new();
    let mut i: usize = 0;
    while i < parts.len()
        invariant
            i <= parts.len(),
            words@.len() == i,
            forall|j: int| 0 <= j < i ==> #[trigger] words@[j]@ == lowercase(parts@[j]@),
            forall|j: int|
                0 <= j < i && vstd::utf8::is_ascii_chars(parts@[j]@) ==> #[trigger] words@[j]@
                    == ascii_lower(parts@[j]@),
        decreases parts.len() - i,
    {
        let lower = to_lowercase(parts[i].as_str());
        words.push(lower);
        i = i + 1;
    }
    proof {
        assert(strings_view(parts@) == split_on(s@, '+'));
        assert(strings_view(words@) =~= hotkey_words(s@));
        if vstd::utf8::is_ascii_chars(s@) {
            lemma_split_on_ascii(s@, '+');
            assert(strings_view(parts@).len() == parts@.len());
            assert forall|j: int| 0 <= j < parts@.len() implies vstd::utf8::is_ascii_chars(
                #[trigger] parts@[j]@,
            ) by {
                assert(strings_view(parts@)[j] == parts@[j]@);
            }
            assert(strings_view(words@) =~= ascii_hotkey_words(s@));
        }
    }
    parse_words(&words)
}

/// The hotkey registered when the app starts: the saved one, or Alt+Space
/// when the saved text does not parse.
pub open spec fn startup_shortcut_of(s: Seq<char>) -> Shortcut {
    match shortcut_of_words(hotkey_words(s)) {
        Ok(sc) => sc,
        Err(_) => Shortcut { mods: Modifiers { alt: true, ..no_modifiers() }, key: Code::Space },
    }
}

/// The hotkey to register at start-up for the saved hotkey text.
pub fn startup_shortcut(hotkey: &str) -> (r: Shortcut)
    ensures
        r == startup_shortcut_of(hotkey@),
{
    match parse_shortcut_str(hotkey) {
        Ok(sc) => sc,
        Err(_) => Shortcut::new(Some(Modifiers { alt: true, ..Modifiers::empty() }), Code::Space),
    }
}

} // verus!
