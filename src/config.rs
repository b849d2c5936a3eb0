//! The picker's settings: the hotkey text, which colour formats to show and
//! the magnifier's size, with the reading of the hotkey text.
use vstd::prelude::*;
use crate::text::{contains, occurs_in, trim_back, trim_front, trim_range};

verus! {

/// The settings record.
#[derive(Clone, Debug)]
pub struct Config {
    /// Hotkey as text, such as `Super+Shift+A`.
    pub hotkey: String,
    pub show_hex: bool,
    pub show_rgb: bool,
    pub show_hsl: bool,
    /// Side of the magnifier box in pixels.
    pub preview_size: u32,
}

/// The modifier keys that a hotkey text names.
#[derive(Clone, Copy, Debug, PartialEq, Eq, Structural)]
pub struct HotkeyModifiers {
    pub super_key: bool,
    pub shift: bool,
    pub ctrl: bool,
    pub alt: bool,
}

impl HotkeyModifiers {
    pub open spec fn spec_is_empty(&self) -> bool {
        !self.super_key && !self.shift && !self.ctrl && !self.alt
    }

    /// Whether no modifier is named.
    #[verifier::when_used_as_spec(spec_is_empty)]
    pub fn is_empty(&self) -> (r: bool)
        ensures
            r == self.spec_is_empty(),
    {
        !self.super_key && !self.shift && !self.ctrl && !self.alt
    }
}

/// The modifiers named anywhere in a hotkey text.
pub open spec fn modifiers_of(hotkey: Seq<char>) -> HotkeyModifiers {
    HotkeyModifiers {
        super_key: occurs_in("Super"@, hotkey),
        shift: occurs_in("Shift"@, hotkey),
        ctrl: occurs_in("Ctrl"@, hotkey),
        alt: occurs_in("Alt"@, hotkey),
    }
}

/// The text after the last `+` (all of it where there is none).
pub open spec fn last_segment(s: Seq<char>) -> Seq<char>
    decreases s.len(),
{
    if s.len() == 0 {
        s
    } else if s.last() == '+' {
        Seq::empty()
    } else {
        last_segment(s.drop_last()).push(s.last())
    }
}

/// The key of a hotkey text: its last `+`-separated part, trimmed, where that
/// is one capital letter; `A` otherwise.
pub open spec fn key_letter_of(hotkey: Seq<char>) -> char {
    let k = trim_back(trim_front(last_segment(hotkey)));
    if k.len() == 1 && 'A' <= k[0] <= 'Z' {
        k[0]
    } else {
        'A'
    }
}

/// The hotkey text for modifiers `m` and key text `key`: the named
/// modifiers in the order Super, Shift, Ctrl, Alt, then the key, joined by `+`.
pub open spec fn hotkey_text_of(m: HotkeyModifiers, key: Seq<char>) -> Seq<char> {
    (if m.super_key { "Super+"@ } else { Seq::empty() }) + (if m.shift {
        "Shift+"@
    } else {
        Seq::empty()
    }) + (if m.ctrl { "Ctrl+"@ } else { Seq::empty() }) + (if m.alt { "Alt+"@ } else { Seq::empty() })
        + key
}

/// The hotkey text for modifiers `m` and key text `key`.
pub fn compose_hotkey(m: HotkeyModifiers, key: &str) -> (r: String)
    ensures
        r@ == hotkey_text_of(m, key@),
{
    let mut r = String::new();
    if m.super_key {
        r.append("Super+");
    }
    if m.shift {
        r.append("Shift+");
    }
    if m.ctrl {
        r.append("Ctrl+");
    }
    if m.alt {
        r.append("Alt+");
    }
    r.append(key);
    assert(r@ =~= hotkey_text_of(m, key@));
    r
}

proof fn lemma_last_segment_step(s: Seq<char>, j: int)
    requires
        0 < j <= s.len(),
        s[j - 1] != '+',
    ensures
        last_segment(s.subrange(0, j)) + s.subrange(j, s.len() as int) == last_segment(
            s.subrange(0, j - 1),
        ) + s.subrange(j - 1, s.len() as int),
{
    let t = s.subrange(0, j);
    assert(t.drop_last() =~= s.subrange(0, j - 1));
    assert(last_segment(t) == last_segment(s.subrange(0, j - 1)).push(s[j - 1]));
    assert(last_segment(s.subrange(0, j - 1)).push(s[j - 1]) + s.subrange(j, s.len() as int)
        =~= last_segment(s.subrange(0, j - 1)) + s.subrange(j - 1, s.len() as int));
}

/// Where the last `+`-separated part of `text` starts.
fn last_segment_start(text: &str) -> (j: usize)
    ensures
        j <= text@.len(),
        last_segment(text@) == text@.subrange(j as int, text@.len() as int),
{
    let ghost s = text@;
    let n = text.unicode_len();
    let mut j: usize = n;
    proof {
        assert(s.subrange(0, n as int) =~= s);
        assert(s.subrange(n as int, n as int) =~= Seq::<char>::empty());
        assert(last_segment(s) + Seq::<char>::empty() =~= last_segment(s));
    }
    while j > 0 && text.get_char(j - 1) != '+'
        invariant
            j <= n == s.len(),
            s == text@,
            last_segment(s) == last_segment(s.subrange(0, j as int)) + s.subrange(
                j as int,
                n as int,
            ),
        decreases j,
    {
        proof {
            lemma_last_segment_step(s, j as int);
        }
        j -= 1;
    }
    proof {
        let t = s.subrange(0, j as int);
        if j == 0 {
            assert(t =~= Seq::<char>::empty());
        } else {
            assert(t.last() == '+');
        }
        assert(Seq::<char>::empty() + s.subrange(j as int, n as int) =~= s.subrange(
            j as int,
            n as int,
        ));
    }
    j
}

impl Config {
    /// The modifiers that the hotkey text names.
    pub fn get_modifiers(&self) -> (m: HotkeyModifiers)
        ensures
            m == modifiers_of(self.hotkey@),
    {
        let h = self.hotkey.as_str();
        HotkeyModifiers {
            super_key: contains(h, "Super"),
            shift: contains(h, "Shift"),
            ctrl: contains(h, "Ctrl"),
            alt: contains(h, "Alt"),
        }
    }

    /// The key letter of the hotkey: the last `+`-separated part, trimmed,
    /// where it is one capital letter, and `A` otherwise.
    pub fn get_key_code(&self) -> (c: char)
        ensures
            c == key_letter_of(self.hotkey@),
    {
        let h = self.hotkey.as_str();
        let start = last_segment_start(h);
        let n = h.unicode_len();
        let (a, b) = trim_range(h, start, n);
        if b - a == 1 {
            let c = h.get_char(a);
            if 'A' <= c && c <= 'Z' {
                return c;
            }
        }
        'A'
    }

    /// The key part of the hotkey text as written: the text after the last
    /// `+`, with surrounding whitespace trimmed.
    pub fn key_part(&self) -> (k: String)
        ensures
            k@ == trim_back(trim_front(last_segment(self.hotkey@))),
    {
        let h = self.hotkey.as_str();
        let start = last_segment_start(h);
        let n = h.unicode_len();
        let (a, b) = trim_range(h, start, n);
        String::from_str(h.substring_char(a, b))
    }

    /// Accepts a hotkey that names at least one modifier.
    pub fn validate_hotkey(&self) -> (r: Result<(), String>)
        ensures
            r.is_ok() <==> !modifiers_of(self.hotkey@).spec_is_empty(),
            r matches Err(e) ==> e@
                == "Hotkey must have at least one modifier (Super, Shift, Ctrl, or Alt)"@,
    {
        let modifiers = self.get_modifiers();
        if modifiers.is_empty() {
            Err(String::from_str("Hotkey must have at least one modifier (Super, Shift, Ctrl, or Alt)"))
        } else {
            Ok(())
        }
    }
}

impl Default for Config {
    fn default() -> (c: Config)
        ensures
            c.hotkey@ == "Super+Shift+A"@,
            c.show_hex && c.show_rgb && c.show_hsl,
            c.preview_size == 120,
    {
        Config {
            hotkey: String::from_str("Super+Shift+A"),
            show_hex: true,
            show_rgb: true,
            show_hsl: true,
            preview_size: 120,
        }
    }
}

} // verus!
