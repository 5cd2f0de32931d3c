//! Small rules of the simulated game API: spell and spellbook lookups, the
//! LFG role a sign-up selects, chat timestamps, and which button state
//! texture is shown.

use vstd::prelude::*;
use std::collections::HashSet;
use crate::text::{all_digits, chars_of, decimal, digits_value, eq_ic, eq_ignore_ascii_case, push_decimal, push_str, replace_char, replace_char_seq, str_eq, string_from_chars};

verus! {

/// Icon used when a spell has none.
pub const DEFAULT_ICON: &'static str = "Interface/Icons/INV_Misc_QuestionMark";

fn owned(s: &str) -> (r: String)
    ensures
        r@ == s@,
{
    let v = chars_of(s);
    string_from_chars(v.as_slice())
}

/// The name shown for a spell: its catalogue name, else `Spell <id>`.
pub fn spell_name(spell_id: u32, catalogue_name: Option<&str>) -> (r: String)
    ensures
        r@ == match catalogue_name {
            Some(n) => n@,
            None => "Spell "@ + decimal(spell_id as nat),
        },
{
    match catalogue_name {
        Some(n) => owned(n),
        None => {
            let mut v = chars_of("Spell ");
            push_decimal(&mut v, spell_id as u64);
            string_from_chars(v.as_slice())
        },
    }
}

/// The icon shown for a spell: the texture path of its icon file, else the
/// question-mark icon.
pub fn spell_icon(icon_path: Option<&str>) -> (r: String)
    ensures
        r@ == match icon_path {
            Some(p) => p@,
            None => DEFAULT_ICON@,
        },
{
    match icon_path {
        Some(p) => owned(p),
        None => owned(DEFAULT_ICON),
    }
}

/// The spellbook types the spellbook API answers for.
pub fn is_spellbook_book_type(book_type: &str) -> (r: bool)
    ensures
        r == (book_type@ == "spell"@ || book_type@ == "pet"@ || book_type@ == "professions"@),
{
    str_eq(book_type, "spell") || str_eq(book_type, "pet") || str_eq(book_type, "professions")
}

/// Whether the player knows a spell.
pub fn is_known_spell(known_spells: &HashSet<u32>, spell_id: u32) -> (r: bool)
    ensures
        r == known_spells@.contains(spell_id),
{
    known_spells.contains(&spell_id)
}

/// The role an LFG application selects: tank before healer before damage
/// dealer; none when no role is ticked.
pub fn selected_application_role(tank: bool, healer: bool, damager: bool) -> (r: String)
    ensures
        r@ == (if tank {
            "TANK"@
        } else if healer {
            "HEALER"@
        } else if damager {
            "DAMAGER"@
        } else {
            ""@
        }),
{
    if tank {
        owned("TANK")
    } else if healer {
        owned("HEALER")
    } else if damager {
        owned("DAMAGER")
    } else {
        owned("")
    }
}

/// `n` (below 100) as two digits.
pub open spec fn two_digits(n: nat) -> Seq<char> {
    seq![(('0' as u32) + n / 10) as char, (('0' as u32) + n % 10) as char]
}

/// The chat timestamp for a session time: nothing when the
/// `showTimestamps` CVar is unset, empty or `none`, else `HH:MM ` of the
/// elapsed seconds, hours taken modulo a day.
pub open spec fn spec_timestamp_prefix(show_timestamps: Option<Seq<char>>, elapsed: u64) -> Seq<char> {
    match show_timestamps {
        None => Seq::empty(),
        Some(f) => if f.len() == 0 || f == "none"@ {
            Seq::empty()
        } else {
            two_digits(((elapsed / 3600) % 24) as nat) + ":"@ + two_digits(((elapsed / 60) % 60) as nat)
                + " "@
        },
    }
}

fn push_two_digits(out: &mut Vec<char>, n: u64)
    requires
        n < 100,
    ensures
        final(out)@ == old(out)@ + two_digits(n as nat),
{
    let tens = (48 + n / 10) as u8;
    let ones = (48 + n % 10) as u8;
    out.push(tens as char);
    out.push(ones as char);
}

/// The chat timestamp prefix for `elapsed` seconds of session time.
pub fn timestamp_prefix(show_timestamps: Option<&str>, elapsed: u64) -> (r: String)
    ensures
        r@ == spec_timestamp_prefix(
            match show_timestamps {
                Some(f) => Some(f@),
                None => None,
            },
            elapsed,
        ),
{
    match show_timestamps {
        None => String::new(),
        Some(f) => {
            let v = chars_of(f);
            if v.len() == 0 || str_eq(f, "none") {
                return String::new();
            }
            let hours = (elapsed / 3600) % 24;
            let minutes = (elapsed / 60) % 60;
            let mut out: Vec<char> = Vec::new();
            push_two_digits(&mut out, hours);
            push_str(&mut out, ":");
            push_two_digits(&mut out, minutes);
            push_str(&mut out, " ");
            string_from_chars(out.as_slice())
        },
    }
}

/// Whether a texture wrap mode is `CLAMPTOBLACKADDITIVE`, in any case.
pub fn is_clamp_to_black_mode(mode: &str) -> (r: bool)
    ensures
        r == eq_ic(mode@, "CLAMPTOBLACKADDITIVE"@),
{
    eq_ignore_ascii_case(mode, "CLAMPTOBLACKADDITIVE")
}

/// The state of a button that decides which of its textures shows.
#[derive(Debug, Clone, Copy, PartialEq, Eq, Structural)]
pub struct ButtonTextureState {
    pub enabled: bool,
    pub checked: bool,
    /// 0 when up, 1 when pushed.
    pub button_state: u8,
}

/// Whether the button texture in slot `parent_key` shows: the normal
/// texture when enabled and up, the pushed one when enabled and pushed, the
/// disabled one when disabled, the checked ones by the checked flag, never
/// the highlight (it shows on hover); any other child always shows. A
/// missing button counts as enabled, unchecked and up.
pub open spec fn spec_button_texture_should_show(button: Option<ButtonTextureState>, parent_key: Seq<char>) -> bool {
    let b = match button {
        Some(b) => b,
        None => ButtonTextureState { enabled: true, checked: false, button_state: 0 },
    };
    if parent_key == "NormalTexture"@ {
        b.enabled && b.button_state == 0
    } else if parent_key == "PushedTexture"@ {
        b.enabled && b.button_state == 1
    } else if parent_key == "DisabledTexture"@ {
        !b.enabled
    } else if parent_key == "HighlightTexture"@ {
        false
    } else if parent_key == "CheckedTexture"@ {
        b.enabled && b.checked
    } else if parent_key == "DisabledCheckedTexture"@ {
        !b.enabled && b.checked
    } else {
        true
    }
}

/// Whether the button texture in slot `parent_key` shows.
pub fn button_texture_should_show(button: Option<ButtonTextureState>, parent_key: &str) -> (r: bool)
    ensures
        r == spec_button_texture_should_show(button, parent_key@),
{
    let b = match button {
        Some(b) => b,
        None => ButtonTextureState { enabled: true, checked: false, button_state: 0 },
    };
    if str_eq(parent_key, "NormalTexture") {
        b.enabled && b.button_state == 0
    } else if str_eq(parent_key, "PushedTexture") {
        b.enabled && b.button_state == 1
    } else if str_eq(parent_key, "DisabledTexture") {
        !b.enabled
    } else if str_eq(parent_key, "HighlightTexture") {
        false
    } else if str_eq(parent_key, "CheckedTexture") {
        b.enabled && b.checked
    } else if str_eq(parent_key, "DisabledCheckedTexture") {
        !b.enabled && b.checked
    } else {
        true
    }
}

/// The texture path of a file data id: `Interface\` and the manifest path
/// with backslashes when the manifest knows it, else the id itself.
pub fn resolve_file_data_id_path(file_data_id: u32, manifest_path: Option<&str>) -> (r: String)
    ensures
        r@ == match manifest_path {
            Some(p) => "Interface\\"@ + replace_char_seq(p@, '/', '\\'),
            None => decimal(file_data_id as nat),
        },
{
    match manifest_path {
        Some(p) => {
            let mut v = chars_of("Interface\\");
            let replaced = replace_char(p, '/', '\\');
            push_str(&mut v, replaced.as_str());
            string_from_chars(v.as_slice())
        },
        None => {
            let mut v: Vec<char> = Vec::new();
            push_decimal(&mut v, file_data_id as u64);
            string_from_chars(v.as_slice())
        },
    }
}

/// Two digits read back as the number they were written from.
proof fn lemma_two_digits_value(n: nat)
    requires
        n < 100,
    ensures
        two_digits(n).len() == 2,
        all_digits(two_digits(n)),
        digits_value(two_digits(n)) == n,
{
    let d = two_digits(n);
    assert(d[0] as u32 == 48 + n / 10);
    assert(d[1] as u32 == 48 + n % 10);
    assert(d.drop_last() == seq![d[0]]);
    let first = seq![d[0]];
    assert(first.drop_last() == Seq::<char>::empty());
    assert(first.last() == d[0]);
    assert(digits_value(first.drop_last()) == 0);
    assert(digits_value(first) == digits_value(first.drop_last()) * 10 + ((first.last() as u32
        - '0' as u32) as nat));
    assert(digits_value(first) == n / 10);
}

/// A shown chat timestamp is `HH:MM ` with `HH` below 24 and `MM` below 60,
/// and it names the minute of the day the session time falls in: `HH` hours
/// and `MM` minutes is at most the seconds since the last midnight, less
/// than a minute before them.
pub proof fn lemma_timestamp_names_minute_of_day(f: Seq<char>, elapsed: u64)
    requires
        f.len() > 0,
        f != "none"@,
    ensures
        ({
            let p = spec_timestamp_prefix(Some(f), elapsed);
            let hh = digits_value(p.subrange(0, 2));
            let mm = digits_value(p.subrange(3, 5));
            &&& p.len() == 6
            &&& p[2] == ':' && p[5] == ' '
            &&& all_digits(p.subrange(0, 2)) && all_digits(p.subrange(3, 5))
            &&& hh < 24 && mm < 60
            &&& hh * 3600 + mm * 60 <= elapsed % 86400 < hh * 3600 + mm * 60 + 60
        }),
{
    reveal_strlit(":");
    reveal_strlit(" ");
    let e = elapsed as int;
    let h = ((elapsed / 3600) % 24) as nat;
    let m = ((elapsed / 60) % 60) as nat;
    lemma_two_digits_value(h);
    lemma_two_digits_value(m);
    let p = spec_timestamp_prefix(Some(f), elapsed);
    assert(p == two_digits(h) + ":"@ + two_digits(m) + " "@);
    assert(p.subrange(0, 2) == two_digits(h));
    assert(p.subrange(3, 5) == two_digits(m));
    let q = e / 86400;
    let r = e % 86400;
    assert(e == q * 86400 + r && 0 <= r < 86400);
    let a = r / 3600;
    let b = r % 3600;
    assert(r == a * 3600 + b && 0 <= b < 3600 && 0 <= a < 24);
    let c = b / 60;
    let d = b % 60;
    assert(b == c * 60 + d && 0 <= d < 60 && 0 <= c < 60);
    vstd::arithmetic::div_mod::lemma_fundamental_div_mod_converse(e, 3600, 24 * q + a, b);
    vstd::arithmetic::div_mod::lemma_fundamental_div_mod_converse(e / 3600, 24, q, a);
    vstd::arithmetic::div_mod::lemma_fundamental_div_mod_converse(e, 60, 1440 * q + 60 * a + c, d);
    vstd::arithmetic::div_mod::lemma_fundamental_div_mod_converse(e / 60, 60, 24 * q + a, c);
    assert(h == a);
    assert(m == c);
}

/// For a button that is up or pushed, exactly one of its normal, pushed and
/// disabled textures shows; its highlight texture never shows (hover does
/// that); one of its two checked textures shows exactly when it is checked,
/// the disabled one exactly when it is also disabled.
pub proof fn lemma_one_button_state_texture_shows(b: ButtonTextureState)
    requires
        b.button_state <= 1,
    ensures
        ({
            let normal = spec_button_texture_should_show(Some(b), "NormalTexture"@);
            let pushed = spec_button_texture_should_show(Some(b), "PushedTexture"@);
            let disabled = spec_button_texture_should_show(Some(b), "DisabledTexture"@);
            let checked = spec_button_texture_should_show(Some(b), "CheckedTexture"@);
            let disabled_checked = spec_button_texture_should_show(
                Some(b),
                "DisabledCheckedTexture"@,
            );
            &&& (if normal { 1int } else { 0 }) + (if pushed { 1int } else { 0 }) + (if disabled {
                1int
            } else {
                0
            }) == 1
            &&& disabled == !b.enabled
            &&& !spec_button_texture_should_show(Some(b), "HighlightTexture"@)
            &&& (checked || disabled_checked) == b.checked
            &&& !(checked && disabled_checked)
            &&& disabled_checked == (b.checked && !b.enabled)
        }),
{
    reveal_strlit("NormalTexture");
    reveal_strlit("PushedTexture");
    reveal_strlit("DisabledTexture");
    reveal_strlit("HighlightTexture");
    reveal_strlit("CheckedTexture");
    reveal_strlit("DisabledCheckedTexture");
    assert("PushedTexture"@ != "NormalTexture"@) by {
        assert("PushedTexture"@[0] != "NormalTexture"@[0]);
    }
    assert("DisabledTexture"@ != "NormalTexture"@) by {
        assert("DisabledTexture"@[0] != "NormalTexture"@[0]);
    }
    assert("DisabledTexture"@ != "PushedTexture"@) by {
        assert("DisabledTexture"@[0] != "PushedTexture"@[0]);
    }
    assert("HighlightTexture"@ != "NormalTexture"@) by {
        assert("HighlightTexture"@[0] != "NormalTexture"@[0]);
    }
    assert("HighlightTexture"@ != "PushedTexture"@) by {
        assert("HighlightTexture"@[0] != "PushedTexture"@[0]);
    }
    assert("HighlightTexture"@ != "DisabledTexture"@) by {
        assert("HighlightTexture"@[0] != "DisabledTexture"@[0]);
    }
    assert("CheckedTexture"@ != "NormalTexture"@) by {
        assert("CheckedTexture"@[0] != "NormalTexture"@[0]);
    }
    assert("CheckedTexture"@ != "PushedTexture"@) by {
        assert("CheckedTexture"@[0] != "PushedTexture"@[0]);
    }
    assert("CheckedTexture"@ != "DisabledTexture"@) by {
        assert("CheckedTexture"@[0] != "DisabledTexture"@[0]);
    }
    assert("CheckedTexture"@ != "HighlightTexture"@) by {
        assert("CheckedTexture"@[0] != "HighlightTexture"@[0]);
    }
    assert("DisabledCheckedTexture"@ != "NormalTexture"@) by {
        assert("DisabledCheckedTexture"@[0] != "NormalTexture"@[0]);
    }
    assert("DisabledCheckedTexture"@ != "PushedTexture"@) by {
        assert("DisabledCheckedTexture"@[0] != "PushedTexture"@[0]);
    }
    assert("DisabledCheckedTexture"@ != "DisabledTexture"@) by {
        assert("DisabledCheckedTexture"@.len() != "DisabledTexture"@.len());
    }
    assert("DisabledCheckedTexture"@ != "HighlightTexture"@) by {
        assert("DisabledCheckedTexture"@[0] != "HighlightTexture"@[0]);
    }
    assert("DisabledCheckedTexture"@ != "CheckedTexture"@) by {
        assert("DisabledCheckedTexture"@[0] != "CheckedTexture"@[0]);
    }
}

} // verus!
