//! The keyboard shortcuts.

use crate::text::{chars_of, is_text};
use vstd::prelude::*;
use vstd::string::*;

verus! {

/// What a shortcut does.
#[derive(Debug, Clone, Copy, PartialEq, Eq, Structural)]
pub enum Shortcut {
    RunBuffer,
    StopAll,
    CommentToggle,
    AlignBuffer,
    NextBuffer,
    PrevBuffer,
    OpenFile,
    SaveFile,
    SaveFileAs,
    ZoomIn,
    ZoomOut,
    ZoomReset,
    /// Repeat in the editor what was undone.
    Redo,
}

/// The shortcuts and the keys that give them.
pub open spec fn bindings() -> Seq<(Seq<char>, Shortcut)> {
    seq![
        ("alt-r"@, Shortcut::RunBuffer),
        ("alt-s"@, Shortcut::StopAll),
        ("alt-/"@, Shortcut::CommentToggle),
        ("alt-m"@, Shortcut::AlignBuffer),
        ("alt-]"@, Shortcut::NextBuffer),
        ("alt-["@, Shortcut::PrevBuffer),
        ("ctrl-shift-z"@, Shortcut::Redo),
        ("ctrl-o"@, Shortcut::OpenFile),
        ("ctrl-s"@, Shortcut::SaveFile),
        ("ctrl-shift-s"@, Shortcut::SaveFileAs),
        ("ctrl-="@, Shortcut::ZoomIn),
        ("ctrl--"@, Shortcut::ZoomOut),
        ("ctrl-0"@, Shortcut::ZoomReset),
    ]
}

/// What the first binding of `keys` among `b` gives.
pub open spec fn bound_to(b: Seq<(Seq<char>, Shortcut)>, keys: Seq<char>) -> Option<Shortcut>
    decreases b.len(),
{
    if b.len() == 0 {
        None
    } else if b[0].0 == keys {
        Some(b[0].1)
    } else {
        bound_to(b.drop_first(), keys)
    }
}

/// What the keys are bound to.
pub fn shortcut(keys: &str) -> (r: Option<Shortcut>)
    ensures
        r == bound_to(bindings(), keys@),
{
    proof {
        reveal_with_fuel(bound_to, 14);
    }
    let k: Vec<char> = chars_of(keys);
    let k: &[char] = k.as_slice();
    if is_text(k, "alt-r") {
        Some(Shortcut::RunBuffer)
    } else if is_text(k, "alt-s") {
        Some(Shortcut::StopAll)
    } else if is_text(k, "alt-/") {
        Some(Shortcut::CommentToggle)
    } else if is_text(k, "alt-m") {
        Some(Shortcut::AlignBuffer)
    } else if is_text(k, "alt-]") {
        Some(Shortcut::NextBuffer)
    } else if is_text(k, "alt-[") {
        Some(Shortcut::PrevBuffer)
    } else if is_text(k, "ctrl-shift-z") {
        Some(Shortcut::Redo)
    } else if is_text(k, "ctrl-o") {
        Some(Shortcut::OpenFile)
    } else if is_text(k, "ctrl-s") {
        Some(Shortcut::SaveFile)
    } else if is_text(k, "ctrl-shift-s") {
        Some(Shortcut::SaveFileAs)
    } else if is_text(k, "ctrl-=") {
        Some(Shortcut::ZoomIn)
    } else if is_text(k, "ctrl--") {
        Some(Shortcut::ZoomOut)
    } else if is_text(k, "ctrl-0") {
        Some(Shortcut::ZoomReset)
    } else {
        None
    }
}

/// Each shortcut has its keys.
pub proof fn law_keys_give_their_shortcut(keys: Seq<char>, s: Shortcut)
    requires
        (keys == "alt-r"@ && s == Shortcut::RunBuffer)
            || (keys == "alt-s"@ && s == Shortcut::StopAll)
            || (keys == "alt-/"@ && s == Shortcut::CommentToggle)
            || (keys == "alt-m"@ && s == Shortcut::AlignBuffer)
            || (keys == "alt-]"@ && s == Shortcut::NextBuffer)
            || (keys == "alt-["@ && s == Shortcut::PrevBuffer)
            || (keys == "ctrl-shift-z"@ && s == Shortcut::Redo)
            || (keys == "ctrl-o"@ && s == Shortcut::OpenFile)
            || (keys == "ctrl-s"@ && s == Shortcut::SaveFile)
            || (keys == "ctrl-shift-s"@ && s == Shortcut::SaveFileAs)
            || (keys == "ctrl-="@ && s == Shortcut::ZoomIn)
            || (keys == "ctrl--"@ && s == Shortcut::ZoomOut)
            || (keys == "ctrl-0"@ && s == Shortcut::ZoomReset),
    ensures
        bound_to(bindings(), keys) == Some(s),
{
    reveal_strlit("alt-r");
    reveal_strlit("alt-s");
    reveal_strlit("alt-/");
    reveal_strlit("alt-m");
    reveal_strlit("alt-]");
    reveal_strlit("alt-[");
    reveal_strlit("ctrl-shift-z");
    reveal_strlit("ctrl-o");
    reveal_strlit("ctrl-s");
    reveal_strlit("ctrl-shift-s");
    reveal_strlit("ctrl-=");
    reveal_strlit("ctrl--");
    reveal_strlit("ctrl-0");
    reveal_with_fuel(bound_to, 14);
    let b = bindings();
    assert("alt-r"@.len() == 5 && "alt-r"@[4] == 'r');
    assert("alt-s"@.len() == 5 && "alt-s"@[4] == 's');
    assert("alt-/"@.len() == 5 && "alt-/"@[4] == '/');
    assert("alt-m"@.len() == 5 && "alt-m"@[4] == 'm');
    assert("alt-]"@.len() == 5 && "alt-]"@[4] == ']');
    assert("alt-["@.len() == 5 && "alt-["@[4] == '[');
    assert("ctrl-shift-z"@.len() == 12 && "ctrl-shift-z"@[11] == 'z');
    assert("ctrl-o"@.len() == 6 && "ctrl-o"@[5] == 'o');
    assert("ctrl-s"@.len() == 6 && "ctrl-s"@[5] == 's');
    assert("ctrl-shift-s"@.len() == 12 && "ctrl-shift-s"@[11] == 's');
    assert("ctrl-="@.len() == 6 && "ctrl-="@[5] == '=');
    assert("ctrl--"@.len() == 6 && "ctrl--"@[5] == '-');
    assert("ctrl-0"@.len() == 6 && "ctrl-0"@[5] == '0');
}

/// Other keys give nothing.
pub proof fn law_other_keys_give_nothing(keys: Seq<char>)
    requires
        keys != "alt-r"@,
        keys != "alt-s"@,
        keys != "alt-/"@,
        keys != "alt-m"@,
        keys != "alt-]"@,
        keys != "alt-["@,
        keys != "ctrl-shift-z"@,
        keys != "ctrl-o"@,
        keys != "ctrl-s"@,
        keys != "ctrl-shift-s"@,
        keys != "ctrl-="@,
        keys != "ctrl--"@,
        keys != "ctrl-0"@,
    ensures
        bound_to(bindings(), keys) is None,
{
    reveal_with_fuel(bound_to, 14);
}

} // verus!
