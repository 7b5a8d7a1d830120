//! Key presses, key bindings, and the text that shows a binding to a user.

use vstd::prelude::*;
use vstd::string::*;

verus! {

/// The family of operating systems, which decides the name of the meta key.
#[derive(Clone, Copy, Debug, PartialEq, Eq, Structural)]
pub enum Platform {
    MacOs,
    Windows,
    Other,
}

/// The modifier keys held during a key press.
#[derive(Clone, Copy, Debug, PartialEq, Eq, Structural)]
pub struct Modifiers {
    pub ctrl: bool,
    pub alt: bool,
    pub meta: bool,
    pub shift: bool,
}

/// One key press: the key by its name, and the modifiers held with it.
#[derive(Debug, PartialEq, Eq)]
pub struct KeyPress {
    pub key: String,
    pub mods: Modifiers,
}

/// A key binding: the presses that trigger it, in order, and the name of the
/// command that it runs.
#[derive(Debug, PartialEq, Eq)]
pub struct KeyMap {
    pub key: Vec<KeyPress>,
    pub command: String,
}

/// What a [`KeyPress`] holds, with the key's name as characters.
pub struct KeyPressView {
    pub key: Seq<char>,
    pub mods: Modifiers,
}

/// What a [`KeyMap`] holds, as plain sequences.
pub struct KeyMapView {
    pub key: Seq<KeyPressView>,
    pub command: Seq<char>,
}

impl View for KeyPress {
    type V = KeyPressView;

    open spec fn view(&self) -> KeyPressView {
        KeyPressView { key: self.key@, mods: self.mods }
    }
}

/// The views of a sequence of key presses, in order.
pub open spec fn keypress_views(keys: Seq<KeyPress>) -> Seq<KeyPressView> {
    Seq::new(keys.len(), |i: int| keys[i]@)
}

impl View for KeyMap {
    type V = KeyMapView;

    open spec fn view(&self) -> KeyMapView {
        KeyMapView { key: keypress_views(self.key@), command: self.command@ }
    }
}

/// The views of a sequence of key bindings, in order.
pub open spec fn keymap_views(keymaps: Seq<KeyMap>) -> Seq<KeyMapView> {
    Seq::new(keymaps.len(), |i: int| keymaps[i]@)
}

/// The name of the meta key on `platform`.
pub open spec fn meta_name(platform: Platform) -> Seq<char> {
    match platform {
        Platform::MacOs => "Cmd"@,
        Platform::Windows => "Win"@,
        Platform::Other => "Meta"@,
    }
}

/// `prefix` where `held`, nothing otherwise.
pub open spec fn prefix_if(held: bool, prefix: Seq<char>) -> Seq<char> {
    if held {
        prefix
    } else {
        Seq::empty()
    }
}

/// The text of one key press: its modifiers in the order control, alt, meta
/// and shift, each followed by a plus sign, and then the key's name.
pub open spec fn keybinding_text(press: KeyPressView, platform: Platform) -> Seq<char> {
    prefix_if(press.mods.ctrl, "Ctrl+"@) + prefix_if(press.mods.alt, "Alt+"@) + prefix_if(
        press.mods.meta,
        meta_name(platform) + "+"@,
    ) + prefix_if(press.mods.shift, "Shift+"@) + press.key
}

/// The text of the first `n` presses of `presses`: the texts of the presses
/// in order, with one space in front of each but the first. (No space
/// follows an empty text.)
pub open spec fn keymap_text_upto(presses: Seq<KeyPressView>, platform: Platform, n: int) -> Seq<char>
    decreases n,
{
    if n <= 0 || n > presses.len() {
        Seq::empty()
    } else {
        let before = keymap_text_upto(presses, platform, n - 1);
        prefix_if(before.len() > 0, before + " "@) + keybinding_text(presses[n - 1], platform)
    }
}

/// The text of a whole sequence of presses.
pub open spec fn keymap_text(presses: Seq<KeyPressView>, platform: Platform) -> Seq<char> {
    keymap_text_upto(presses, platform, presses.len() as int)
}

/// The index of the first binding at or after `from` that runs `command`,
/// or the number of bindings where there is none.
pub open spec fn first_binding_from(keymaps: Seq<KeyMapView>, command: Seq<char>, from: int) -> int
    decreases keymaps.len() - from,
{
    if from < 0 || from >= keymaps.len() {
        keymaps.len() as int
    } else if keymaps[from].command == command {
        from
    } else {
        first_binding_from(keymaps, command, from + 1)
    }
}

/// The text of the first binding that runs `command`; `Unbound` where no
/// binding does.
pub open spec fn binding_text(keymaps: Seq<KeyMapView>, command: Seq<char>, platform: Platform) -> Seq<char> {
    let i = first_binding_from(keymaps, command, 0);
    if i < keymaps.len() {
        keymap_text(keymaps[i].key, platform)
    } else {
        "Unbound"@
    }
}

/// The text of one key press on `platform`.
pub fn keybinding_to_string(keypress: &KeyPress, platform: Platform) -> (text: String)
    ensures
        text@ == keybinding_text(keypress@, platform),
{
    let mut keymap_str = String::from_str("");
    proof {
        reveal_strlit("");
    }
    assert(keymap_str@ =~= Seq::<char>::empty());
    if keypress.mods.ctrl {
        keymap_str.append("Ctrl+");
    }
    if keypress.mods.alt {
        keymap_str.append("Alt+");
    }
    if keypress.mods.meta {
        let keyname = match platform {
            Platform::MacOs => "Cmd",
            Platform::Windows => "Win",
            Platform::Other => "Meta",
        };
        keymap_str.append(keyname);
        keymap_str.append("+");
    }
    if keypress.mods.shift {
        keymap_str.append("Shift+");
    }
    keymap_str.append(keypress.key.as_str());
    assert(keymap_str@ =~= keybinding_text(keypress@, platform));
    keymap_str
}

/// The text of a sequence of key presses on `platform`.
pub fn keymap_to_string(presses: &Vec<KeyPress>, platform: Platform) -> (text: String)
    ensures
        text@ == keymap_text(keypress_views(presses@), platform),
{
    let ghost views = keypress_views(presses@);
    let mut keymap_str = String::from_str("");
    proof {
        reveal_strlit("");
    }
    assert(keymap_str@ =~= Seq::<char>::empty());
    let n: usize = presses.len();
    let mut i: usize = 0;
    while i < n
        invariant
            i <= n,
            n == presses@.len(),
            views == keypress_views(presses@),
            keymap_str@ == keymap_text_upto(views, platform, i as int),
        decreases n - i,
    {
        if !keymap_str.as_str().is_empty() {
            keymap_str.append(" ");
        }
        let one = keybinding_to_string(&presses[i], platform);
        keymap_str.append(one.as_str());
        i = i + 1;
    }
    keymap_str
}

/// The text of the first binding in `keymaps` that runs `command`, or
/// `None` where no binding runs it.
pub fn lookup_binding(keymaps: &Vec<KeyMap>, command: &String, platform: Platform) -> (text: Option<
    String,
>)
    ensures
        text.is_some() == (first_binding_from(keymap_views(keymaps@), command@, 0)
            < keymaps@.len()),
        text matches Some(t) ==> t@ == binding_text(keymap_views(keymaps@), command@, platform),
{
    let ghost views = keymap_views(keymaps@);
    let n: usize = keymaps.len();
    let mut i: usize = 0;
    while i < n
        invariant
            i <= n,
            n == keymaps@.len(),
            views == keymap_views(keymaps@),
            first_binding_from(views, command@, 0) == first_binding_from(views, command@, i as int),
        decreases n - i,
    {
        if keymaps[i].command == *command {
            let text = keymap_to_string(&keymaps[i].key, platform);
            return Some(text);
        }
        i = i + 1;
    }
    None
}

/// The text that stands beside a command: that of its first binding, or
/// `Unbound`.
pub fn binding_label(keymaps: &Vec<KeyMap>, command: &String, platform: Platform) -> (text: String)
    ensures
        text@ == binding_text(keymap_views(keymaps@), command@, platform),
{
    match lookup_binding(keymaps, command, platform) {
        Some(text) => text,
        None => String::from_str("Unbound"),
    }
}

} // verus!
