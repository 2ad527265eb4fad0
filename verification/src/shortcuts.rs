//! Keyboard shortcuts: which key press triggers which action, and the event each action
//! announces.

use vstd::prelude::*;

use crate::accounts::Account;
use crate::events::AppEvent;

verus! {

/// GDK key value of `F11`.
pub const KEY_F11: u32 = 0xffc8;

/// GDK key value of `Tab`.
pub const KEY_TAB: u32 = 0xff09;

/// GDK key value of `ISO_Left_Tab` (Tab with Shift held).
pub const KEY_ISO_LEFT_TAB: u32 = 0xfe20;

/// A key press as the shortcut rules read it.
#[derive(Clone, Copy, Debug, PartialEq, Eq, Structural)]
pub struct KeyInput {
    /// GDK key value.
    pub keyval: u32,
    /// The character the key produces, if any.
    pub unicode: Option<char>,
}

/// An action bound to a keyboard shortcut.
#[derive(Clone, Copy, Debug, PartialEq, Eq, Structural)]
pub enum ShortcutAction {
    ToggleFullscreen,
    OpenSettings,
    NewAccount,
    NextAccount,
    PreviousAccount,
    JumpToAccount(u128),
    ReloadActiveWebView,
    OpenInspector,
    Quit,
}

/// The event an action announces; toggling fullscreen announces its own event once the
/// window has changed state.
pub open spec fn event_of(action: ShortcutAction) -> Option<AppEvent> {
    match action {
        ShortcutAction::ToggleFullscreen => None,
        ShortcutAction::OpenSettings => Some(AppEvent::SettingsOpen),
        ShortcutAction::NewAccount => Some(AppEvent::NewAccountRequested),
        ShortcutAction::NextAccount => Some(AppEvent::NextAccount),
        ShortcutAction::PreviousAccount => Some(AppEvent::PreviousAccount),
        ShortcutAction::JumpToAccount(id) => Some(AppEvent::AccountSwitched(id)),
        ShortcutAction::ReloadActiveWebView => Some(AppEvent::ReloadActiveWebView),
        ShortcutAction::OpenInspector => Some(AppEvent::OpenInspector),
        ShortcutAction::Quit => Some(AppEvent::Quit),
    }
}

impl ShortcutAction {
    /// The event this action announces.
    pub fn into_event(self) -> (r: Option<AppEvent>)
        ensures
            r == event_of(self),
    {
        match self {
            ShortcutAction::ToggleFullscreen => None,
            ShortcutAction::OpenSettings => Some(AppEvent::SettingsOpen),
            ShortcutAction::NewAccount => Some(AppEvent::NewAccountRequested),
            ShortcutAction::NextAccount => Some(AppEvent::NextAccount),
            ShortcutAction::PreviousAccount => Some(AppEvent::PreviousAccount),
            ShortcutAction::JumpToAccount(id) => Some(AppEvent::AccountSwitched(id)),
            ShortcutAction::ReloadActiveWebView => Some(AppEvent::ReloadActiveWebView),
            ShortcutAction::OpenInspector => Some(AppEvent::OpenInspector),
            ShortcutAction::Quit => Some(AppEvent::Quit),
        }
    }
}

/// Whether a key value is Tab, with or without Shift.
pub open spec fn is_tab(keyval: u32) -> bool {
    keyval == KEY_TAB || keyval == KEY_ISO_LEFT_TAB
}

/// Whether a key is Tab, with or without Shift.
pub fn is_tab_key(keyval: u32) -> (r: bool)
    ensures
        r == is_tab(keyval),
{
    keyval == KEY_TAB || keyval == KEY_ISO_LEFT_TAB
}

/// A character with ASCII capitals made small; every other character unchanged.
pub open spec fn ascii_lower(c: char) -> char {
    if 'A' <= c <= 'Z' {
        ((c as u32) + 32) as char
    } else {
        c
    }
}

/// The character a key produces, ASCII capitals made small.
pub fn normalized_key_char(unicode: Option<char>) -> (r: Option<char>)
    ensures
        r == match unicode {
            Some(c) => Some(ascii_lower(c)),
            None => None::<char>,
        },
{
    match unicode {
        Some(c) => {
            if 'A' <= c && c <= 'Z' {
                let small: u8 = (c as u8) + 32;
                Some(small as char)
            } else {
                Some(c)
            }
        },
        None => None,
    }
}

/// The identifiers of the accounts, in their order.
pub fn account_ids_by_index(accounts: &[Account]) -> (r: Vec<u128>)
    ensures
        r@ == accounts@.map_values(|a: Account| a.id),
{
    let mut ids: Vec<u128> = Vec::new();
    let mut i: usize = 0;
    while i < accounts.len()
        invariant
            0 <= i <= accounts@.len(),
            ids@ == accounts@.take(i as int).map_values(|a: Account| a.id),
        decreases accounts.len() - i,
    {
        ids.push(accounts[i].id);
        assert(accounts@.take(i + 1).map_values(|a: Account| a.id) =~= accounts@.take(
            i as int,
        ).map_values(|a: Account| a.id).push(accounts@[i as int].id));
        i = i + 1;
    }
    assert(accounts@.take(accounts@.len() as int) =~= accounts@);
    ids
}

/// The account that a digit key jumps to: `1` the first, up to `9`; none for other
/// characters, for `0`, and past the last account.
pub open spec fn account_for_digit(digit: char, ids: Seq<u128>) -> Option<u128> {
    if '1' <= digit <= '9' && (digit as int) - ('1' as int) < ids.len() {
        Some(ids[(digit as int) - ('1' as int)])
    } else {
        None
    }
}

/// The account that a digit key jumps to.
pub fn account_id_for_digit(digit: char, account_ids: &[u128]) -> (r: Option<u128>)
    ensures
        r == account_for_digit(digit, account_ids@),
{
    if '1' <= digit && digit <= '9' {
        let index: usize = ((digit as u32) - ('1' as u32)) as usize;
        if index < account_ids.len() {
            Some(account_ids[index])
        } else {
            None
        }
    } else {
        None
    }
}

/// The action bound to a key press with the given modifiers. F11 alone toggles fullscreen;
/// with Control: Tab moves to the next account (previous with Shift), `,` opens settings,
/// `n` adds an account, `q` quits, `1`..`9` jump to an account, and with Shift as well `r`
/// reloads and `i` opens the inspector.
pub open spec fn action_of(key: KeyInput, ctrl: bool, shift: bool, ids: Seq<u128>) -> Option<
    ShortcutAction,
> {
    if !ctrl && !shift && key.keyval == KEY_F11 {
        Some(ShortcutAction::ToggleFullscreen)
    } else if !ctrl {
        None
    } else if is_tab(key.keyval) {
        if shift {
            Some(ShortcutAction::PreviousAccount)
        } else {
            Some(ShortcutAction::NextAccount)
        }
    } else {
        match key.unicode {
            None => None,
            Some(u) => {
                let c = ascii_lower(u);
                if c == ',' && !shift {
                    Some(ShortcutAction::OpenSettings)
                } else if c == 'n' && !shift {
                    Some(ShortcutAction::NewAccount)
                } else if c == 'q' && !shift {
                    Some(ShortcutAction::Quit)
                } else if c == 'r' && shift {
                    Some(ShortcutAction::ReloadActiveWebView)
                } else if c == 'i' && shift {
                    Some(ShortcutAction::OpenInspector)
                } else if '1' <= c <= '9' && !shift {
                    match account_for_digit(c, ids) {
                        Some(id) => Some(ShortcutAction::JumpToAccount(id)),
                        None => None,
                    }
                } else {
                    None
                }
            },
        }
    }
}

/// The action bound to a key press.
pub fn shortcut_action(key: KeyInput, ctrl: bool, shift: bool, account_ids: &[u128]) -> (r: Option<
    ShortcutAction,
>)
    ensures
        r == action_of(key, ctrl, shift, account_ids@),
{
    if !ctrl && !shift && key.keyval == KEY_F11 {
        return Some(ShortcutAction::ToggleFullscreen);
    }
    if !ctrl {
        return None;
    }
    if is_tab_key(key.keyval) {
        return if shift {
            Some(ShortcutAction::PreviousAccount)
        } else {
            Some(ShortcutAction::NextAccount)
        };
    }
    match normalized_key_char(key.unicode) {
        Some(c) => {
            if c == ',' && !shift {
                Some(ShortcutAction::OpenSettings)
            } else if c == 'n' && !shift {
                Some(ShortcutAction::NewAccount)
            } else if c == 'q' && !shift {
                Some(ShortcutAction::Quit)
            } else if c == 'r' && shift {
                Some(ShortcutAction::ReloadActiveWebView)
            } else if c == 'i' && shift {
                Some(ShortcutAction::OpenInspector)
            } else if '1' <= c && c <= '9' && !shift {
                match account_id_for_digit(c, account_ids) {
                    Some(id) => Some(ShortcutAction::JumpToAccount(id)),
                    None => None,
                }
            } else {
                None
            }
        },
        None => None,
    }
}

/// Control with a digit `1`..`9`, without Shift, jumps to the account at that position,
/// counted from one, and does nothing when there are fewer accounts; with Shift as well, a
/// digit does nothing.
pub proof fn lemma_ctrl_digit_jumps_to_account(key: KeyInput, ids: Seq<u128>, digit: char)
    requires
        '1' <= digit <= '9',
        key.unicode == Some(digit),
        !is_tab(key.keyval),
    ensures
        (digit as int) - ('1' as int) < ids.len() ==> action_of(key, true, false, ids) == Some(
            ShortcutAction::JumpToAccount(ids[(digit as int) - ('1' as int)]),
        ),
        (digit as int) - ('1' as int) >= ids.len() ==> action_of(key, true, false, ids) is None,
        action_of(key, true, true, ids) is None,
{
    assert(ascii_lower(digit) == digit);
}

/// The key bindings. Without Control, only F11 with no modifier does anything: it toggles
/// fullscreen. With Control, Tab moves to the next account and Shift+Tab to the previous
/// one; without Shift, `,` opens the settings, `N` adds an account and `Q` quits; with
/// Shift, `R` reloads and `I` opens the inspector. Letters count in either case, and a key
/// that produces no character does nothing but Tab.
pub proof fn lemma_shortcut_bindings(key: KeyInput, ids: Seq<u128>)
    ensures
        key.keyval == KEY_F11 ==> action_of(key, false, false, ids) == Some(
            ShortcutAction::ToggleFullscreen,
        ),
        key.keyval != KEY_F11 ==> action_of(key, false, false, ids) is None,
        action_of(key, false, true, ids) is None,
        is_tab(key.keyval) ==> action_of(key, true, false, ids) == Some(
            ShortcutAction::NextAccount,
        ) && action_of(key, true, true, ids) == Some(ShortcutAction::PreviousAccount),
        (!is_tab(key.keyval) && key.unicode == Some(',')) ==> action_of(key, true, false, ids)
            == Some(ShortcutAction::OpenSettings),
        (!is_tab(key.keyval) && (key.unicode == Some('n') || key.unicode == Some('N')))
            ==> action_of(key, true, false, ids) == Some(ShortcutAction::NewAccount),
        (!is_tab(key.keyval) && (key.unicode == Some('q') || key.unicode == Some('Q')))
            ==> action_of(key, true, false, ids) == Some(ShortcutAction::Quit),
        (!is_tab(key.keyval) && (key.unicode == Some('r') || key.unicode == Some('R')))
            ==> action_of(key, true, true, ids) == Some(ShortcutAction::ReloadActiveWebView),
        (!is_tab(key.keyval) && (key.unicode == Some('i') || key.unicode == Some('I')))
            ==> action_of(key, true, true, ids) == Some(ShortcutAction::OpenInspector),
        (!is_tab(key.keyval) && key.unicode is None) ==> action_of(key, true, false, ids) is None
            && action_of(key, true, true, ids) is None,
{
    assert(ascii_lower('N') == 'n');
    assert(ascii_lower('Q') == 'q');
    assert(ascii_lower('R') == 'r');
    assert(ascii_lower('I') == 'i');
    assert(ascii_lower('n') == 'n');
    assert(ascii_lower('q') == 'q');
    assert(ascii_lower('r') == 'r');
    assert(ascii_lower('i') == 'i');
    assert(ascii_lower(',') == ',');
}

} // verus!
