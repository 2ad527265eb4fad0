//! Webview rules: unread counts from page titles, notification titles, permissions that are
//! granted without asking, and switching between account webviews.

use vstd::prelude::*;

use crate::events::AppEvent;
use crate::ids::{id_text, uuid_text};
use crate::spellcheck::strs;
use crate::text::{
    chars_of, decimal, find_char_first, first_at, is_digit, is_first_at, is_white, lemma_first_at_some,
    lemma_parse_u32_of_decimal, occurs_at, opt_str_view, parse_u32, parse_u32_chars, same_chars, same_text,
    string_of, sub_chars, trim, trim_chars, trim_start, trim_start_chars,
};

verus! {

/// WhatsApp Web's address.
pub const WHATSAPP_WEB_URI: &'static str = "https://web.whatsapp.com";

/// Stack child name of the webview used when there is no account.
pub const GUEST_WEBVIEW_NAME: &'static str = "guest";

/// The user agent presented to WhatsApp Web: a Chrome build on Linux.
pub const WHATSAPP_USER_AGENT: &'static str = "Mozilla/5.0 (X11; Linux x86_64) AppleWebKit/537.36 (KHTML, like Gecko) Chrome/148.0.7778.96 Safari/537.36";

/// The unread count in a WhatsApp page title such as `(3) WhatsApp`: the number between a
/// leading `(` (after blanks) and the first `)`.
pub open spec fn unread_of_title(title: Seq<char>) -> Option<u32> {
    let t = trim_start(title);
    if t.len() > 0 && t[0] == '(' {
        let after = t.drop_first();
        match first_at(after, seq![')'], 0) {
            Some(close) => parse_u32(after.take(close)),
            None => None,
        }
    } else {
        None
    }
}

/// Reads the unread count from a WhatsApp page title.
pub fn unread_count_from_title(title: &str) -> (r: Option<u32>)
    ensures
        r == unread_of_title(title@),
{
    let t = trim_start_chars(&chars_of(title));
    if t.len() == 0 || t[0] != '(' {
        return None;
    }
    let after = sub_chars(&t, 1, t.len());
    assert(after@ =~= t@.drop_first());
    match find_char_first(&after, ')', 0) {
        Some(close) => {
            let digits = sub_chars(&after, 0, close);
            assert(digits@ =~= after@.take(close as int));
            parse_u32_chars(&digits)
        },
        None => None,
    }
}

/// A title that begins with an unread count in brackets, such as `(1250) WhatsApp`, reads
/// as that count, whatever the count and whatever follows the bracket.
pub proof fn lemma_unread_count_of_written_title(n: u32, rest: Seq<char>)
    ensures
        unread_of_title(seq!['('] + decimal(n as nat) + seq![')'] + rest) == Some(n),
{
    let digits = decimal(n as nat);
    lemma_parse_u32_of_decimal(n);
    let title = seq!['('] + digits + seq![')'] + rest;
    assert(title[0] == '(');
    assert(!is_white('('));
    assert(trim_start(title) == title);

    let after = title.drop_first();
    assert(after =~= digits + seq![')'] + rest);
    let k = digits.len() as int;
    assert(after[k] == ')');
    assert(after.subrange(k, k + 1) =~= seq![')']);
    assert forall|j: int| 0 <= j < k implies !occurs_at(after, seq![')'], j) by {
        assert(after[j] == digits[j]);
        assert(is_digit(digits[j]));
        assert(after.subrange(j, j + 1)[0] == after[j]);
    }
    assert(is_first_at(after, seq![')'], 0, k));
    lemma_first_at_some(after, seq![')'], 0, k);
    assert(after.take(k) =~= digits);
}

proof fn lemma_trim_start_blanks(blanks: Seq<char>, t: Seq<char>)
    requires
        forall|i: int| 0 <= i < blanks.len() ==> is_white(#[trigger] blanks[i]),
    ensures
        trim_start(blanks + t) == trim_start(t),
    decreases blanks.len(),
{
    if blanks.len() > 0 {
        assert((blanks + t).drop_first() =~= blanks.drop_first() + t);
        assert((blanks + t)[0] == blanks[0]);
        lemma_trim_start_blanks(blanks.drop_first(), t);
    } else {
        assert(blanks + t =~= t);
    }
}

/// Blanks before a title do not change the unread count read from it, and a title whose
/// first character after the blanks is no `(` has none.
pub proof fn lemma_unread_count_after_blanks(blanks: Seq<char>, title: Seq<char>)
    requires
        forall|i: int| 0 <= i < blanks.len() ==> is_white(#[trigger] blanks[i]),
    ensures
        unread_of_title(blanks + title) == unread_of_title(title),
        (title.len() > 0 && !is_white(title[0]) && title[0] != '(') ==> unread_of_title(title)
            is None,
{
    lemma_trim_start_blanks(blanks, title);
}

/// The title shown for a notification: the page's title trimmed, or `WhatsApp` when it is
/// blank.
pub open spec fn notification_title_of(title: Seq<char>) -> Seq<char> {
    if trim(title).len() == 0 {
        "WhatsApp"@
    } else {
        trim(title)
    }
}

/// Normalizes a web notification title.
pub fn normalize_notification_title(title: &str) -> (r: String)
    ensures
        r@ == notification_title_of(title@),
{
    let t = trim_chars(&chars_of(title));
    if t.len() == 0 {
        "WhatsApp".to_string()
    } else {
        string_of(&t)
    }
}

/// The title of a web notification that may have none: `WhatsApp` when absent.
pub fn notification_title(title: Option<&str>) -> (r: String)
    ensures
        match title {
            Some(t) => r@ == notification_title_of(t@),
            None => r@ == "WhatsApp"@,
        },
{
    match title {
        Some(t) => normalize_notification_title(t),
        None => "WhatsApp".to_string(),
    }
}

/// Permission queries granted without asking.
pub open spec fn is_auto_granted(name: Seq<char>) -> bool {
    ||| name == "camera"@
    ||| name == "microphone"@
    ||| name == "speaker-selection"@
    ||| name == "display-capture"@
    ||| name == "notifications"@
}

/// Whether a permission query is granted without asking.
pub fn is_auto_granted_permission_query(name: &str) -> (r: bool)
    ensures
        r == is_auto_granted(name@),
{
    same_text(name, "camera") || same_text(name, "microphone") || same_text(
        name,
        "speaker-selection",
    ) || same_text(name, "display-capture") || same_text(name, "notifications")
}

/// The text of a path.
pub fn path_to_string(path: &str) -> (r: String)
    ensures
        r@ == path@,
{
    string_of(&chars_of(path))
}

/// The value an index is read as: itself when it fits in `isize`, else 0.
pub open spec fn index_value(index: usize) -> int {
    if index <= isize::MAX {
        index as int
    } else {
        0
    }
}

/// The modulus used for a length: itself when it fits in `isize`, else 1.
pub open spec fn length_value(len: usize) -> int {
    if len <= isize::MAX {
        len as int
    } else {
        1
    }
}

/// `index + offset` wrapped into `0..len` (Euclidean remainder).
pub open spec fn wrapped(index: usize, offset: isize, len: usize) -> int {
    (index_value(index) + offset) % length_value(len)
}

proof fn lemma_negative_mod(a: int, l: int)
    requires
        a > 0,
        l > 0,
    ensures
        (-a) % l == (if a % l == 0 {
            0
        } else {
            l - a % l
        }),
{
    let q = a / l;
    let m = a % l;
    assert(a == l * q + m && 0 <= m < l) by (nonlinear_arith)
        requires
            a > 0,
            l > 0,
            q == a / l,
            m == a % l,
    ;
    if m == 0 {
        assert(-a == l * (-q)) by (nonlinear_arith)
            requires
                a == l * q + m,
                m == 0,
        ;
        assert((-a) % l == 0) by (nonlinear_arith)
            requires
                -a == l * (-q),
                l > 0,
        ;
    } else {
        assert(-a == l * (-q - 1) + (l - m)) by (nonlinear_arith)
            requires
                a == l * q + m,
        ;
        assert((-a) % l == l - m) by (nonlinear_arith)
            requires
                -a == l * (-q - 1) + (l - m),
                0 < l - m < l,
        ;
    }
}

/// `index` moved by `offset` within `0..len`, wrapping around at both ends.
pub fn wrap_index(index: usize, offset: isize, len: usize) -> (r: usize)
    requires
        len > 0,
        isize::MIN <= index_value(index) + offset <= isize::MAX,
    ensures
        r == wrapped(index, offset, len),
        r < length_value(len),
{
    let l: i128 = if len <= isize::MAX as usize {
        len as i128
    } else {
        1
    };
    let i: i128 = if index <= isize::MAX as usize {
        index as i128
    } else {
        0
    };
    let s: i128 = i + offset as i128;
    assert(l == length_value(len));
    assert(s == index_value(index) + offset);
    let m: i128 = if s >= 0 {
        ((s as u128) % (l as u128)) as i128
    } else {
        let q: u128 = ((-s) as u128) % (l as u128);
        proof {
            lemma_negative_mod(-s as int, l as int);
        }
        if q == 0 {
            0
        } else {
            l - (q as i128)
        }
    };
    assert(m == s % l);
    m as usize
}

/// The first position of `name` in `names`.
pub open spec fn position_of(names: Seq<Seq<char>>, name: Seq<char>) -> Option<int> {
    if exists|k: int| 0 <= k < names.len() && names[k] == name && forall|j: int|
        0 <= j < k ==> names[j] != name {
        Some(
            choose|k: int|
                0 <= k < names.len() && names[k] == name && forall|j: int|
                    0 <= j < k ==> names[j] != name,
        )
    } else {
        None
    }
}

proof fn lemma_first_position_exists(ns: Seq<Seq<char>>, name: Seq<char>, c: int)
    requires
        0 <= c < ns.len(),
        ns[c] == name,
    ensures
        exists|k: int| 0 <= k < ns.len() && ns[k] == name && forall|j: int| 0 <= j < k ==> ns[j] != name,
    decreases c,
{
    if exists|j: int| 0 <= j < c && ns[j] == name {
        let j = choose|j: int| 0 <= j < c && ns[j] == name;
        lemma_first_position_exists(ns, name, j);
    } else {
        assert(forall|j: int| 0 <= j < c ==> ns[j] != name);
    }
}

fn find_name(names: &[String], name: &str) -> (r: Option<usize>)
    ensures
        match r {
            Some(k) => position_of(strs(names@), name@) == Some(k as int) && k < names@.len(),
            None => position_of(strs(names@), name@) is None,
        },
{
    let target = chars_of(name);
    let ghost ns = strs(names@);
    let mut k: usize = 0;
    while k < names.len()
        invariant
            0 <= k <= names@.len(),
            ns == strs(names@),
            target@ == name@,
            forall|j: int| 0 <= j < k ==> ns[j] != name@,
        decreases names.len() - k,
    {
        let entry: &String = &names[k];
        let candidate = chars_of(entry.as_str());
        proof {
            assert(ns[k as int] == candidate@);
        }
        if same_chars(&candidate, &target) {
            proof {
                assert(ns[k as int] == name@);
                let c = choose|c: int|
                    0 <= c < ns.len() && ns[c] == name@ && forall|j: int|
                        0 <= j < c ==> ns[j] != name@;
                if c < k {
                    assert(ns[c] != name@);
                }
                if k < c {
                    assert(ns[k as int] != name@);
                }
            }
            return Some(k);
        }
        k = k + 1;
    }
    proof {
        if exists|c: int| 0 <= c < ns.len() && ns[c] == name@ && forall|j: int|
            0 <= j < c ==> ns[j] != name@ {
            let c = choose|c: int|
                0 <= c < ns.len() && ns[c] == name@ && forall|j: int|
                    0 <= j < c ==> ns[j] != name@;
            assert(ns[c] != name@);
        }
    }
    None
}

/// The position of the account webview reached by moving `offset` places from the visible
/// one, `current` (the first account when the visible child is not an account).
pub open spec fn relative_position(names: Seq<Seq<char>>, current: Option<Seq<char>>, offset: int) -> int {
    let start = match current {
        Some(n) => match position_of(names, n) {
            Some(k) => k,
            None => 0,
        },
        None => 0,
    };
    (start + offset) % (names.len() as int)
}

/// The account webview shown after moving `offset` places from the visible one (the first
/// when the visible one is not an account): its position in `account_names`, or `None`
/// when there are no accounts.
pub fn switch_relative(account_names: &[String], current_name: Option<&str>, offset: isize) -> (r:
    Option<usize>)
    requires
        account_names@.len() <= isize::MAX,
        offset >= 0 ==> offset + account_names@.len() <= isize::MAX,
    ensures
        account_names@.len() == 0 <==> r is None,
        r matches Some(next) ==> next < account_names@.len() && next == relative_position(
            strs(account_names@),
            opt_str_view(current_name),
            offset as int,
        ),
{
    if account_names.len() == 0 {
        return None;
    }
    let current: usize = match current_name {
        Some(n) => match find_name(account_names, n) {
            Some(k) => k,
            None => 0,
        },
        None => 0,
    };
    Some(wrap_index(current, offset, account_names.len()))
}

/// The stack child to show for an account: its identifier text, when it names an account
/// webview.
pub fn account_child_name(account_names: &[String], account_id: u128) -> (r: Option<String>)
    ensures
        strs(account_names@).contains(uuid_text(account_id)) ==> (r matches Some(n) && n@
            == uuid_text(account_id)),
        !strs(account_names@).contains(uuid_text(account_id)) ==> r is None,
{
    let name = id_text(account_id);
    match find_name(account_names, name.as_str()) {
        Some(k) => {
            proof {
                let ns = strs(account_names@);
                let c = choose|c: int|
                    0 <= c < ns.len() && ns[c] == name@ && forall|j: int|
                        0 <= j < c ==> ns[j] != name@;
                assert(ns[c] == name@);
            }
            Some(name)
        },
        None => {
            proof {
                let ns = strs(account_names@);
                if ns.contains(name@) {
                    let c = choose|c: int| 0 <= c < ns.len() && ns[c] == name@;
                    lemma_first_position_exists(ns, name@, c);
                }
            }
            None
        },
    }
}


/// What the webview stack does in answer to an application event.
#[derive(Clone, Debug, PartialEq, Eq)]
pub enum StackCommand {
    /// Show the stack child of this name.
    Show(String),
    /// Reload the visible webview.
    Reload,
    /// Open the inspector of the visible webview.
    OpenInspector,
}

/// The stack's answer to `event`, given the account webview names and the visible child.
/// Switching to an account shows its webview when there is one; next and previous move one
/// place, wrapping around; reload and inspector act on the visible webview; other events
/// change nothing.
pub fn stack_command(event: &AppEvent, account_names: &[String], current_name: Option<&str>) -> (r:
    Option<StackCommand>)
    requires
        account_names@.len() < isize::MAX,
    ensures
        match *event {
            AppEvent::AccountSwitched(id) => if strs(account_names@).contains(uuid_text(id)) {
                r matches Some(StackCommand::Show(n)) && n@ == uuid_text(id)
            } else {
                r is None
            },
            AppEvent::NextAccount => if account_names@.len() == 0 {
                r is None
            } else {
                r matches Some(StackCommand::Show(n)) && n@ == strs(account_names@)[relative_position(
                    strs(account_names@),
                    opt_str_view(current_name),
                    1,
                )]
            },
            AppEvent::PreviousAccount => if account_names@.len() == 0 {
                r is None
            } else {
                r matches Some(StackCommand::Show(n)) && n@ == strs(account_names@)[relative_position(
                    strs(account_names@),
                    opt_str_view(current_name),
                    -1,
                )]
            },
            AppEvent::ReloadActiveWebView => r == Some(StackCommand::Reload),
            AppEvent::OpenInspector => r == Some(StackCommand::OpenInspector),
            _ => r is None,
        },
{
    match event {
        AppEvent::AccountSwitched(id) => match account_child_name(account_names, *id) {
            Some(name) => Some(StackCommand::Show(name)),
            None => None,
        },
        AppEvent::NextAccount => match switch_relative(account_names, current_name, 1) {
            Some(k) => Some(StackCommand::Show(account_names[k].clone())),
            None => None,
        },
        AppEvent::PreviousAccount => match switch_relative(account_names, current_name, -1) {
            Some(k) => Some(StackCommand::Show(account_names[k].clone())),
            None => None,
        },
        AppEvent::ReloadActiveWebView => Some(StackCommand::Reload),
        AppEvent::OpenInspector => Some(StackCommand::OpenInspector),
        _ => None,
    }
}

/// The event announced when a webview's title changes: the account's unread count, when
/// the title carries one.
pub fn unread_event(account_id: u128, title: &str) -> (r: Option<AppEvent>)
    ensures
        match unread_of_title(title@) {
            Some(count) => r == Some(AppEvent::UnreadCountChanged { account_id, count }),
            None => r is None,
        },
{
    match unread_count_from_title(title) {
        Some(count) => Some(AppEvent::UnreadCountChanged { account_id, count }),
        None => None,
    }
}

/// The event announced when a webview shows a notification: its title normalized (or
/// `WhatsApp`), its body (or empty), and the account it came from.
pub fn notification_event(account_id: u128, title: Option<&str>, body: Option<&str>) -> (r: AppEvent)
    ensures
        r matches AppEvent::NotificationReceived { account_id: a, title: t, body: b } && a
            == account_id && t@ == match title {
            Some(x) => notification_title_of(x@),
            None => "WhatsApp"@,
        } && b@ == match body {
            Some(x) => x@,
            None => Seq::<char>::empty(),
        },
{
    let t = notification_title(title);
    let b = match body {
        Some(x) => path_to_string(x),
        None => String::new(),
    };
    AppEvent::NotificationReceived { account_id, title: t, body: b }
}

/// The events announced when a notification is clicked: show the window, then switch to
/// the notification's account.
pub fn notification_click_events(account_id: u128) -> (r: Vec<AppEvent>)
    ensures
        r@ == seq![AppEvent::WindowShow, AppEvent::AccountSwitched(account_id)],
{
    let mut v: Vec<AppEvent> = Vec::new();
    v.push(AppEvent::WindowShow);
    v.push(AppEvent::AccountSwitched(account_id));
    v
}

/// The kind of a permission request a webview receives.
#[derive(Clone, Copy, Debug, PartialEq, Eq, Structural)]
pub enum PermissionRequestKind {
    /// Showing notifications.
    Notification,
    /// Camera, microphone or screen capture.
    UserMedia,
    /// Listing media devices.
    DeviceInfo,
    /// Anything else.
    Other,
}

/// Whether a permission request is allowed without asking: notifications and the media
/// and device access that calls need are; anything else is left to WebKit.
pub fn allows_permission_request(kind: PermissionRequestKind) -> (r: bool)
    ensures
        r == (kind != PermissionRequestKind::Other),
{
    match kind {
        PermissionRequestKind::Other => false,
        _ => true,
    }
}

} // verus!
