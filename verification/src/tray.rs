//! System tray rules: the icon source, the unread state shown by the indicator, the menu
//! entries, the StatusNotifierItem and D-Bus menu answers, per-account unread totals, and
//! the conversion of icon pixels to the ARGB layout the tray protocol carries.

use vstd::prelude::*;

use std::collections::HashMap;

use crate::accounts::{badge_label, Account};
use crate::events::AppEvent;
use crate::paths::{file_stem, file_stem_of, parent, path_parent};
use crate::order::{strictly_sorted, text_less};
use crate::spellcheck::strs;
use crate::text::{decimal, push_decimal, push_str, same_text, string_of};

verus! {

/// Default icon name looked up in the icon theme.
pub const DEFAULT_ICON_NAME: &'static str = "openwhatsapp";

/// Unread icon name looked up in the icon theme.
pub const UNREAD_ICON_NAME: &'static str = "openwhatsapp-unread";

/// Title of the tray item.
pub const TRAY_TITLE: &'static str = "OpenWhatsapp";

/// Where a tray icon comes from: an icon name, and the folder to look it up in when it is
/// not in the icon theme.
#[derive(Clone, Debug, PartialEq, Eq)]
pub struct TrayIcon {
    /// Icon name.
    pub icon_name: String,
    /// Folder holding the icon file, for a custom icon.
    pub theme_path: Option<String>,
}

/// A custom icon file split into its folder and its name without extension; none when the
/// path has no parent or no file name.
pub open spec fn icon_file_parts(path: Seq<char>) -> Option<(Seq<char>, Seq<char>)> {
    match path_parent(path) {
        Some(dir) => match file_stem_of(path) {
            Some(stem) => Some((dir, stem)),
            None => None,
        },
        None => None,
    }
}

/// Splits a custom icon file into its folder and its name without extension.
pub fn split_icon_file(path: &str) -> (r: Option<(String, String)>)
    ensures
        match r {
            Some((dir, name)) => icon_file_parts(path@) == Some((dir@, name@)),
            None => icon_file_parts(path@) is None,
        },
{
    match parent(path) {
        Some(dir) => match file_stem(path) {
            Some(stem) => Some((dir, stem)),
            None => None,
        },
        None => None,
    }
}

impl TrayIcon {
    /// The icon source for an optional custom icon file: the file's name looked up in its
    /// folder, or the default icon name from the icon theme.
    pub fn new(custom_icon_path: Option<&str>) -> (r: Self)
        ensures
            match custom_icon_path {
                Some(p) => match icon_file_parts(p@) {
                    Some((dir, name)) => r.icon_name@ == name && (r.theme_path matches Some(t)
                        && t@ == dir),
                    None => r.icon_name@ == DEFAULT_ICON_NAME@ && r.theme_path is None,
                },
                None => r.icon_name@ == DEFAULT_ICON_NAME@ && r.theme_path is None,
            },
    {
        let parts = match custom_icon_path {
            Some(p) => split_icon_file(p),
            None => None,
        };
        match parts {
            Some((theme_path, icon_name)) => TrayIcon { icon_name, theme_path: Some(theme_path) },
            None => TrayIcon { icon_name: DEFAULT_ICON_NAME.to_string(), theme_path: None },
        }
    }
}

/// The badge text shown on the indicator: empty for no messages, the count up to 999,
/// then `999+`.
pub fn badge_text(unread_count: u32) -> (r: String)
    ensures
        r@ == badge_label(unread_count),
{
    crate::accounts::badge_text(unread_count)
}

/// The indicator's status.
#[derive(Clone, Copy, Debug, PartialEq, Eq, Structural)]
pub enum IndicatorStatus {
    /// Shown normally.
    Active,
    /// Asking for attention.
    Attention,
}

/// What the indicator shows for an unread count.
#[derive(Clone, Debug, PartialEq, Eq)]
pub struct IndicatorState {
    /// Icon name.
    pub icon_name: &'static str,
    /// Icon description.
    pub icon_description: &'static str,
    /// Label beside the icon.
    pub label: String,
    /// Status.
    pub status: IndicatorStatus,
}

/// The indicator for an unread count: the default icon with no label when there is nothing
/// unread; else the unread icon, the badge text and the attention status.
pub fn indicator_state(unread_count: u32) -> (r: IndicatorState)
    ensures
        unread_count == 0 ==> r.icon_name@ == DEFAULT_ICON_NAME@ && r.icon_description@
            == "OpenWhatsapp"@ && r.label@ == Seq::<char>::empty() && r.status
            == IndicatorStatus::Active,
        unread_count > 0 ==> r.icon_name@ == UNREAD_ICON_NAME@ && r.icon_description@
            == "OpenWhatsapp unread"@ && r.label@ == badge_label(unread_count) && r.status
            == IndicatorStatus::Attention,
{
    if unread_count == 0 {
        IndicatorState {
            icon_name: DEFAULT_ICON_NAME,
            icon_description: "OpenWhatsapp",
            label: String::new(),
            status: IndicatorStatus::Active,
        }
    } else {
        IndicatorState {
            icon_name: UNREAD_ICON_NAME,
            icon_description: "OpenWhatsapp unread",
            label: badge_text(unread_count),
            status: IndicatorStatus::Attention,
        }
    }
}

/// Label of the disabled entry shown when there are no accounts.
pub fn empty_accounts_label() -> (r: &'static str)
    ensures
        r@ == "No accounts"@,
{
    "No accounts"
}

/// An entry of the tray's accounts submenu.
#[derive(Clone, Debug, PartialEq)]
pub struct TrayMenuEntry {
    /// Label.
    pub label: String,
    /// Whether it can be chosen.
    pub sensitive: bool,
    /// The event announced when it is chosen.
    pub event: Option<AppEvent>,
}

/// The accounts submenu: one entry per account, labelled with its display name, that
/// switches to it; or a single disabled `No accounts` entry.
pub fn account_menu_entries(accounts: &[Account]) -> (r: Vec<TrayMenuEntry>)
    ensures
        accounts@.len() == 0 ==> r@.len() == 1 && r@[0].label@ == "No accounts"@
            && !r@[0].sensitive && r@[0].event is None,
        accounts@.len() > 0 ==> r@.len() == accounts@.len() && forall|i: int|
            0 <= i < accounts@.len() ==> (#[trigger] r@[i]).label@ == accounts@[i].display_name@
                && r@[i].sensitive && r@[i].event == Some(
                AppEvent::AccountSwitched(accounts@[i].id),
            ),
{
    let mut entries: Vec<TrayMenuEntry> = Vec::new();
    if accounts.len() == 0 {
        entries.push(
            TrayMenuEntry {
                label: empty_accounts_label().to_string(),
                sensitive: false,
                event: None,
            },
        );
        return entries;
    }
    let mut i: usize = 0;
    while i < accounts.len()
        invariant
            0 <= i <= accounts@.len(),
            entries@.len() == i,
            forall|k: int|
                0 <= k < i ==> (#[trigger] entries@[k]).label@ == accounts@[k].display_name@
                    && entries@[k].sensitive && entries@[k].event == Some(
                    AppEvent::AccountSwitched(accounts@[k].id),
                ),
        decreases accounts.len() - i,
    {
        let account = &accounts[i];
        entries.push(
            TrayMenuEntry {
                label: account.display_name.clone(),
                sensitive: true,
                event: Some(AppEvent::AccountSwitched(account.id)),
            },
        );
        i = i + 1;
    }
    entries
}

/// The tooltip text: `WhatsApp Web` when nothing is unread, else `<count> unread`.
pub open spec fn tooltip_text(unread_count: u32) -> Seq<char> {
    if unread_count == 0 {
        "WhatsApp Web"@
    } else {
        decimal(unread_count as nat) + " unread"@
    }
}

/// The tooltip text for an unread count.
pub fn tooltip_body(unread_count: u32) -> (r: String)
    ensures
        r@ == tooltip_text(unread_count),
{
    if unread_count == 0 {
        "WhatsApp Web".to_string()
    } else {
        let mut out: Vec<char> = Vec::new();
        push_decimal(unread_count as u64, &mut out);
        push_str(&mut out, " unread");
        string_of(&out)
    }
}

/// The bus name the tray item is published under, for the process `pid`.
pub open spec fn service_name_of(pid: u32) -> Seq<char> {
    "org.kde.StatusNotifierItem.openwhatsapp_"@ + decimal(pid as nat) + "_1"@
}

/// The bus name the tray item is published under.
pub fn tray_service_name(pid: u32) -> (r: String)
    ensures
        r@ == service_name_of(pid),
{
    let mut out: Vec<char> = Vec::new();
    push_str(&mut out, "org.kde.StatusNotifierItem.openwhatsapp_");
    push_decimal(pid as u64, &mut out);
    push_str(&mut out, "_1");
    string_of(&out)
}

/// A D-Bus property value of the tray item or its menu, before it is put in a variant.
#[derive(Clone, Debug, PartialEq, Eq)]
pub enum PropertyValue {
    /// A string.
    Text(String),
    /// An unsigned 32-bit integer.
    U32(u32),
    /// A boolean.
    Bool(bool),
    /// A list of strings.
    TextList(Vec<String>),
    /// An object path.
    ObjectPath(String),
    /// The tray icon pixmaps.
    IconPixmaps,
    /// A tooltip: icon name and pixmaps, title, body.
    ToolTip { title: String, body: String },
}

/// The values of a property value.
pub enum PropertyView {
    Text(Seq<char>),
    U32(u32),
    Bool(bool),
    TextList(Seq<Seq<char>>),
    ObjectPath(Seq<char>),
    IconPixmaps,
    ToolTip(Seq<char>, Seq<char>),
}

impl View for PropertyValue {
    type V = PropertyView;

    open spec fn view(&self) -> PropertyView {
        match self {
            PropertyValue::Text(s) => PropertyView::Text(s@),
            PropertyValue::U32(n) => PropertyView::U32(*n),
            PropertyValue::Bool(b) => PropertyView::Bool(*b),
            PropertyValue::TextList(v) => PropertyView::TextList(strs(v@)),
            PropertyValue::ObjectPath(s) => PropertyView::ObjectPath(s@),
            PropertyValue::IconPixmaps => PropertyView::IconPixmaps,
            PropertyValue::ToolTip { title, body } => PropertyView::ToolTip(title@, body@),
        }
    }
}

fn text_value(s: &str) -> (r: PropertyValue)
    ensures
        r@ == PropertyView::Text(s@),
{
    PropertyValue::Text(string_of(&crate::text::chars_of(s)))
}

/// Object path of the tray item's menu.
pub const SNI_MENU_PATH: &'static str = "/Menu";

/// The state behind the StatusNotifierItem properties.
#[derive(Clone, Debug, PartialEq, Eq)]
pub struct StatusNotifierState {
    /// Icon name, empty for none.
    pub icon_name: String,
    /// Folder to look the icon up in, empty for none.
    pub icon_theme_path: String,
    /// Unread messages over all accounts.
    pub unread_count: u32,
}

/// The status of the tray item: `Active`, or `NeedsAttention` when something is unread.
pub open spec fn status_text(unread_count: u32) -> Seq<char> {
    if unread_count == 0 {
        "Active"@
    } else {
        "NeedsAttention"@
    }
}

/// The icon name of a custom icon file: its stem when that is not empty, else empty.
pub open spec fn custom_icon_name(custom_icon_path: Option<Seq<char>>) -> Seq<char> {
    match custom_icon_path {
        Some(p) => match file_stem_of(p) {
            Some(stem) => if stem.len() > 0 {
                stem
            } else {
                Seq::<char>::empty()
            },
            None => Seq::<char>::empty(),
        },
        None => Seq::<char>::empty(),
    }
}

/// The icon folder of a custom icon file: its parent, else empty.
pub open spec fn custom_icon_theme_path(custom_icon_path: Option<Seq<char>>) -> Seq<char> {
    match custom_icon_path {
        Some(p) => match path_parent(p) {
            Some(dir) => dir,
            None => Seq::<char>::empty(),
        },
        None => Seq::<char>::empty(),
    }
}

/// The icon name published for an optional custom icon file.
pub fn icon_name(custom_icon_path: Option<&str>) -> (r: String)
    ensures
        r@ == custom_icon_name(crate::text::opt_str_view(custom_icon_path)),
{
    match custom_icon_path {
        Some(p) => match file_stem(p) {
            Some(stem) => if crate::text::chars_of(stem.as_str()).len() > 0 {
                stem
            } else {
                String::new()
            },
            None => String::new(),
        },
        None => String::new(),
    }
}

/// The icon folder published for an optional custom icon file.
pub fn icon_theme_path(custom_icon_path: Option<&str>) -> (r: String)
    ensures
        r@ == custom_icon_theme_path(crate::text::opt_str_view(custom_icon_path)),
{
    match custom_icon_path {
        Some(p) => match parent(p) {
            Some(dir) => dir,
            None => String::new(),
        },
        None => String::new(),
    }
}

/// The value of a StatusNotifierItem property for a tray item with this icon name, icon
/// folder and unread count. Unknown properties read as an empty string.
pub open spec fn sni_property(icon: Seq<char>, theme_path: Seq<char>, unread_count: u32, name: Seq<
    char,
>) -> PropertyView {
    if name == "Category"@ {
        PropertyView::Text("Communications"@)
    } else if name == "Id"@ {
        PropertyView::Text("openwhatsapp"@)
    } else if name == "Title"@ {
        PropertyView::Text("OpenWhatsapp"@)
    } else if name == "Status"@ {
        PropertyView::Text(status_text(unread_count))
    } else if name == "WindowId"@ {
        PropertyView::U32(0)
    } else if name == "IconName"@ {
        PropertyView::Text(icon)
    } else if name == "IconThemePath"@ {
        PropertyView::Text(theme_path)
    } else if name == "IconPixmap"@ || name == "OverlayIconPixmap"@ || name
        == "AttentionIconPixmap"@ {
        PropertyView::IconPixmaps
    } else if name == "ToolTip"@ {
        PropertyView::ToolTip("OpenWhatsapp"@, tooltip_text(unread_count))
    } else if name == "ItemIsMenu"@ {
        PropertyView::Bool(false)
    } else if name == "Menu"@ {
        PropertyView::ObjectPath(SNI_MENU_PATH@)
    } else {
        PropertyView::Text(Seq::<char>::empty())
    }
}

impl StatusNotifierState {
    /// The state of a new tray item for an optional custom icon file, with nothing unread.
    pub fn new(custom_icon_path: Option<&str>) -> (r: Self)
        ensures
            r.icon_name@ == custom_icon_name(crate::text::opt_str_view(custom_icon_path)),
            r.icon_theme_path@ == custom_icon_theme_path(
                crate::text::opt_str_view(custom_icon_path),
            ),
            r.unread_count == 0,
    {
        StatusNotifierState {
            icon_name: icon_name(custom_icon_path),
            icon_theme_path: icon_theme_path(custom_icon_path),
            unread_count: 0,
        }
    }

    /// The item's status.
    pub fn status(&self) -> (r: &'static str)
        ensures
            r@ == status_text(self.unread_count),
    {
        if self.unread_count == 0 {
            "Active"
        } else {
            "NeedsAttention"
        }
    }

    /// The icon name currently published.
    pub fn current_icon_name(&self) -> (r: &str)
        ensures
            r@ == self.icon_name@,
    {
        self.icon_name.as_str()
    }

    /// The value of a StatusNotifierItem property.
    pub fn property(&self, property_name: &str) -> (r: PropertyValue)
        ensures
            r@ == sni_property(
                self.icon_name@,
                self.icon_theme_path@,
                self.unread_count,
                property_name@,
            ),
    {
        let name = property_name;
        if same_text(name, "Category") {
            text_value("Communications")
        } else if same_text(name, "Id") {
            text_value("openwhatsapp")
        } else if same_text(name, "Title") {
            text_value("OpenWhatsapp")
        } else if same_text(name, "Status") {
            text_value(self.status())
        } else if same_text(name, "WindowId") {
            PropertyValue::U32(0)
        } else if same_text(name, "IconName") {
            text_value(self.current_icon_name())
        } else if same_text(name, "IconThemePath") {
            text_value(self.icon_theme_path.as_str())
        } else if same_text(name, "IconPixmap") || same_text(name, "OverlayIconPixmap")
            || same_text(name, "AttentionIconPixmap") {
            PropertyValue::IconPixmaps
        } else if same_text(name, "ToolTip") {
            PropertyValue::ToolTip {
                title: "OpenWhatsapp".to_string(),
                body: tooltip_body(self.unread_count),
            }
        } else if same_text(name, "ItemIsMenu") {
            PropertyValue::Bool(false)
        } else if same_text(name, "Menu") {
            PropertyValue::ObjectPath(SNI_MENU_PATH.to_string())
        } else {
            PropertyValue::Text(String::new())
        }
    }
}

/// What the tray item does for a method call.
#[derive(Clone, Copy, Debug, PartialEq, Eq, Structural)]
pub enum ItemMethodReply {
    /// Show the window, then answer with no value.
    ShowWindow,
    /// Answer with no value.
    Nothing,
    /// Answer with an unknown-method error.
    UnknownMethod,
}

/// The answer to a StatusNotifierItem method: (secondary) activation shows the window, the
/// context menu and scrolling do nothing, anything else is unknown.
pub open spec fn item_method_reply_of(method: Seq<char>) -> ItemMethodReply {
    if method == "Activate"@ || method == "SecondaryActivate"@ {
        ItemMethodReply::ShowWindow
    } else if method == "ContextMenu"@ || method == "Scroll"@ {
        ItemMethodReply::Nothing
    } else {
        ItemMethodReply::UnknownMethod
    }
}

/// The answer to a StatusNotifierItem method.
pub fn item_method_reply(method: &str) -> (r: ItemMethodReply)
    ensures
        r == item_method_reply_of(method@),
{
    if same_text(method, "Activate") || same_text(method, "SecondaryActivate") {
        ItemMethodReply::ShowWindow
    } else if same_text(method, "ContextMenu") || same_text(method, "Scroll") {
        ItemMethodReply::Nothing
    } else {
        ItemMethodReply::UnknownMethod
    }
}

/// Revision of the tray menu layout.
pub const TRAY_MENU_REVISION: u32 = 1;

/// Menu item identifier of `Show`.
pub const MENU_SHOW_ID: i32 = 1;

/// Menu item identifier of `Hide`.
pub const MENU_HIDE_ID: i32 = 2;

/// Menu item identifier of `Quit`.
pub const MENU_QUIT_ID: i32 = 3;

/// The label of a menu item: `Show`, `Hide`, `Quit`, or empty for other identifiers.
pub open spec fn menu_label_of(id: i32) -> Seq<char> {
    if id == MENU_SHOW_ID {
        "Show"@
    } else if id == MENU_HIDE_ID {
        "Hide"@
    } else if id == MENU_QUIT_ID {
        "Quit"@
    } else {
        Seq::<char>::empty()
    }
}

/// The label of a menu item.
pub fn menu_label(id: i32) -> (r: &'static str)
    ensures
        r@ == menu_label_of(id),
{
    if id == MENU_SHOW_ID {
        "Show"
    } else if id == MENU_HIDE_ID {
        "Hide"
    } else if id == MENU_QUIT_ID {
        "Quit"
    } else {
        proof {
            reveal_strlit("");
        }
        ""
    }
}

/// The event a clicked menu item announces.
pub open spec fn menu_event_of(id: i32) -> Option<AppEvent> {
    if id == MENU_SHOW_ID {
        Some(AppEvent::WindowShow)
    } else if id == MENU_HIDE_ID {
        Some(AppEvent::WindowHide)
    } else if id == MENU_QUIT_ID {
        Some(AppEvent::Quit)
    } else {
        None
    }
}

/// The event a menu item's D-Bus event announces: only `clicked` events of the three items
/// announce anything.
pub fn menu_event(id: i32, event_id: &str) -> (r: Option<AppEvent>)
    ensures
        r == (if event_id@ == "clicked"@ {
            menu_event_of(id)
        } else {
            None
        }),
{
    if !same_text(event_id, "clicked") {
        None
    } else if id == MENU_SHOW_ID {
        Some(AppEvent::WindowShow)
    } else if id == MENU_HIDE_ID {
        Some(AppEvent::WindowHide)
    } else if id == MENU_QUIT_ID {
        Some(AppEvent::Quit)
    } else {
        None
    }
}

/// The properties of a menu item, in key order: the root shows its children as a submenu,
/// the others carry their label; all are enabled, visible and of the plain type.
pub open spec fn menu_item_props(id: i32, label: Seq<char>) -> Seq<(Seq<char>, PropertyView)> {
    if id == 0 {
        seq![
            ("children-display"@, PropertyView::Text("submenu"@)),
            ("enabled"@, PropertyView::Bool(true)),
            ("type"@, PropertyView::Text(Seq::<char>::empty())),
            ("visible"@, PropertyView::Bool(true)),
        ]
    } else {
        seq![
            ("enabled"@, PropertyView::Bool(true)),
            ("label"@, PropertyView::Text(label)),
            ("type"@, PropertyView::Text(Seq::<char>::empty())),
            ("visible"@, PropertyView::Bool(true)),
        ]
    }
}

/// The property names of a menu item are in strictly increasing order, the order in which
/// a sorted map of them yields them.
pub proof fn lemma_menu_item_keys_sorted(id: i32, label: Seq<char>)
    ensures
        strictly_sorted(
            menu_item_props(id, label).map_values(|p: (Seq<char>, PropertyView)| p.0),
        ),
{
    reveal_strlit("children-display");
    reveal_strlit("enabled");
    reveal_strlit("label");
    reveal_strlit("type");
    reveal_strlit("visible");
    let keys = menu_item_props(id, label).map_values(|p: (Seq<char>, PropertyView)| p.0);
    assert(keys.len() == 4);
    assert forall|i: int, j: int| 0 <= i < j < keys.len() implies text_less(
        #[trigger] keys[i],
        #[trigger] keys[j],
    ) by {
        assert(keys[i][0] < keys[j][0]);
    }
}

/// The values of a list of named properties.
pub open spec fn props_view(props: Seq<(String, PropertyValue)>) -> Seq<(Seq<char>, PropertyView)> {
    props.map_values(|p: (String, PropertyValue)| (p.0@, p.1@))
}

/// The properties of a menu item, in key order.
pub fn menu_item_properties(id: i32, label: &str) -> (r: Vec<(String, PropertyValue)>)
    ensures
        props_view(r@) == menu_item_props(id, label@),
{
    let mut props: Vec<(String, PropertyValue)> = Vec::new();
    if id == 0 {
        props.push(("children-display".to_string(), text_value("submenu")));
        props.push(("enabled".to_string(), PropertyValue::Bool(true)));
        props.push(("type".to_string(), PropertyValue::Text(String::new())));
        props.push(("visible".to_string(), PropertyValue::Bool(true)));
    } else {
        props.push(("enabled".to_string(), PropertyValue::Bool(true)));
        props.push(("label".to_string(), text_value(label)));
        props.push(("type".to_string(), PropertyValue::Text(String::new())));
        props.push(("visible".to_string(), PropertyValue::Bool(true)));
    }
    assert(props_view(props@) =~= menu_item_props(id, label@));
    props
}

/// The value of the property `name` in a list of named properties; an empty string when
/// there is none.
pub open spec fn lookup_prop(props: Seq<(Seq<char>, PropertyView)>, name: Seq<char>) -> PropertyView
    decreases props.len(),
{
    if props.len() == 0 {
        PropertyView::Text(Seq::<char>::empty())
    } else if props[0].0 == name {
        props[0].1
    } else {
        lookup_prop(props.drop_first(), name)
    }
}

/// The value of one property of a menu item; an empty string for properties it does not
/// have.
pub fn menu_item_property(id: i32, name: &str) -> (r: PropertyValue)
    ensures
        r@ == lookup_prop(menu_item_props(id, menu_label_of(id)), name@),
{
    let props = menu_item_properties(id, menu_label(id));
    let ghost pv = props_view(props@);
    let mut i: usize = 0;
    assert(pv.skip(0) =~= pv);
    while i < props.len()
        invariant
            0 <= i <= props@.len(),
            pv == props_view(props@),
            pv == menu_item_props(id, menu_label_of(id)),
            lookup_prop(pv, name@) == lookup_prop(pv.skip(i as int), name@),
        decreases props.len() - i,
    {
        assert(pv.skip(i as int)[0] == pv[i as int]);
        assert(pv[i as int] == (props@[i as int].0@, props@[i as int].1@));
        if same_text(props[i].0.as_str(), name) {
            return props[i].1.clone_value();
        }
        assert(pv.skip(i as int).drop_first() =~= pv.skip(i + 1));
        i = i + 1;
    }
    PropertyValue::Text(String::new())
}

impl PropertyValue {
    /// A copy of this value.
    pub fn clone_value(&self) -> (r: PropertyValue)
        ensures
            r@ == self@,
    {
        match self {
            PropertyValue::Text(s) => PropertyValue::Text(s.clone()),
            PropertyValue::U32(n) => PropertyValue::U32(*n),
            PropertyValue::Bool(b) => PropertyValue::Bool(*b),
            PropertyValue::TextList(v) => {
                let mut out: Vec<String> = Vec::new();
                let mut i: usize = 0;
                while i < v.len()
                    invariant
                        0 <= i <= v@.len(),
                        strs(out@) == strs(v@).take(i as int),
                    decreases v.len() - i,
                {
                    let ghost before = out@;
                    out.push(v[i].clone());
                    assert(strs(out@) =~= strs(v@).take(i + 1)) by {
                        assert(strs(out@) =~= strs(before).push(v@[i as int]@));
                    }
                    i = i + 1;
                }
                assert(strs(v@).take(v@.len() as int) =~= strs(v@));
                PropertyValue::TextList(out)
            },
            PropertyValue::ObjectPath(s) => PropertyValue::ObjectPath(s.clone()),
            PropertyValue::IconPixmaps => PropertyValue::IconPixmaps,
            PropertyValue::ToolTip { title, body } => PropertyValue::ToolTip {
                title: title.clone(),
                body: body.clone(),
            },
        }
    }
}

/// The value of a property of the D-Bus menu object itself.
pub open spec fn menu_object_property(name: Seq<char>) -> PropertyView {
    if name == "Version"@ {
        PropertyView::U32(3)
    } else if name == "TextDirection"@ {
        PropertyView::Text("ltr"@)
    } else if name == "Status"@ {
        PropertyView::Text("normal"@)
    } else if name == "IconThemePath"@ {
        PropertyView::TextList(Seq::<Seq<char>>::empty())
    } else {
        PropertyView::Text(Seq::<char>::empty())
    }
}

/// The value of a property of the D-Bus menu object.
pub fn menu_property(property: &str) -> (r: PropertyValue)
    ensures
        r@ == menu_object_property(property@),
{
    if same_text(property, "Version") {
        PropertyValue::U32(3)
    } else if same_text(property, "TextDirection") {
        text_value("ltr")
    } else if same_text(property, "Status") {
        text_value("normal")
    } else if same_text(property, "IconThemePath") {
        let v: Vec<String> = Vec::new();
        assert(strs(v@) =~= Seq::<Seq<char>>::empty());
        PropertyValue::TextList(v)
    } else {
        PropertyValue::Text(String::new())
    }
}

/// A menu item: its identifier and its properties.
#[derive(Clone, Debug, PartialEq, Eq)]
pub struct MenuEntry {
    /// Identifier.
    pub id: i32,
    /// Properties, in key order.
    pub properties: Vec<(String, PropertyValue)>,
}

fn menu_entry(id: i32) -> (r: MenuEntry)
    ensures
        r.id == id,
        props_view(r.properties@) == menu_item_props(id, menu_label_of(id)),
{
    MenuEntry { id, properties: menu_item_properties(id, menu_label(id)) }
}

/// The properties of the three menu items, in order: `Show`, `Hide`, `Quit`.
pub fn menu_group_properties() -> (r: Vec<MenuEntry>)
    ensures
        r@.len() == 3,
        r@[0].id == MENU_SHOW_ID,
        r@[1].id == MENU_HIDE_ID,
        r@[2].id == MENU_QUIT_ID,
        forall|i: int|
            0 <= i < 3 ==> props_view((#[trigger] r@[i]).properties@) == menu_item_props(
                r@[i].id,
                menu_label_of(r@[i].id),
            ),
{
    let mut v: Vec<MenuEntry> = Vec::new();
    v.push(menu_entry(MENU_SHOW_ID));
    v.push(menu_entry(MENU_HIDE_ID));
    v.push(menu_entry(MENU_QUIT_ID));
    v
}

/// The tray menu's layout: its revision, the root item, and the root's children.
#[derive(Clone, Debug, PartialEq, Eq)]
pub struct MenuLayout {
    /// Layout revision.
    pub revision: u32,
    /// The root item.
    pub root: MenuEntry,
    /// The root's children, in order.
    pub children: Vec<MenuEntry>,
}

/// The tray menu's layout: a root (identifier 0) whose children are `Show`, `Hide` and
/// `Quit`.
pub fn menu_layout() -> (r: MenuLayout)
    ensures
        r.revision == TRAY_MENU_REVISION,
        r.root.id == 0,
        props_view(r.root.properties@) == menu_item_props(0, Seq::<char>::empty()),
        r.children@.len() == 3,
        r.children@[0].id == MENU_SHOW_ID,
        r.children@[1].id == MENU_HIDE_ID,
        r.children@[2].id == MENU_QUIT_ID,
        forall|i: int|
            0 <= i < 3 ==> props_view((#[trigger] r.children@[i]).properties@) == menu_item_props(
                r.children@[i].id,
                menu_label_of(r.children@[i].id),
            ),
{
    MenuLayout {
        revision: TRAY_MENU_REVISION,
        root: MenuEntry { id: 0, properties: menu_item_properties(0, "") },
        children: menu_group_properties(),
    }
}

/// What the D-Bus menu object does for a method call.
#[derive(Clone, Copy, Debug, PartialEq, Eq, Structural)]
pub enum MenuMethod {
    /// Answer with the layout.
    GetLayout,
    /// Answer with the properties of every item.
    GetGroupProperties,
    /// Answer with one property of one item.
    GetProperty,
    /// Announce the event of a clicked item, then answer with no value.
    Event,
    /// Answer that nothing needs updating.
    AboutToShow,
    /// Answer with an unknown-method error.
    Unknown,
}

/// The D-Bus menu method called.
pub open spec fn menu_method_of(method: Seq<char>) -> MenuMethod {
    if method == "GetLayout"@ {
        MenuMethod::GetLayout
    } else if method == "GetGroupProperties"@ {
        MenuMethod::GetGroupProperties
    } else if method == "GetProperty"@ {
        MenuMethod::GetProperty
    } else if method == "Event"@ {
        MenuMethod::Event
    } else if method == "AboutToShow"@ {
        MenuMethod::AboutToShow
    } else {
        MenuMethod::Unknown
    }
}

/// The D-Bus menu method called.
pub fn menu_method(method: &str) -> (r: MenuMethod)
    ensures
        r == menu_method_of(method@),
{
    if same_text(method, "GetLayout") {
        MenuMethod::GetLayout
    } else if same_text(method, "GetGroupProperties") {
        MenuMethod::GetGroupProperties
    } else if same_text(method, "GetProperty") {
        MenuMethod::GetProperty
    } else if same_text(method, "Event") {
        MenuMethod::Event
    } else if same_text(method, "AboutToShow") {
        MenuMethod::AboutToShow
    } else {
        MenuMethod::Unknown
    }
}

/// Whether no account occurs twice.
pub open spec fn distinct_accounts(entries: Seq<(u128, u32)>) -> bool {
    forall|i: int, j: int|
        0 <= i < j < entries.len() ==> (#[trigger] entries[i]).0 != (#[trigger] entries[j]).0
}

/// The unread count recorded for `account`: the last entry's for it, 0 when there is none.
pub open spec fn count_in(entries: Seq<(u128, u32)>, account: u128) -> nat
    decreases entries.len(),
{
    if entries.len() == 0 {
        0
    } else if entries.last().0 == account {
        entries.last().1 as nat
    } else {
        count_in(entries.drop_last(), account)
    }
}

/// The sum of the recorded counts.
pub open spec fn total_in(entries: Seq<(u128, u32)>) -> nat
    decreases entries.len(),
{
    if entries.len() == 0 {
        0
    } else {
        total_in(entries.drop_last()) + entries.last().1 as nat
    }
}

proof fn lemma_count_at(entries: Seq<(u128, u32)>, i: int)
    requires
        distinct_accounts(entries),
        0 <= i < entries.len(),
    ensures
        count_in(entries, entries[i].0) == entries[i].1,
    decreases entries.len(),
{
    if i < entries.len() - 1 {
        assert(entries.last() == entries[entries.len() - 1]);
        assert(entries[i].0 != entries[entries.len() - 1].0);
        let init = entries.drop_last();
        assert(init[i] == entries[i]);
        lemma_count_at(init, i);
    }
}

proof fn lemma_count_absent(entries: Seq<(u128, u32)>, account: u128)
    requires
        forall|i: int| 0 <= i < entries.len() ==> (#[trigger] entries[i]).0 != account,
    ensures
        count_in(entries, account) == 0,
    decreases entries.len(),
{
    if entries.len() > 0 {
        assert(entries.last() == entries[entries.len() - 1]);
        let init = entries.drop_last();
        assert forall|i: int| 0 <= i < init.len() implies (#[trigger] init[i]).0 != account by {
            assert(init[i] == entries[i]);
        }
        lemma_count_absent(init, account);
    }
}

proof fn lemma_update_count(entries: Seq<(u128, u32)>, i: int, count: u32, other: u128)
    requires
        distinct_accounts(entries),
        0 <= i < entries.len(),
    ensures
        count_in(entries.update(i, (entries[i].0, count)), other) == if other == entries[i].0 {
            count as nat
        } else {
            count_in(entries, other)
        },
        total_in(entries.update(i, (entries[i].0, count))) == total_in(entries) - entries[i].1
            + count,
    decreases entries.len(),
{
    let u = entries.update(i, (entries[i].0, count));
    let init = entries.drop_last();
    assert(entries.last() == entries[entries.len() - 1]);
    if i == entries.len() - 1 {
        assert(u.drop_last() =~= init);
        if other != entries[i].0 {
        }
    } else {
        assert(u.drop_last() =~= init.update(i, (init[i].0, count)));
        assert(init[i] == entries[i]);
        assert(distinct_accounts(init)) by {
            assert forall|a: int, b: int| 0 <= a < b < init.len() implies (#[trigger] init[a]).0
                != (#[trigger] init[b]).0 by {
                assert(init[a] == entries[a]);
                assert(init[b] == entries[b]);
            }
        }
        lemma_update_count(init, i, count, other);
        assert(u.last() == entries.last());
        assert(entries[i].0 != entries[entries.len() - 1].0);
        if other == entries[i].0 {
            lemma_count_at(init, i);
        }
    }
}

proof fn lemma_count_le_total_in(entries: Seq<(u128, u32)>, account: u128)
    ensures
        count_in(entries, account) <= total_in(entries),
    decreases entries.len(),
{
    if entries.len() > 0 {
        lemma_count_le_total_in(entries.drop_last(), account);
    }
}

/// The recorded counts as (account, count) pairs, in the order `accounts` lists the
/// accounts.
pub open spec fn entries_of(accounts: Seq<u128>, counts: Map<u128, u32>) -> Seq<(u128, u32)> {
    accounts.map_values(|k: u128| (k, counts[k]))
}

/// Unread counts per account, and their total: what the tray shows.
pub struct UnreadCounts {
    counts: HashMap<u128, u32>,
    accounts: Ghost<Seq<u128>>,
    total: u32,
}

impl UnreadCounts {
    /// The accounts list each key of the map once, and the total is the sum of the counts.
    pub closed spec fn wf(&self) -> bool {
        &&& forall|i: int, j: int|
            0 <= i < j < self.accounts@.len() ==> self.accounts@[i] != self.accounts@[j]
        &&& forall|k: u128| self.counts@.contains_key(k) <==> self.accounts@.contains(k)
        &&& self.total == total_in(entries_of(self.accounts@, self.counts@))
    }

    /// The unread count last recorded for `account`, 0 when none was.
    pub closed spec fn count(&self, account: u128) -> nat {
        if self.counts@.contains_key(account) {
            self.counts@[account] as nat
        } else {
            0
        }
    }

    /// The sum of the accounts' unread counts.
    pub closed spec fn total(&self) -> nat {
        total_in(entries_of(self.accounts@, self.counts@))
    }

    proof fn lemma_entries(&self)
        requires
            self.wf(),
        ensures
            distinct_accounts(entries_of(self.accounts@, self.counts@)),
            forall|account: u128|
                count_in(entries_of(self.accounts@, self.counts@), account) == #[trigger] self.count(
                    account,
                ),
    {
        let a = self.accounts@;
        let e = entries_of(a, self.counts@);
        assert(distinct_accounts(e)) by {
            assert forall|x: int, y: int| 0 <= x < y < e.len() implies (#[trigger] e[x]).0 != (
            #[trigger] e[y]).0 by {
                assert(e[x].0 == a[x]);
                assert(e[y].0 == a[y]);
            }
        }
        assert forall|account: u128| count_in(e, account) == #[trigger] self.count(account) by {
            if self.counts@.contains_key(account) {
                assert(a.contains(account));
                let i = choose|i: int| 0 <= i < a.len() && a[i] == account;
                assert(e[i] == (account, self.counts@[account]));
                lemma_count_at(e, i);
            } else {
                assert forall|i: int| 0 <= i < e.len() implies (#[trigger] e[i]).0 != account by {
                    assert(e[i].0 == a[i]);
                    assert(a.contains(a[i]));
                }
                lemma_count_absent(e, account);
            }
        }
    }

    /// No counts recorded.
    pub fn new() -> (r: Self)
        ensures
            r.wf(),
            r.total() == 0,
            forall|account: u128| r.count(account) == 0,
    {
        let r = UnreadCounts { counts: HashMap::new(), accounts: Ghost(Seq::empty()), total: 0 };
        assert(entries_of(r.accounts@, r.counts@) =~= Seq::<(u128, u32)>::empty());
        r
    }

    /// An account's count is part of the total.
    pub proof fn lemma_count_le_total(&self, account: u128)
        requires
            self.wf(),
        ensures
            self.count(account) <= self.total(),
    {
        self.lemma_entries();
        lemma_count_le_total_in(entries_of(self.accounts@, self.counts@), account);
    }

    /// The count recorded for `account`, 0 when none was.
    fn recorded(&self, account: u128) -> (r: u32)
        ensures
            r == self.count(account),
    {
        broadcast use vstd::std_specs::hash::group_hash_axioms;

        match self.counts.get(&account) {
            Some(c) => *c,
            None => 0,
        }
    }

    /// Whether recording `count` for `account` keeps the total within `u32`.
    pub fn can_record(&self, account: u128, count: u32) -> (r: bool)
        requires
            self.wf(),
        ensures
            r == (self.total() - self.count(account) + count <= u32::MAX),
    {
        let before = self.recorded(account);
        proof {
            self.lemma_count_le_total(account);
        }
        ((self.total - before) as u64) + (count as u64) <= 0xffff_ffff
    }

    /// Records `count` as the unread count of `account`, replacing the one recorded before,
    /// and returns the new total over all accounts.
    pub fn record(&mut self, account: u128, count: u32) -> (total: u32)
        requires
            old(self).wf(),
            old(self).total() - old(self).count(account) + count <= u32::MAX,
        ensures
            final(self).wf(),
            final(self).count(account) == count,
            forall|other: u128| other != account ==> final(self).count(other) == old(self).count(other),
            final(self).total() == old(self).total() - old(self).count(account) + count,
            total == final(self).total(),
    {
        broadcast use vstd::std_specs::hash::group_hash_axioms;

        let ghost a = self.accounts@;
        let ghost m = self.counts@;
        let ghost e = entries_of(a, m);
        let present = self.counts.contains_key(&account);
        let before = self.recorded(account);
        proof {
            self.lemma_entries();
            self.lemma_count_le_total(account);
        }
        let new_total = self.total - before + count;
        self.counts.insert(account, count);
        let ghost m2 = self.counts@;
        assert(m2 == m.insert(account, count));
        if present {
            proof {
                assert(a.contains(account));
                let i = choose|i: int| 0 <= i < a.len() && a[i] == account;
                assert(e[i] == (account, m[account]));
                assert(entries_of(a, m2) =~= e.update(i, (e[i].0, count)));
                lemma_update_count(e, i, count, account);
                assert forall|other: u128| other != account implies count_in(
                    entries_of(a, m2),
                    other,
                ) == count_in(e, other) by {
                    lemma_update_count(e, i, count, other);
                }
            }
        } else {
            self.accounts = Ghost(a.push(account));
            proof {
                let e2 = entries_of(a.push(account), m2);
                assert forall|i: int| 0 <= i < a.len() implies e2[i] == e[i] by {
                    assert(a[i] != account) by {
                        assert(a.contains(a[i]));
                    }
                }
                assert(e2 =~= e.push((account, count)));
                assert(e2.drop_last() =~= e);
            }
        }
        self.total = new_total;
        proof {
            let a2 = self.accounts@;
            assert(a2 == if present { a } else { a.push(account) });
            assert(before == if present { m[account] } else { 0 });
            assert(total_in(entries_of(a2, m2)) == total_in(e) - before + count);
            assert(self.total == total_in(entries_of(a2, m2)));
            assert forall|x: int, y: int| 0 <= x < y < a2.len() implies a2[x] != a2[y] by {
                if !present && y == a.len() {
                    assert(a.contains(a[x]));
                }
            }
            assert forall|k: u128| self.counts@.contains_key(k) <==> a2.contains(k) by {
                if k == account {
                    if present {
                        assert(a.contains(account));
                    } else {
                        assert(a2[a.len() as int] == account);
                    }
                } else {
                    assert(m2.contains_key(k) == m.contains_key(k));
                    if !present {
                        if a2.contains(k) {
                            let j = choose|j: int| 0 <= j < a2.len() && a2[j] == k;
                            assert(j < a.len());
                            assert(a[j] == k);
                        }
                        if a.contains(k) {
                            let j = choose|j: int| 0 <= j < a.len() && a[j] == k;
                            assert(a2[j] == k);
                        }
                    }
                }
            }
            self.lemma_entries();
        }
        new_total
    }
}

/// The ARGB bytes of the pixel at byte `offset`: alpha (opaque without an alpha channel),
/// red, green, blue.
pub open spec fn argb_pixel(pixels: Seq<u8>, channels: int, offset: int) -> Seq<u8> {
    seq![
        if channels == 4 {
            pixels[offset + 3]
        } else {
            0xffu8
        },
        pixels[offset],
        pixels[offset + 1],
        pixels[offset + 2],
    ]
}

/// The byte offset of pixel (`x`, `y`).
pub open spec fn pixel_offset(rowstride: int, channels: int, y: int, x: int) -> int {
    y * rowstride + x * channels
}

/// The ARGB bytes of the first `n` pixels of row `y`.
pub open spec fn argb_row(pixels: Seq<u8>, channels: int, rowstride: int, y: int, n: nat) -> Seq<u8>
    decreases n,
{
    if n == 0 {
        Seq::<u8>::empty()
    } else {
        argb_row(pixels, channels, rowstride, y, (n - 1) as nat) + argb_pixel(
            pixels,
            channels,
            pixel_offset(rowstride, channels, y, n - 1),
        )
    }
}

/// The ARGB bytes of the first `m` rows, each `width` pixels wide.
pub open spec fn argb_rows(pixels: Seq<u8>, width: nat, channels: int, rowstride: int, m: nat) -> Seq<
    u8,
>
    decreases m,
{
    if m == 0 {
        Seq::<u8>::empty()
    } else {
        argb_rows(pixels, width, channels, rowstride, (m - 1) as nat) + argb_row(
            pixels,
            channels,
            rowstride,
            m - 1,
            width,
        )
    }
}

/// Whether every byte of every pixel of a `width` by `height` image lies within the data.
pub open spec fn pixels_in_bounds(
    len: int,
    width: int,
    height: int,
    channels: int,
    rowstride: int,
) -> bool {
    forall|y: int, x: int|
        0 <= y < height && 0 <= x < width ==> #[trigger] pixel_offset(rowstride, channels, y, x)
            + channels - 1 < len
}

proof fn lemma_argb_row_len(pixels: Seq<u8>, channels: int, rowstride: int, y: int, n: nat)
    ensures
        argb_row(pixels, channels, rowstride, y, n).len() == 4 * n,
    decreases n,
{
    if n > 0 {
        lemma_argb_row_len(pixels, channels, rowstride, y, (n - 1) as nat);
    }
}

proof fn lemma_argb_rows_len(pixels: Seq<u8>, width: nat, channels: int, rowstride: int, m: nat)
    ensures
        argb_rows(pixels, width, channels, rowstride, m).len() == 4 * width * m,
    decreases m,
{
    if m > 0 {
        lemma_argb_rows_len(pixels, width, channels, rowstride, (m - 1) as nat);
        lemma_argb_row_len(pixels, channels, rowstride, m - 1, width);
        assert(4 * width * (m - 1) + 4 * width == 4 * width * m) by (nonlinear_arith);
    } else {
        assert(4 * width * m == 0) by (nonlinear_arith)
            requires
                m == 0,
        ;
    }
}

/// Converts image pixels (rows of `rowstride` bytes, `channels` bytes per pixel, red,
/// green, blue and optionally alpha) to the tray protocol's ARGB layout. Gives up when the
/// sizes are negative, when there are neither 3 nor 4 channels, or when a pixel lies
/// beyond the data.
pub fn pixels_to_argb(width: i32, height: i32, channels: i32, rowstride: i32, pixels: &[u8]) -> (r:
    Option<(i32, i32, Vec<u8>)>)
    ensures
        r is Some <==> (width >= 0 && height >= 0 && rowstride >= 0 && (channels == 3 || channels
            == 4) && pixels_in_bounds(
            pixels@.len() as int,
            width as int,
            height as int,
            channels as int,
            rowstride as int,
        )),
        r matches Some((w, h, argb)) ==> w == width && h == height && argb@ == argb_rows(
            pixels@,
            width as nat,
            channels as int,
            rowstride as int,
            height as nat,
        ) && argb@.len() == 4 * width * height,
{
    if channels < 0 || rowstride < 0 || width < 0 || height < 0 {
        return None;
    }
    if channels != 3 && channels != 4 {
        return None;
    }
    let c: u64 = channels as u64;
    let rs: u64 = rowstride as u64;
    let w: u64 = width as u64;
    let h: u64 = height as u64;
    let ghost px = pixels@;
    let mut argb: Vec<u8> = Vec::new();
    let mut y: u64 = 0;
    while y < h
        invariant
            0 <= y <= h == height,
            w == width,
            c == channels,
            rs == rowstride,
            0 <= rowstride <= i32::MAX,
            0 <= width <= i32::MAX,
            c == 3 || c == 4,
            px == pixels@,
            argb@ == argb_rows(px, w as nat, c as int, rs as int, y as nat),
            forall|yy: int, xx: int|
                0 <= yy < y && 0 <= xx < w ==> #[trigger] pixel_offset(rs as int, c as int, yy, xx)
                    + c - 1 < px.len(),
        decreases h - y,
    {
        let mut x: u64 = 0;
        let ghost before = argb@;
        while x < w
            invariant
                0 <= y < h == height,
                0 <= x <= w == width,
                c == channels,
                rs == rowstride,
                0 <= rowstride <= i32::MAX,
                0 <= height <= i32::MAX,
                c == 3 || c == 4,
                px == pixels@,
                before == argb_rows(px, w as nat, c as int, rs as int, y as nat),
                argb@ == before + argb_row(px, c as int, rs as int, y as int, x as nat),
                forall|yy: int, xx: int|
                    0 <= yy < y && 0 <= xx < w ==> #[trigger] pixel_offset(
                        rs as int,
                        c as int,
                        yy,
                        xx,
                    ) + c - 1 < px.len(),
                forall|xx: int|
                    0 <= xx < x ==> #[trigger] pixel_offset(rs as int, c as int, y as int, xx) + c
                        - 1 < px.len(),
            decreases w - x,
        {
            assert(y * rs <= 0x7fff_ffff * 0x7fff_ffff) by (nonlinear_arith)
                requires
                    y < 0x7fff_ffff,
                    rs <= 0x7fff_ffff,
            ;
            let offset: u64 = y * rs + x * c;
            assert(offset == pixel_offset(rs as int, c as int, y as int, x as int));
            if offset + (c - 1) >= pixels.len() as u64 {
                assert(!pixels_in_bounds(
                    pixels@.len() as int,
                    width as int,
                    height as int,
                    channels as int,
                    rowstride as int,
                )) by {
                    assert(pixel_offset(rs as int, c as int, y as int, x as int) + c - 1 >= px.len());
                }
                return None;
            }
            let o: usize = offset as usize;
            let a: u8 = if c == 4 {
                pixels[o + 3]
            } else {
                0xff
            };
            let ghost mid = argb@;
            argb.push(a);
            argb.push(pixels[o]);
            argb.push(pixels[o + 1]);
            argb.push(pixels[o + 2]);
            assert(argb@ =~= mid + argb_pixel(px, c as int, offset as int));
            assert(argb@ =~= before + argb_row(px, c as int, rs as int, y as int, (x + 1) as nat));
            x = x + 1;
        }
        y = y + 1;
    }
    proof {
        lemma_argb_rows_len(px, w as nat, c as int, rs as int, h as nat);
    }
    Some((width, height, argb))
}

} // verus!
