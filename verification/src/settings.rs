//! Settings dialog rules: how the values shown in the settings panels are derived from the
//! configuration and how the edited values are written back to it.

use vstd::prelude::*;

use crate::config::{AppConfig, Theme};
use crate::spellcheck::strs;
use crate::text::{
    chars_of, joined, opt_str_view, same_text, split_chars, split_on, string_of, trim, trim_chars, views,
};

verus! {

/// The identifier of a theme in the theme chooser.
pub open spec fn theme_id_of(theme: Theme) -> Seq<char> {
    match theme {
        Theme::Auto => "auto"@,
        Theme::Light => "light"@,
        Theme::Dark => "dark"@,
    }
}

/// The theme chooser's identifier for `theme`.
pub fn theme_choice_id(theme: Theme) -> (r: &'static str)
    ensures
        r@ == theme_id_of(theme),
{
    match theme {
        Theme::Auto => "auto",
        Theme::Light => "light",
        Theme::Dark => "dark",
    }
}

/// The theme selected in the chooser: `light` and `dark` pick those themes; anything else,
/// or no selection, picks `Auto`.
pub open spec fn theme_of_choice(id: Option<Seq<char>>) -> Theme {
    match id {
        Some(t) => if t == "light"@ {
            Theme::Light
        } else if t == "dark"@ {
            Theme::Dark
        } else {
            Theme::Auto
        },
        None => Theme::Auto,
    }
}

/// The theme selected in the chooser.
pub fn theme_from_choice(active_id: Option<&str>) -> (r: Theme)
    ensures
        r == theme_of_choice(opt_str_view(active_id)),
{
    match active_id {
        Some(t) => if same_text(t, "light") {
            Theme::Light
        } else if same_text(t, "dark") {
            Theme::Dark
        } else {
            Theme::Auto
        },
        None => Theme::Auto,
    }
}

/// Reading back the chooser identifier of a theme gives that theme.
pub proof fn lemma_theme_choice_round_trip(theme: Theme)
    ensures
        theme_of_choice(Some(theme_id_of(theme))) == theme,
{
    reveal_strlit("auto");
    reveal_strlit("light");
    reveal_strlit("dark");
    assert("auto"@.len() != "light"@.len());
    assert("auto"@[0] != "dark"@[0]);
    assert("dark"@.len() != "light"@.len());
}

/// A folder typed into a settings field: none when the text is blank, else the text.
pub open spec fn folder_of_entry(text: Seq<char>) -> Option<Seq<char>> {
    if trim(text).len() == 0 {
        None
    } else {
        Some(text)
    }
}

/// The folder typed into a settings field.
pub fn folder_from_entry(text: &str) -> (r: Option<String>)
    ensures
        match r {
            Some(s) => folder_of_entry(text@) == Some(s@),
            None => folder_of_entry(text@) is None,
        },
{
    let chars = chars_of(text);
    if trim_chars(&chars).len() == 0 {
        None
    } else {
        Some(string_of(&chars))
    }
}

/// The trimmed, non-empty pieces.
pub open spec fn trimmed_nonempty(pieces: Seq<Seq<char>>) -> Seq<Seq<char>>
    decreases pieces.len(),
{
    if pieces.len() == 0 {
        Seq::<Seq<char>>::empty()
    } else {
        let rest = trimmed_nonempty(pieces.drop_last());
        if trim(pieces.last()).len() > 0 {
            rest.push(trim(pieces.last()))
        } else {
            rest
        }
    }
}

/// The languages typed into the spellcheck field: its comma-separated entries, trimmed,
/// blank ones dropped.
pub open spec fn language_list_of(text: Seq<char>) -> Seq<Seq<char>> {
    trimmed_nonempty(split_on(text, ','))
}

/// The languages typed into the spellcheck field.
pub fn parse_language_list(text: &str) -> (r: Vec<String>)
    ensures
        strs(r@) == language_list_of(text@),
{
    let pieces = split_chars(&chars_of(text), ',');
    let ghost ps = views(pieces@);
    let mut out: Vec<String> = Vec::new();
    let mut i: usize = 0;
    assert(ps.take(0) =~= Seq::<Seq<char>>::empty());
    assert(strs(out@) =~= Seq::<Seq<char>>::empty());
    while i < pieces.len()
        invariant
            0 <= i <= pieces@.len(),
            ps == views(pieces@),
            ps == split_on(text@, ','),
            strs(out@) == trimmed_nonempty(ps.take(i as int)),
        decreases pieces.len() - i,
    {
        let t = trim_chars(&pieces[i]);
        assert(ps.take(i + 1).drop_last() =~= ps.take(i as int));
        assert(ps[i as int] == pieces@[i as int]@);
        if t.len() > 0 {
            let s = string_of(&t);
            let ghost before = out@;
            out.push(s);
            assert(strs(out@) =~= strs(before).push(s@));
        }
        i = i + 1;
    }
    assert(ps.take(pieces@.len() as int) =~= ps);
    out
}

/// The languages as shown in the spellcheck field: joined with commas.
pub fn join_languages(languages: &[String]) -> (r: String)
    ensures
        r@ == joined(strs(languages@), ','),
{
    let ghost ls = strs(languages@);
    let mut out: Vec<char> = Vec::new();
    let mut i: usize = 0;
    while i < languages.len()
        invariant
            0 <= i <= languages@.len(),
            ls == strs(languages@),
            out@ == joined(ls.take(i as int), ','),
        decreases languages.len() - i,
    {
        let piece = chars_of(languages[i].as_str());
        assert(ls.take(i + 1).drop_last() =~= ls.take(i as int));
        assert(ls[i as int] == piece@);
        if i > 0 {
            out.push(',');
        }
        let ghost start = out@;
        let mut k: usize = 0;
        while k < piece.len()
            invariant
                0 <= k <= piece@.len(),
                out@ == start + piece@.take(k as int),
            decreases piece.len() - k,
        {
            out.push(piece[k]);
            assert(out@ =~= start + piece@.take(k + 1));
            k = k + 1;
        }
        assert(piece@.take(piece@.len() as int) =~= piece@);
        if i == 0 {
            assert(out@ =~= ls.take(1)[0]);
        }
        i = i + 1;
    }
    assert(ls.take(languages@.len() as int) =~= ls);
    string_of(&out)
}

/// `s` split at `sep`, when `s` holds no `sep`, is `s` alone.
proof fn lemma_split_without_sep(s: Seq<char>, sep: char)
    requires
        !s.contains(sep),
    ensures
        split_on(s, sep) == seq![s],
    decreases s.len(),
{
    if s.len() == 0 {
        assert(s =~= Seq::<char>::empty());
    } else {
        assert(!s.drop_last().contains(sep)) by {
            if s.drop_last().contains(sep) {
                let k = choose|k: int| 0 <= k < s.drop_last().len() && s.drop_last()[k] == sep;
                assert(s[k] == sep);
            }
        }
        lemma_split_without_sep(s.drop_last(), sep);
        assert(s.last() != sep) by {
            assert(s[s.len() - 1] == s.last());
        }
        assert(s.drop_last().push(s.last()) =~= s);
        let p = split_on(s.drop_last(), sep);
        assert(split_on(s, sep) == p.update(p.len() - 1, p.last().push(s.last())));
        assert(p.update(p.len() - 1, p.last().push(s.last())) =~= seq![s]);
    }
}

/// Splitting `s`, `sep`, `t` when `t` holds no `sep` gives the pieces of `s`, then `t`.
proof fn lemma_split_after_sep(s: Seq<char>, t: Seq<char>, sep: char)
    requires
        !t.contains(sep),
    ensures
        split_on(s.push(sep) + t, sep) == split_on(s, sep).push(t),
    decreases t.len(),
{
    if t.len() == 0 {
        assert(t =~= Seq::<char>::empty());
        assert(s.push(sep) + t =~= s.push(sep));
        assert(s.push(sep).drop_last() =~= s);
        assert(s.push(sep).last() == sep);
        assert(split_on(s.push(sep), sep) == split_on(s, sep).push(Seq::<char>::empty()));
    } else {
        let u = s.push(sep) + t;
        assert(!t.drop_last().contains(sep)) by {
            if t.drop_last().contains(sep) {
                let k = choose|k: int| 0 <= k < t.drop_last().len() && t.drop_last()[k] == sep;
                assert(t[k] == sep);
            }
        }
        lemma_split_after_sep(s, t.drop_last(), sep);
        assert(u.drop_last() =~= s.push(sep) + t.drop_last());
        assert(u.last() == t.last());
        assert(t.last() != sep) by {
            assert(t[t.len() - 1] == t.last());
        }
        assert(t.drop_last().push(t.last()) =~= t);
        let p = split_on(s, sep).push(t.drop_last());
        assert(split_on(u.drop_last(), sep) == p);
        assert(u.len() > 0);
        assert(split_on(u, sep) == p.update(p.len() - 1, p.last().push(u.last())));
        assert(p.update(p.len() - 1, p.last().push(u.last())) =~= split_on(s, sep).push(t));
    }
}

/// Items without `sep`, joined with `sep` and split at `sep`, come back as they were.
proof fn lemma_split_joined(items: Seq<Seq<char>>, sep: char)
    requires
        items.len() > 0,
        forall|i: int| 0 <= i < items.len() ==> !(#[trigger] items[i]).contains(sep),
    ensures
        split_on(joined(items, sep), sep) == items,
    decreases items.len(),
{
    if items.len() == 1 {
        lemma_split_without_sep(items[0], sep);
        assert(seq![items[0]] =~= items);
    } else {
        let init = items.drop_last();
        assert forall|i: int| 0 <= i < init.len() implies !(#[trigger] init[i]).contains(sep) by {
            assert(init[i] == items[i]);
        }
        lemma_split_joined(init, sep);
        assert(!items.last().contains(sep)) by {
            assert(items[items.len() - 1] == items.last());
        }
        lemma_split_after_sep(joined(init, sep), items.last(), sep);
        assert(init.push(items.last()) =~= items);
    }
}

/// Pieces that are already trimmed and non-empty are kept as they are.
proof fn lemma_trimmed_nonempty_keeps(pieces: Seq<Seq<char>>)
    requires
        forall|i: int|
            0 <= i < pieces.len() ==> (#[trigger] pieces[i]).len() > 0 && trim(pieces[i])
                == pieces[i],
    ensures
        trimmed_nonempty(pieces) == pieces,
    decreases pieces.len(),
{
    if pieces.len() > 0 {
        let init = pieces.drop_last();
        assert forall|i: int|
            0 <= i < init.len() implies (#[trigger] init[i]).len() > 0 && trim(init[i])
            == init[i] by {
            assert(init[i] == pieces[i]);
        }
        lemma_trimmed_nonempty_keeps(init);
        assert(pieces[pieces.len() - 1] == pieces.last());
        assert(init.push(pieces.last()) =~= pieces);
    }
}

/// The spellcheck field round-trips: languages that are trimmed, non-empty and free of
/// commas, shown joined with commas and read back, are the same languages in the same
/// order.
pub proof fn lemma_language_field_round_trip(languages: Seq<Seq<char>>)
    requires
        forall|i: int|
            0 <= i < languages.len() ==> (#[trigger] languages[i]).len() > 0 && trim(
                languages[i],
            ) == languages[i] && !languages[i].contains(','),
    ensures
        language_list_of(joined(languages, ',')) == languages,
{
    if languages.len() == 0 {
        assert(languages =~= Seq::<Seq<char>>::empty());
        assert(joined(languages, ',') == Seq::<char>::empty());
        assert(split_on(Seq::<char>::empty(), ',') == seq![Seq::<char>::empty()]);
        assert(seq![Seq::<char>::empty()].drop_last() =~= Seq::<Seq<char>>::empty());
        assert(trim(Seq::<char>::empty()) =~= Seq::<char>::empty()) by {
            reveal_with_fuel(crate::text::trim_start, 1);
            reveal_with_fuel(crate::text::trim_end, 1);
        }
        let pieces = seq![Seq::<char>::empty()];
        assert(pieces.last() == Seq::<char>::empty());
        assert(trimmed_nonempty(pieces.drop_last()) == Seq::<Seq<char>>::empty());
        assert(trimmed_nonempty(pieces) == Seq::<Seq<char>>::empty());
    } else {
        lemma_split_joined(languages, ',');
        lemma_trimmed_nonempty_keeps(languages);
        assert(split_on(joined(languages, ','), ',') == languages);
    }
}

/// The values of the appearance panel.
#[derive(Clone, Debug, PartialEq, Eq)]
pub struct AppearanceValues {
    /// The selected theme chooser identifier, if any.
    pub theme_id: Option<String>,
    /// Whether client-side decorations are switched on.
    pub custom_decorations: bool,
    /// The interface scale slider's value, as the bit pattern of its `f64` value.
    pub interface_scale_bits: u64,
}

/// Writes the appearance panel's values to the configuration; nothing else changes.
pub fn write_appearance(values: &AppearanceValues, config: &mut AppConfig)
    ensures
        final(config).appearance.theme == theme_of_choice(
            match values.theme_id {
                Some(t) => Some(t@),
                None => None,
            },
        ),
        final(config).appearance.custom_decorations == values.custom_decorations,
        final(config).appearance.interface_scale_bits == values.interface_scale_bits,
        final(config).version == old(config).version,
        final(config).window == old(config).window,
        final(config).usability == old(config).usability,
        final(config).spellcheck == old(config).spellcheck,
        final(config).downloads == old(config).downloads,
        final(config).performance == old(config).performance,
{
    let theme = match &values.theme_id {
        Some(t) => theme_from_choice(Some(t.as_str())),
        None => theme_from_choice(None),
    };
    config.appearance.theme = theme;
    config.appearance.custom_decorations = values.custom_decorations;
    config.appearance.interface_scale_bits = values.interface_scale_bits;
}

/// The values of the usability panel.
#[derive(Clone, Debug, PartialEq, Eq)]
pub struct UsabilityValues {
    /// Whether the tray icon is switched on.
    pub tray_enabled: bool,
    /// Whether closing the window keeps the app running.
    pub background_process: bool,
    /// Whether native file dialogs are switched off.
    pub disable_native_file_dialog: bool,
    /// The text of the download folder field.
    pub download_dir: String,
}

/// Writes the usability panel's values to the configuration: the switches, the native
/// dialog switch for downloads too, and the download folder (none when blank); nothing
/// else changes.
pub fn write_usability(values: &UsabilityValues, config: &mut AppConfig)
    ensures
        final(config).usability.tray_enabled == values.tray_enabled,
        final(config).usability.background_process == values.background_process,
        final(config).usability.disable_native_file_dialog == values.disable_native_file_dialog,
        final(config).usability.tray_icon_path == old(config).usability.tray_icon_path,
        final(config).downloads.disable_native_file_dialog == values.disable_native_file_dialog,
        match final(config).downloads.directory {
            Some(d) => folder_of_entry(values.download_dir@) == Some(d@),
            None => folder_of_entry(values.download_dir@) is None,
        },
        final(config).version == old(config).version,
        final(config).window == old(config).window,
        final(config).appearance == old(config).appearance,
        final(config).spellcheck == old(config).spellcheck,
        final(config).performance == old(config).performance,
{
    config.usability.tray_enabled = values.tray_enabled;
    config.usability.background_process = values.background_process;
    config.usability.disable_native_file_dialog = values.disable_native_file_dialog;
    config.downloads.disable_native_file_dialog = values.disable_native_file_dialog;
    config.downloads.directory = folder_from_entry(values.download_dir.as_str());
}

/// The cache size read from the spin button: its value, or 0 when negative.
pub open spec fn cache_size_of(value: i32) -> u32 {
    if value < 0 {
        0
    } else {
        value as u32
    }
}

/// The cache size read from the spin button.
pub fn cache_size_from_spin(value: i32) -> (r: u32)
    ensures
        r == cache_size_of(value),
{
    if value < 0 {
        0
    } else {
        value as u32
    }
}

/// The values of the performance panel.
#[derive(Clone, Copy, Debug, PartialEq, Eq, Structural)]
pub struct PerformanceValues {
    /// Whether hardware acceleration is switched on.
    pub hardware_acceleration: bool,
    /// The cache size spin button's value.
    pub cache_size: i32,
}

/// Writes the performance panel's values to the configuration; nothing else changes.
pub fn write_performance(values: &PerformanceValues, config: &mut AppConfig)
    ensures
        final(config).performance.hardware_acceleration == values.hardware_acceleration,
        final(config).performance.cache_size_mb == cache_size_of(values.cache_size),
        final(config).version == old(config).version,
        final(config).window == old(config).window,
        final(config).appearance == old(config).appearance,
        final(config).usability == old(config).usability,
        final(config).spellcheck == old(config).spellcheck,
        final(config).downloads == old(config).downloads,
{
    config.performance.hardware_acceleration = values.hardware_acceleration;
    config.performance.cache_size_mb = cache_size_from_spin(values.cache_size);
}

/// The values of the spellcheck panel.
#[derive(Clone, Debug, PartialEq, Eq)]
pub struct SpellcheckValues {
    /// Whether spellcheck is switched on.
    pub enabled: bool,
    /// The text of the languages field.
    pub languages: String,
    /// The text of the custom dictionary folder field.
    pub dictionary_dir: String,
}

/// Writes the spellcheck panel's values to the configuration: the switch, the languages
/// typed (comma-separated, trimmed, blank ones dropped) and the dictionary folder (none
/// when blank); nothing else changes.
pub fn write_spellcheck(values: &SpellcheckValues, config: &mut AppConfig)
    ensures
        final(config).spellcheck.enabled == values.enabled,
        strs(final(config).spellcheck.languages@) == language_list_of(values.languages@),
        match final(config).spellcheck.custom_dictionary_dir {
            Some(d) => folder_of_entry(values.dictionary_dir@) == Some(d@),
            None => folder_of_entry(values.dictionary_dir@) is None,
        },
        final(config).version == old(config).version,
        final(config).window == old(config).window,
        final(config).appearance == old(config).appearance,
        final(config).usability == old(config).usability,
        final(config).downloads == old(config).downloads,
        final(config).performance == old(config).performance,
{
    config.spellcheck.enabled = values.enabled;
    config.spellcheck.languages = parse_language_list(values.languages.as_str());
    config.spellcheck.custom_dictionary_dir = folder_from_entry(values.dictionary_dir.as_str());
}

/// How the settings dialog was closed.
#[derive(Clone, Copy, Debug, PartialEq, Eq, Structural)]
pub enum SettingsResponse {
    /// Cancelled.
    Cancel,
    /// Saved.
    Save,
    /// Saved, asking for a reload.
    SaveAndReload,
    /// Closed another way.
    Other,
}

/// Whether closing the dialog this way saves the settings.
pub fn saves_settings(response: SettingsResponse) -> (r: bool)
    ensures
        r == (response == SettingsResponse::Save || response == SettingsResponse::SaveAndReload),
{
    match response {
        SettingsResponse::Save | SettingsResponse::SaveAndReload => true,
        _ => false,
    }
}

/// The values of every settings panel.
#[derive(Clone, Debug, PartialEq, Eq)]
pub struct PanelValues {
    /// Appearance panel.
    pub appearance: AppearanceValues,
    /// Usability panel.
    pub usability: UsabilityValues,
    /// Performance panel.
    pub performance: PerformanceValues,
    /// Spellcheck panel.
    pub spellcheck: SpellcheckValues,
}

/// Writes every panel's values to the configuration, as saving the dialog does: the
/// appearance, usability, performance and spellcheck settings and the download folder and
/// dialog choice take the panels' values; the window geometry, the tray icon path and the
/// version stay.
pub fn apply_panel_values(values: &PanelValues, config: &mut AppConfig)
    ensures
        final(config).appearance.theme == theme_of_choice(
            match values.appearance.theme_id {
                Some(t) => Some(t@),
                None => None,
            },
        ),
        final(config).appearance.custom_decorations == values.appearance.custom_decorations,
        final(config).appearance.interface_scale_bits == values.appearance.interface_scale_bits,
        final(config).usability.tray_enabled == values.usability.tray_enabled,
        final(config).usability.background_process == values.usability.background_process,
        final(config).usability.disable_native_file_dialog
            == values.usability.disable_native_file_dialog,
        final(config).usability.tray_icon_path == old(config).usability.tray_icon_path,
        final(config).downloads.disable_native_file_dialog
            == values.usability.disable_native_file_dialog,
        match final(config).downloads.directory {
            Some(d) => folder_of_entry(values.usability.download_dir@) == Some(d@),
            None => folder_of_entry(values.usability.download_dir@) is None,
        },
        final(config).performance.hardware_acceleration
            == values.performance.hardware_acceleration,
        final(config).performance.cache_size_mb == cache_size_of(values.performance.cache_size),
        final(config).spellcheck.enabled == values.spellcheck.enabled,
        strs(final(config).spellcheck.languages@) == language_list_of(
            values.spellcheck.languages@,
        ),
        match final(config).spellcheck.custom_dictionary_dir {
            Some(d) => folder_of_entry(values.spellcheck.dictionary_dir@) == Some(d@),
            None => folder_of_entry(values.spellcheck.dictionary_dir@) is None,
        },
        final(config).version == old(config).version,
        final(config).window == old(config).window,
{
    write_appearance(&values.appearance, config);
    write_usability(&values.usability, config);
    write_performance(&values.performance, config);
    write_spellcheck(&values.spellcheck, config);
}

} // verus!
