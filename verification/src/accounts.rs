//! Account profiles: creation, display helpers, and their database row form.

use vstd::prelude::*;

use crate::ids::{id_text, new_id, parse_id, uuid_parse, uuid_text};
use crate::text::{chars_of, decimal, decimal_string, string_of, trim, trim_chars};

verus! {

/// Largest unread count shown in full on a badge.
pub const MAX_BADGE_COUNT: u32 = 999;

/// Persisted WhatsApp account profile.
#[derive(Clone, Debug, Eq, PartialEq)]
pub struct Account {
    /// Stable account identifier.
    pub id: u128,
    /// Display name shown in account UI.
    pub display_name: String,
    /// Optional avatar image path.
    pub avatar_path: Option<String>,
    /// Creation timestamp as Unix seconds.
    pub created_at: i64,
    /// Optional custom download folder.
    pub custom_download_dir: Option<String>,
    /// Whether account customizations override global settings.
    pub customization_override: bool,
}

/// The values of an account.
pub struct AccountView {
    pub id: u128,
    pub display_name: Seq<char>,
    pub avatar_path: Option<Seq<char>>,
    pub created_at: i64,
    pub custom_download_dir: Option<Seq<char>>,
    pub customization_override: bool,
}

impl View for Account {
    type V = AccountView;

    open spec fn view(&self) -> AccountView {
        AccountView {
            id: self.id,
            display_name: self.display_name@,
            avatar_path: self.avatar_path.deep_view(),
            created_at: self.created_at,
            custom_download_dir: self.custom_download_dir.deep_view(),
            customization_override: self.customization_override,
        }
    }
}

/// Why a new account could not be created.
#[derive(Clone, Copy, Debug, PartialEq, Eq, Structural)]
pub enum AccountError {
    /// The system clock is before the Unix epoch.
    ClockBeforeEpoch,
    /// The Unix timestamp exceeds `i64`.
    TimestampOverflow,
}

/// Seconds since the Unix epoch, from `UNIX_EPOCH.elapsed()` (`SystemTime::elapsed`: the
/// time from the epoch to now), whole seconds kept; `None` when the clock is before the
/// epoch. Nothing is stated of the value: it is the time.
#[verifier::external_body]
fn seconds_since_epoch() -> (r: Option<u64>) {
    std::time::UNIX_EPOCH.elapsed().ok().map(|d| d.as_secs())
}

/// The Unix timestamp for a clock reading of `seconds` since the epoch (`None`: before it).
pub fn timestamp_from_seconds(seconds: Option<u64>) -> (r: Result<i64, AccountError>)
    ensures
        match seconds {
            None => r == Err::<i64, AccountError>(AccountError::ClockBeforeEpoch),
            Some(s) => if s <= i64::MAX {
                r == Ok::<i64, AccountError>(s as i64)
            } else {
                r == Err::<i64, AccountError>(AccountError::TimestampOverflow)
            },
        },
{
    match seconds {
        None => Err(AccountError::ClockBeforeEpoch),
        Some(s) => if s <= 9223372036854775807u64 {
            Ok(s as i64)
        } else {
            Err(AccountError::TimestampOverflow)
        },
    }
}

/// The current Unix timestamp in seconds.
pub fn unix_timestamp_now() -> (r: Result<i64, AccountError>)
    ensures
        r matches Ok(t) ==> t >= 0,
{
    timestamp_from_seconds(seconds_since_epoch())
}

impl Account {
    /// A new account profile with identifier `id`, created at the clock reading `seconds`
    /// since the Unix epoch (`None`: the clock is before it). It fails exactly when the
    /// reading is no Unix timestamp.
    pub fn with_clock_reading(display_name: &str, id: u128, seconds: Option<u64>) -> (r: Result<
        Self,
        AccountError,
    >)
        ensures
            r is Ok <==> (seconds matches Some(s) && s <= i64::MAX),
            r matches Ok(a) ==> a.id == id && a.display_name@ == display_name@ && a.avatar_path
                is None && a.custom_download_dir is None && !a.customization_override
                && (seconds matches Some(s) && a.created_at == s),
            seconds is None ==> (r matches Err(e) && e == AccountError::ClockBeforeEpoch),
            (seconds matches Some(s) && s > i64::MAX) ==> (r matches Err(e) && e
                == AccountError::TimestampOverflow),
    {
        let created_at = timestamp_from_seconds(seconds)?;
        Ok(Account {
            id,
            display_name: string_of(&chars_of(display_name)),
            avatar_path: None,
            created_at,
            custom_download_dir: None,
            customization_override: false,
        })
    }

    /// Creates a new account profile with a generated identifier, created now.
    pub fn new(display_name: &str) -> (r: Result<Self, AccountError>)
        ensures
            r matches Ok(a) ==> a.display_name@ == display_name@ && a.avatar_path is None
                && a.custom_download_dir is None && !a.customization_override && a.created_at >= 0,
    {
        let seconds = seconds_since_epoch();
        let id = new_id();
        Self::with_clock_reading(display_name, id, seconds)
    }
}

/// The Unicode uppercase mapping of `c`, as `char::to_uppercase` yields it (one to three
/// characters). The mapping is Unicode's case table.
pub uninterp spec fn char_upper(c: char) -> Seq<char>;

/// `char::to_uppercase`, collected into a string. Stated through the name `char_upper`.
#[verifier::external_body]
fn upper_case(c: char) -> (r: String)
    ensures
        r@ == char_upper(c),
{
    c.to_uppercase().collect()
}

/// The avatar text for a display name: the uppercase of its first non-blank character,
/// or `?` for a blank name.
pub open spec fn initial_of(name: Seq<char>) -> Seq<char> {
    let t = trim(name);
    if t.len() == 0 {
        "?"@
    } else {
        char_upper(t[0])
    }
}

/// The avatar fallback text for an account.
pub fn initial_for_name(display_name: &str) -> (r: String)
    ensures
        r@ == initial_of(display_name@),
{
    let t = trim_chars(&chars_of(display_name));
    if t.len() == 0 {
        "?".to_string()
    } else {
        upper_case(t[0])
    }
}

/// The text of an unread badge: empty for no messages, the count up to 999, then `999+`.
pub open spec fn badge_label(count: u32) -> Seq<char> {
    if count == 0 {
        Seq::empty()
    } else if count <= MAX_BADGE_COUNT {
        decimal(count as nat)
    } else {
        "999+"@
    }
}

/// The unread badge text for a count.
pub fn badge_text(count: u32) -> (r: String)
    ensures
        r@ == badge_label(count),
{
    if count == 0 {
        String::new()
    } else if count <= MAX_BADGE_COUNT {
        decimal_string(count as u64)
    } else {
        "999+".to_string()
    }
}

/// An account as a database row: the identifier as hyphenated text, paths as text.
#[derive(Clone, Debug, PartialEq, Eq)]
pub struct AccountRow {
    pub id: String,
    pub display_name: String,
    pub avatar_path: Option<String>,
    pub created_at: i64,
    pub custom_download_dir: Option<String>,
    pub customization_override: bool,
}

/// The values of an account row.
pub struct AccountRowView {
    pub id: Seq<char>,
    pub display_name: Seq<char>,
    pub avatar_path: Option<Seq<char>>,
    pub created_at: i64,
    pub custom_download_dir: Option<Seq<char>>,
    pub customization_override: bool,
}

impl View for AccountRow {
    type V = AccountRowView;

    open spec fn view(&self) -> AccountRowView {
        AccountRowView {
            id: self.id@,
            display_name: self.display_name@,
            avatar_path: self.avatar_path.deep_view(),
            created_at: self.created_at,
            custom_download_dir: self.custom_download_dir.deep_view(),
            customization_override: self.customization_override,
        }
    }
}

/// The row that stores an account.
pub open spec fn row_of(a: AccountView) -> AccountRowView {
    AccountRowView {
        id: uuid_text(a.id),
        display_name: a.display_name,
        avatar_path: a.avatar_path,
        created_at: a.created_at,
        custom_download_dir: a.custom_download_dir,
        customization_override: a.customization_override,
    }
}

/// A stored row that does not decode: the column that holds an invalid identifier.
#[derive(Clone, Copy, Debug, PartialEq, Eq, Structural)]
pub struct RowError {
    /// Index of the offending column.
    pub column: usize,
}

/// Copies an optional path into its database text.
pub fn optional_path_to_db(path: &Option<String>) -> (r: Option<String>)
    ensures
        r.deep_view() == path.deep_view(),
{
    match path {
        Some(p) => Some(string_of(&chars_of(p.as_str()))),
        None => None,
    }
}

/// Turns optional database text back into a path.
pub fn optional_path_from_db(path: Option<String>) -> (r: Option<String>)
    ensures
        r.deep_view() == path.deep_view(),
{
    path
}

/// The database row of an account.
pub fn account_to_row(account: &Account) -> (r: AccountRow)
    ensures
        r@ == row_of(account@),
{
    AccountRow {
        id: id_text(account.id),
        display_name: string_of(&chars_of(account.display_name.as_str())),
        avatar_path: optional_path_to_db(&account.avatar_path),
        created_at: account.created_at,
        custom_download_dir: optional_path_to_db(&account.custom_download_dir),
        customization_override: account.customization_override,
    }
}

/// The account a row holds; the identifier column must parse as a UUID. A row written by
/// `account_to_row` reads back as the account that was written.
pub fn row_to_account(row: &AccountRow) -> (r: Result<Account, RowError>)
    ensures
        match uuid_parse(row.id@) {
            Some(id) => r matches Ok(a) && a@ == (AccountView {
                id,
                display_name: row.display_name@,
                avatar_path: row.avatar_path.deep_view(),
                created_at: row.created_at,
                custom_download_dir: row.custom_download_dir.deep_view(),
                customization_override: row.customization_override,
            }),
            None => r == Err::<Account, RowError>(RowError { column: 0 }),
        },
        forall|a: AccountView| row@ == row_of(a) ==> (r matches Ok(acc) && acc@ == a),
{
    proof {
        assert forall|v: u128| row.id@ == uuid_text(v) implies uuid_parse(row.id@) == Some(v) by {
            crate::ids::lemma_uuid_text_parses(v);
        }
    }
    let id = match parse_id(row.id.as_str()) {
        Some(id) => id,
        None => return Err(RowError { column: 0 }),
    };
    Ok(Account {
        id,
        display_name: string_of(&chars_of(row.display_name.as_str())),
        avatar_path: optional_path_from_db(optional_path_to_db(&row.avatar_path)),
        created_at: row.created_at,
        custom_download_dir: optional_path_from_db(optional_path_to_db(&row.custom_download_dir)),
        customization_override: row.customization_override,
    })
}

} // verus!
