//! Filesystem path rules: joining, file names and extensions, and the application's
//! directory layout below the XDG base directories.

use vstd::prelude::*;

use crate::ids::{id_text, uuid_text};
use crate::text::{chars_of, ends_with, ends_with_exec, string_of};

verus! {

/// `base` with `part` appended as `PathBuf::join` does on Unix: an absolute `part` replaces
/// `base`; otherwise a `/` separates them unless `base` is empty or already ends with one.
pub open spec fn path_join(base: Seq<char>, part: Seq<char>) -> Seq<char> {
    if part.len() > 0 && part[0] == '/' {
        part
    } else if base.len() > 0 && base.last() != '/' {
        base + seq!['/'] + part
    } else {
        base + part
    }
}

/// The final component of the path whose unread prefix is `p`, given that the characters
/// after it, up to the next separator, are `seg`; `.` components are skipped and a final
/// `..` has no name.
pub open spec fn file_name_from(p: Seq<char>, seg: Seq<char>) -> Option<Seq<char>>
    decreases p.len(),
{
    if p.len() == 0 || p.last() == '/' {
        if seg.len() == 0 || seg == seq!['.'] {
            if p.len() == 0 {
                None
            } else {
                file_name_from(p.drop_last(), Seq::empty())
            }
        } else if seg == seq!['.', '.'] {
            None
        } else {
            Some(seg)
        }
    } else {
        file_name_from(p.drop_last(), seq![p.last()] + seg)
    }
}

/// The final component of a path, as `Path::file_name` gives it.
pub open spec fn file_name_of(p: Seq<char>) -> Option<Seq<char>> {
    file_name_from(p, Seq::empty())
}

/// The position of the last `c` in `s`.
pub open spec fn last_index_of(s: Seq<char>, c: char) -> Option<int>
    decreases s.len(),
{
    if s.len() == 0 {
        None
    } else if s.last() == c {
        Some(s.len() - 1)
    } else {
        last_index_of(s.drop_last(), c)
    }
}

/// The stem of a file name: the part before its last `.`, unless that `.` starts the name.
pub open spec fn stem_of_name(name: Seq<char>) -> Seq<char> {
    match last_index_of(name, '.') {
        Some(k) if k > 0 => name.take(k),
        _ => name,
    }
}

/// The extension of a file name: the part after its last `.`, unless that `.` starts the name.
pub open spec fn extension_of_name(name: Seq<char>) -> Option<Seq<char>> {
    match last_index_of(name, '.') {
        Some(k) if k > 0 => Some(name.skip(k + 1)),
        _ => None,
    }
}

/// `Path::file_stem`.
pub open spec fn file_stem_of(p: Seq<char>) -> Option<Seq<char>> {
    match file_name_of(p) {
        Some(name) => Some(stem_of_name(name)),
        None => None,
    }
}

/// `Path::extension`.
pub open spec fn extension_of(p: Seq<char>) -> Option<Seq<char>> {
    match file_name_of(p) {
        Some(name) => extension_of_name(name),
        None => None,
    }
}

/// Whether `name` is a single ordinary path component.
pub open spec fn is_plain_name(name: Seq<char>) -> bool {
    &&& name.len() > 0
    &&& forall|i: int| 0 <= i < name.len() ==> name[i] != '/'
    &&& name != seq!['.']
    &&& name != seq!['.', '.']
}

/// What `Path::parent` gives for a path. Its rules on separators and `.` components are
/// those of `std::path::Components`.
pub uninterp spec fn path_parent(p: Seq<char>) -> Option<Seq<char>>;

/// Joins `part` onto `base` as `PathBuf::join` does on Unix.
pub fn join_path(base: &str, part: &str) -> (r: String)
    ensures
        r@ == path_join(base@, part@),
{
    let b = chars_of(base);
    let p = chars_of(part);
    if p.len() > 0 && p[0] == '/' {
        return string_of(&p);
    }
    let mut out = b.clone();
    assert(out@ =~= b@);
    if b.len() > 0 && b[b.len() - 1] != '/' {
        out.push('/');
    }
    let mut k: usize = 0;
    let ghost prefix = out@;
    while k < p.len()
        invariant
            0 <= k <= p@.len(),
            out@ == prefix + p@.take(k as int),
        decreases p.len() - k,
    {
        out.push(p[k]);
        assert(out@ =~= prefix + p@.take(k + 1));
        k = k + 1;
    }
    assert(p@.take(p@.len() as int) =~= p@);
    assert(out@ =~= path_join(b@, p@));
    string_of(&out)
}

proof fn lemma_file_name_step(p: Seq<char>, k: int, seg: Seq<char>)
    requires
        0 < k <= p.len(),
        p[k - 1] != '/',
    ensures
        file_name_from(p.take(k), seg) == file_name_from(p.take(k - 1), seq![p[k - 1]] + seg),
{
    assert(p.take(k).drop_last() =~= p.take(k - 1));
}

proof fn lemma_file_name_sep(p: Seq<char>, k: int)
    requires
        0 < k <= p.len(),
        p[k - 1] == '/',
    ensures
        file_name_from(p.take(k), Seq::empty()) == file_name_from(p.take(k - 1), Seq::empty()),
{
    assert(p.take(k).drop_last() =~= p.take(k - 1));
}

fn file_name_chars(p: &[char]) -> (r: Option<Vec<char>>)
    ensures
        match r {
            Some(v) => file_name_of(p@) == Some(v@),
            None => file_name_of(p@) is None,
        },
{
    let mut k: usize = p.len();
    assert(p@.take(k as int) =~= p@);
    loop
        invariant
            0 <= k <= p@.len(),
            file_name_of(p@) == file_name_from(p@.take(k as int), Seq::empty()),
        decreases k,
    {
        let mut j: usize = k;
        while j > 0 && p[j - 1] != '/'
            invariant
                0 <= j <= k <= p@.len(),
                file_name_from(p@.take(k as int), Seq::empty()) == file_name_from(
                    p@.take(j as int),
                    p@.subrange(j as int, k as int),
                ),
            decreases j,
        {
            proof {
                lemma_file_name_step(p@, j as int, p@.subrange(j as int, k as int));
                assert(seq![p@[j - 1]] + p@.subrange(j as int, k as int) =~= p@.subrange(
                    j - 1,
                    k as int,
                ));
            }
            j = j - 1;
        }
        let seg_len = k - j;
        let ghost seg = p@.subrange(j as int, k as int);
        let is_dot = seg_len == 1 && p[j] == '.';
        let is_dot_dot = seg_len == 2 && p[j] == '.' && p[j + 1] == '.';
        proof {
            if is_dot {
                assert(seg =~= seq!['.']);
            }
            if is_dot_dot {
                assert(seg =~= seq!['.', '.']);
            }
            if seg_len == 1 && seg == seq!['.'] {
                assert(seg[0] == '.');
            }
            if seg_len == 2 && seg == seq!['.', '.'] {
                assert(seg[0] == '.' && seg[1] == '.');
            }
        }
        if seg_len == 0 || is_dot {
            if j == 0 {
                return None;
            }
            proof {
                lemma_file_name_sep(p@, j as int);
            }
            k = j - 1;
        } else if is_dot_dot {
            return None;
        } else {
            let mut v: Vec<char> = Vec::new();
            let mut i: usize = j;
            while i < k
                invariant
                    j <= i <= k <= p@.len(),
                    v@ == p@.subrange(j as int, i as int),
                decreases k - i,
            {
                v.push(p[i]);
                assert(v@ =~= p@.subrange(j as int, i + 1));
                i = i + 1;
            }
            return Some(v);
        }
    }
}

/// The final component of `path`, as `Path::file_name` gives it.
pub fn file_name(path: &str) -> (r: Option<String>)
    ensures
        r.deep_view() == file_name_of(path@),
{
    let p = chars_of(path);
    match file_name_chars(&p) {
        Some(v) => Some(string_of(&v)),
        None => None,
    }
}

fn last_dot(s: &[char]) -> (r: Option<usize>)
    ensures
        match r {
            Some(k) => last_index_of(s@, '.') == Some(k as int) && k < s@.len(),
            None => last_index_of(s@, '.') is None,
        },
{
    let mut k: usize = s.len();
    assert(s@.take(k as int) =~= s@);
    while k > 0
        invariant
            0 <= k <= s@.len(),
            last_index_of(s@, '.') == last_index_of(s@.take(k as int), '.'),
        decreases k,
    {
        if s[k - 1] == '.' {
            return Some(k - 1);
        }
        assert(s@.take(k as int).drop_last() =~= s@.take(k - 1));
        k = k - 1;
    }
    None
}

/// The file stem of `path`, as `Path::file_stem` gives it.
pub fn file_stem(path: &str) -> (r: Option<String>)
    ensures
        r.deep_view() == file_stem_of(path@),
{
    let p = chars_of(path);
    match file_name_chars(&p) {
        None => None,
        Some(name) => match last_dot(&name) {
            Some(k) if k > 0 => {
                let mut v: Vec<char> = Vec::new();
                let mut i: usize = 0;
                while i < k
                    invariant
                        0 <= i <= k < name@.len(),
                        v@ == name@.take(i as int),
                    decreases k - i,
                {
                    v.push(name[i]);
                    assert(v@ =~= name@.take(i + 1));
                    i = i + 1;
                }
                Some(string_of(&v))
            },
            _ => Some(string_of(&name)),
        },
    }
}

/// The extension of `path`, as `Path::extension` gives it.
pub fn extension(path: &str) -> (r: Option<String>)
    ensures
        r.deep_view() == extension_of(path@),
{
    let p = chars_of(path);
    match file_name_chars(&p) {
        None => None,
        Some(name) => match last_dot(&name) {
            Some(k) if k > 0 => {
                let n = name.len();
                assert(k < n);
                let mut v: Vec<char> = Vec::new();
                let mut i: usize = k + 1;
                while i < name.len()
                    invariant
                        k + 1 <= i <= name@.len(),
                        v@ == name@.subrange(k + 1, i as int),
                    decreases name.len() - i,
                {
                    v.push(name[i]);
                    assert(v@ =~= name@.subrange(k + 1, i + 1));
                    i = i + 1;
                }
                assert(name@.skip(k + 1) =~= name@.subrange(k + 1, name@.len() as int));
                Some(string_of(&v))
            },
            _ => None,
        },
    }
}

/// The parent of `path`, from `Path::parent`; stated through the name `path_parent`.
#[verifier::external_body]
pub fn parent(path: &str) -> (r: Option<String>)
    ensures
        r.deep_view() == path_parent(path@),
{
    std::path::Path::new(path).parent().map(|p| p.to_string_lossy().into_owned())
}


proof fn lemma_file_name_of_plain_suffix(x: Seq<char>, n: Seq<char>, k: int)
    requires
        is_plain_name(n),
        x.len() == 0 || x.last() == '/',
        0 <= k <= n.len(),
    ensures
        file_name_from(x + n.take(k), n.skip(k)) == Some(n),
    decreases k,
{
    if k == 0 {
        assert(x + n.take(0) =~= x);
        assert(n.skip(0) =~= n);
    } else {
        let p = x + n.take(k);
        assert(p.last() == n[k - 1]);
        assert(p.drop_last() =~= x + n.take(k - 1));
        assert(seq![n[k - 1]] + n.skip(k) =~= n.skip(k - 1));
        lemma_file_name_of_plain_suffix(x, n, k - 1);
    }
}

proof fn lemma_file_name_from_plain(p: Seq<char>, seg: Seq<char>)
    requires
        forall|i: int| 0 <= i < seg.len() ==> seg[i] != '/',
    ensures
        file_name_from(p, seg) matches Some(name) ==> is_plain_name(name),
    decreases p.len(),
{
    if p.len() == 0 || p.last() == '/' {
        if seg.len() == 0 || seg == seq!['.'] {
            if p.len() > 0 {
                lemma_file_name_from_plain(p.drop_last(), Seq::empty());
            }
        }
    } else {
        let next = seq![p.last()] + seg;
        assert forall|i: int| 0 <= i < next.len() implies next[i] != '/' by {
            if i > 0 {
                assert(next[i] == seg[i - 1]);
            }
        }
        lemma_file_name_from_plain(p.drop_last(), next);
    }
}

/// The final component of any path, when there is one, is a single ordinary component.
pub proof fn lemma_file_name_is_plain(p: Seq<char>)
    ensures
        file_name_of(p) matches Some(name) ==> is_plain_name(name),
{
    lemma_file_name_from_plain(p, Seq::empty());
}

/// The final component of a path joined from a base and a plain name is that name.
pub proof fn lemma_file_name_of_join(base: Seq<char>, name: Seq<char>)
    requires
        is_plain_name(name),
    ensures
        file_name_of(path_join(base, name)) == Some(name),
{
    let x = if base.len() > 0 && base.last() != '/' {
        base + seq!['/']
    } else {
        base
    };
    assert(path_join(base, name) =~= x + name);
    lemma_file_name_of_plain_suffix(x, name, name.len() as int);
    assert(x + name.take(name.len() as int) =~= x + name);
    assert(name.skip(name.len() as int) =~= Seq::<char>::empty());
}

/// The directory name the application keeps its files under.
pub open spec fn app_dir_name() -> Seq<char> {
    "openwhatsapp"@
}

/// Why an application directory could not be located.
#[derive(Clone, Copy, Debug, PartialEq, Eq)]
pub enum PathError {
    /// The XDG config directory is unknown.
    NoConfigDir,
    /// The XDG data directory is unknown.
    NoDataDir,
    /// The XDG downloads directory is unknown.
    NoDownloadDir,
}

/// `dirs::config_dir`: `$XDG_CONFIG_HOME` when absolute, else `$HOME/.config`. Stated: a
/// directory it finds is a non-empty path. Which one it finds depends on the environment.
#[verifier::external_body]
fn xdg_config_dir() -> (r: Option<String>)
    ensures
        r matches Some(d) ==> d@.len() > 0,
{
    dirs::config_dir().map(|p| p.to_string_lossy().into_owned())
}

/// `dirs::data_dir`: `$XDG_DATA_HOME` when absolute, else `$HOME/.local/share`. Stated: a
/// directory it finds is a non-empty path. Which one it finds depends on the environment.
#[verifier::external_body]
fn xdg_data_dir() -> (r: Option<String>)
    ensures
        r matches Some(d) ==> d@.len() > 0,
{
    dirs::data_dir().map(|p| p.to_string_lossy().into_owned())
}

/// `dirs::runtime_dir`: `$XDG_RUNTIME_DIR` when it is absolute. Stated: a directory it finds
/// is an absolute path. Whether it finds one depends on the environment.
#[verifier::external_body]
pub(crate) fn xdg_runtime_dir() -> (r: Option<String>)
    ensures
        r matches Some(d) ==> d@.len() > 0 && d@[0] == '/',
{
    dirs::runtime_dir().map(|p| p.to_string_lossy().into_owned())
}

/// `dirs::download_dir`: the user's `XDG_DOWNLOAD_DIR`. Nothing is stated of the value: it
/// comes from the environment and the user's configuration.
#[verifier::external_body]
pub fn xdg_download_dir() -> (r: Option<String>) {
    dirs::download_dir().map(|p| p.to_string_lossy().into_owned())
}

/// The application directory below `base`.
pub fn app_dir_in(base: &str) -> (r: String)
    ensures
        r@ == path_join(base@, app_dir_name()),
{
    join_path(base, "openwhatsapp")
}

/// The OpenWhatsapp config directory, given the XDG config directory `xdg_config` that was
/// found, if any: the application directory below it, `NoConfigDir` when there is none.
pub fn config_dir_in(xdg_config: Option<String>) -> (r: Result<String, PathError>)
    ensures
        match xdg_config {
            Some(b) => r matches Ok(d) && d@ == path_join(b@, app_dir_name()),
            None => r == Err::<String, PathError>(PathError::NoConfigDir),
        },
{
    match xdg_config {
        Some(base) => Ok(app_dir_in(&base)),
        None => Err(PathError::NoConfigDir),
    }
}

/// The OpenWhatsapp data directory, given the XDG data directory `xdg_data` that was found,
/// if any: the application directory below it, `NoDataDir` when there is none.
pub fn data_dir_in(xdg_data: Option<String>) -> (r: Result<String, PathError>)
    ensures
        match xdg_data {
            Some(b) => r matches Ok(d) && d@ == path_join(b@, app_dir_name()),
            None => r == Err::<String, PathError>(PathError::NoDataDir),
        },
{
    match xdg_data {
        Some(base) => Ok(app_dir_in(&base)),
        None => Err(PathError::NoDataDir),
    }
}

/// The OpenWhatsapp config directory: the application directory below the XDG config
/// directory, `NoConfigDir` when the environment names none.
pub fn config_dir() -> (r: Result<String, PathError>)
    ensures
        r matches Ok(d) ==> exists|b: Seq<char>| b.len() > 0 && d@ == path_join(b, app_dir_name()),
        r matches Err(e) ==> e == PathError::NoConfigDir,
{
    let found = xdg_config_dir();
    let ghost g = found;
    let r = config_dir_in(found);
    proof {
        if let Some(b) = g {
            assert(b@.len() > 0);
        }
    }
    r
}

/// The OpenWhatsapp data directory: the application directory below the XDG data
/// directory, `NoDataDir` when the environment names none.
pub fn data_dir() -> (r: Result<String, PathError>)
    ensures
        r matches Ok(d) ==> exists|b: Seq<char>| b.len() > 0 && d@ == path_join(b, app_dir_name()),
        r matches Err(e) ==> e == PathError::NoDataDir,
{
    let found = xdg_data_dir();
    let ghost g = found;
    let r = data_dir_in(found);
    proof {
        if let Some(b) = g {
            assert(b@.len() > 0);
        }
    }
    r
}

/// The config file in the OpenWhatsapp config directory `config`: `config.toml`.
pub fn config_file_in(config: &str) -> (r: String)
    ensures
        r@ == path_join(config@, "config.toml"@),
        file_name_of(r@) == Some("config.toml"@),
{
    let file = join_path(config, "config.toml");
    proof {
        reveal_strlit("config.toml");
        lemma_file_name_of_join(config@, "config.toml"@);
    }
    file
}

/// The SQLite database in the OpenWhatsapp data directory `data`: `openwhatsapp.sqlite3`.
pub fn database_file_in(data: &str) -> (r: String)
    ensures
        r@ == path_join(data@, "openwhatsapp.sqlite3"@),
        file_name_of(r@) == Some("openwhatsapp.sqlite3"@),
{
    let file = join_path(data, "openwhatsapp.sqlite3");
    proof {
        reveal_strlit("openwhatsapp.sqlite3");
        lemma_file_name_of_join(data@, "openwhatsapp.sqlite3"@);
    }
    file
}

/// The OpenWhatsapp config file: `config.toml` in the config directory.
pub fn config_file() -> (r: Result<String, PathError>)
    ensures
        r matches Ok(f) ==> exists|b: Seq<char>| b.len() > 0 && f@ == path_join(
            path_join(b, app_dir_name()),
            "config.toml"@,
        ),
        r matches Ok(f) ==> file_name_of(f@) == Some("config.toml"@),
        r matches Err(e) ==> e == PathError::NoConfigDir,
{
    let dir = config_dir()?;
    Ok(config_file_in(&dir))
}

/// The OpenWhatsapp SQLite database: `openwhatsapp.sqlite3` in the data directory.
pub fn database_file() -> (r: Result<String, PathError>)
    ensures
        r matches Ok(f) ==> exists|b: Seq<char>| b.len() > 0 && f@ == path_join(
            path_join(b, app_dir_name()),
            "openwhatsapp.sqlite3"@,
        ),
        r matches Ok(f) ==> file_name_of(f@) == Some("openwhatsapp.sqlite3"@),
        r matches Err(e) ==> e == PathError::NoDataDir,
{
    let dir = data_dir()?;
    Ok(database_file_in(&dir))
}

/// Whether `dir` is an OpenWhatsapp runtime directory: the application directory below an
/// absolute `$XDG_RUNTIME_DIR`, or below the system temporary directory `temp_dir`.
pub open spec fn is_runtime_dir(dir: Seq<char>, temp_dir: Seq<char>) -> bool {
    ||| exists|b: Seq<char>| b.len() > 0 && b[0] == '/' && dir == path_join(b, app_dir_name())
    ||| dir == path_join(temp_dir, app_dir_name())
}

/// The runtime directory given the XDG runtime directory `xdg_runtime` that was found, if
/// any, and the system temporary directory `temp_dir`: the application directory below the
/// first, or below the second when there is none.
pub open spec fn runtime_path(xdg_runtime: Option<String>, temp_dir: Seq<char>) -> Seq<char> {
    match xdg_runtime {
        Some(b) => path_join(b@, app_dir_name()),
        None => path_join(temp_dir, app_dir_name()),
    }
}

/// The OpenWhatsapp runtime directory, given the XDG runtime directory that was found, if
/// any, and the system temporary directory `temp_dir`.
pub fn runtime_dir_in(xdg_runtime: Option<String>, temp_dir: &str) -> (r: String)
    ensures
        r@ == runtime_path(xdg_runtime, temp_dir@),
        file_name_of(r@) == Some(app_dir_name()),
{
    proof {
        reveal_strlit("openwhatsapp");
        assert(app_dir_name().len() == 12);
        assert(is_plain_name(app_dir_name()));
    }
    match xdg_runtime {
        Some(base) => {
            let d = app_dir_in(&base);
            proof {
                lemma_file_name_of_join(base@, app_dir_name());
            }
            d
        },
        None => {
            let d = app_dir_in(temp_dir);
            proof {
                lemma_file_name_of_join(temp_dir@, app_dir_name());
            }
            d
        },
    }
}

/// The OpenWhatsapp runtime directory: below `$XDG_RUNTIME_DIR`, or below `temp_dir` (the
/// system temporary directory) when there is none.
pub fn runtime_dir(temp_dir: &str) -> (r: String)
    ensures
        is_runtime_dir(r@, temp_dir@),
        file_name_of(r@) == Some(app_dir_name()),
{
    let found = xdg_runtime_dir();
    let ghost g = found;
    let r = runtime_dir_in(found, temp_dir);
    proof {
        if let Some(b) = g {
            assert(b@.len() > 0 && b@[0] == '/' && r@ == path_join(b@, app_dir_name()));
        }
    }
    r
}

/// The temporary download directory given the XDG runtime directory that was found, if
/// any, and the system temporary directory `temp_dir`: `tmp` in the runtime directory.
pub fn temp_download_dir_in(xdg_runtime: Option<String>, temp_dir: &str) -> (r: String)
    ensures
        r@ == path_join(runtime_path(xdg_runtime, temp_dir@), "tmp"@),
        file_name_of(r@) == Some("tmp"@),
{
    let runtime = runtime_dir_in(xdg_runtime, temp_dir);
    let dir = join_path(&runtime, "tmp");
    proof {
        reveal_strlit("tmp");
        lemma_file_name_of_join(runtime@, "tmp"@);
    }
    dir
}

/// The temporary download directory: `tmp` in the runtime directory.
pub fn temp_download_dir(temp_dir: &str) -> (r: String)
    ensures
        exists|d: Seq<char>| is_runtime_dir(d, temp_dir@) && r@ == path_join(d, "tmp"@),
        file_name_of(r@) == Some("tmp"@),
{
    let found = xdg_runtime_dir();
    let ghost g = found;
    let r = temp_download_dir_in(found, temp_dir);
    proof {
        let d = runtime_path(g, temp_dir@);
        if let Some(b) = g {
            assert(b@.len() > 0 && b@[0] == '/' && d == path_join(b@, app_dir_name()));
        }
        assert(is_runtime_dir(d, temp_dir@));
    }
    r
}

/// The directory `leaf` of an account's WebKit storage: `web/<account id>/<leaf>` below
/// the data directory `data`.
pub open spec fn account_web_path(data: Seq<char>, account_id: u128, leaf: Seq<char>) -> Seq<char> {
    path_join(path_join(path_join(data, "web"@), uuid_text(account_id)), leaf)
}

proof fn lemma_uuid_text_shape(id: u128)
    ensures
        uuid_text(id).len() == 36,
        forall|i: int| 0 <= i < 36 ==> (#[trigger] uuid_text(id)[i]) != '/',
{
    let h = crate::ids::hex_digits(id as nat, 32);
    crate::ids::lemma_hex_digits_len(id as nat, 32);
    crate::ids::lemma_hex_digits_chars(id as nat, 32);
    let t = uuid_text(id);
    assert(t.len() == 36);
    assert forall|i: int| 0 <= i < 36 implies (#[trigger] t[i]) != '/' by {
        if i == 8 || i == 13 || i == 18 || i == 23 {
            assert(t[i] == '-');
        } else {
            let j = if i < 8 {
                i
            } else if i < 13 {
                i - 1
            } else if i < 18 {
                i - 2
            } else if i < 23 {
                i - 3
            } else {
                i - 4
            };
            assert(t[i] == h[j]);
        }
    }
}

proof fn lemma_account_web_path_shape(data: Seq<char>, id: u128, leaf: Seq<char>)
    requires
        leaf.len() > 0,
        leaf[0] != '/',
    ensures
        account_web_path(data, id, leaf) == path_join(data, "web"@) + seq!['/'] + uuid_text(id)
            + seq!['/'] + leaf,
        path_join(data, "web"@).len() > 0,
{
    reveal_strlit("web");
    lemma_uuid_text_shape(id);
    let w = path_join(data, "web"@);
    let u = uuid_text(id);
    assert(w.last() == 'b');
    assert(u[0] != '/');
    assert(path_join(w, u) == w + seq!['/'] + u);
    assert((w + seq!['/'] + u).last() == u[35]);
}

/// An account's WebKit data directory is never another's (or its own) cache directory.
pub proof fn lemma_account_web_data_not_cache(data: Seq<char>, a: u128, b: u128)
    ensures
        account_web_path(data, a, "data"@) != account_web_path(data, b, "cache"@),
{
    reveal_strlit("data");
    reveal_strlit("cache");
    assert("data"@[0] != '/');
    assert("cache"@[0] != '/');
    lemma_account_web_path_shape(data, a, "data"@);
    lemma_account_web_path_shape(data, b, "cache"@);
    lemma_uuid_text_shape(a);
    lemma_uuid_text_shape(b);
    let w = path_join(data, "web"@);
    assert(account_web_path(data, a, "data"@).len() == w.len() + 42);
    assert(account_web_path(data, b, "cache"@).len() == w.len() + 43);
}

/// The WebKit data directory of an account below the data directory `data`:
/// `web/<account id>/data`.
pub fn account_web_data_dir_in(data: &str, account_id: u128) -> (r: String)
    ensures
        r@ == account_web_path(data@, account_id, "data"@),
{
    let web = join_path(data, "web");
    let account = join_path(&web, &id_text(account_id));
    join_path(&account, "data")
}

/// The WebKit cache directory of an account below the data directory `data`:
/// `web/<account id>/cache`.
pub fn account_web_cache_dir_in(data: &str, account_id: u128) -> (r: String)
    ensures
        r@ == account_web_path(data@, account_id, "cache"@),
{
    let web = join_path(data, "web");
    let account = join_path(&web, &id_text(account_id));
    join_path(&account, "cache")
}

/// Accounts are isolated: below the same data directory, different accounts get different
/// WebKit data and cache directories.
pub proof fn lemma_account_web_paths_distinct(data: Seq<char>, a: u128, b: u128)
    requires
        a != b,
    ensures
        account_web_path(data, a, "data"@) != account_web_path(data, b, "data"@),
        account_web_path(data, a, "cache"@) != account_web_path(data, b, "cache"@),
{
    lemma_account_web_data_not_cache(data, a, b);
    reveal_strlit("data");
    reveal_strlit("cache");
    lemma_uuid_text_shape(a);
    lemma_uuid_text_shape(b);
    let w = path_join(data, "web"@);
    if uuid_text(a) == uuid_text(b) {
        crate::ids::lemma_uuid_text_injective(a, b);
    }
    let k: int = (w.len() + 1) as int;
    assert forall|leaf: Seq<char>| leaf.len() > 0 && leaf[0] != '/' && account_web_path(data, a, leaf)
        == account_web_path(data, b, leaf) implies uuid_text(a) == uuid_text(b) by {
        lemma_account_web_path_shape(data, a, leaf);
        lemma_account_web_path_shape(data, b, leaf);
        let pa = account_web_path(data, a, leaf);
        let pb = account_web_path(data, b, leaf);
        assert(pa.subrange(k, k + 36) =~= uuid_text(a));
        assert(pb.subrange(k, k + 36) =~= uuid_text(b));
    }
    assert("data"@[0] != '/');
    assert("cache"@[0] != '/');
}

/// The per-account WebKit data directory: `web/<account id>/data` in the data directory.
pub fn account_web_data_dir(account_id: u128) -> (r: Result<String, PathError>)
    ensures
        r matches Ok(f) ==> exists|b: Seq<char>| b.len() > 0 && f@ == account_web_path(
            path_join(b, app_dir_name()),
            account_id,
            "data"@,
        ),
        r matches Err(e) ==> e == PathError::NoDataDir,
{
    let dir = data_dir()?;
    let f = account_web_data_dir_in(&dir, account_id);
    Ok(f)
}

/// The per-account WebKit cache directory: `web/<account id>/cache` in the data directory.
pub fn account_web_cache_dir(account_id: u128) -> (r: Result<String, PathError>)
    ensures
        r matches Ok(f) ==> exists|b: Seq<char>| b.len() > 0 && f@ == account_web_path(
            path_join(b, app_dir_name()),
            account_id,
            "cache"@,
        ),
        r matches Err(e) ==> e == PathError::NoDataDir,
{
    let dir = data_dir()?;
    let f = account_web_cache_dir_in(&dir, account_id);
    Ok(f)
}

/// A global customization directory below the OpenWhatsapp data directory `data`:
/// `customizations/global/<leaf>`.
pub open spec fn global_custom_path(data: Seq<char>, leaf: Seq<char>) -> Seq<char> {
    path_join(path_join(path_join(data, "customizations"@), "global"@), leaf)
}

/// An account's customization directory below the OpenWhatsapp data directory `data`:
/// `customizations/accounts/<account id>/<leaf>`.
pub open spec fn account_custom_path(data: Seq<char>, account_id: u128, leaf: Seq<char>) -> Seq<
    char,
> {
    path_join(
        path_join(path_join(path_join(data, "customizations"@), "accounts"@), uuid_text(account_id)),
        leaf,
    )
}

/// The global customization CSS directory below the data directory `data`.
pub fn global_css_dir_in(data: &str) -> (r: String)
    ensures
        r@ == global_custom_path(data@, "css"@),
{
    let c = join_path(data, "customizations");
    let g = join_path(&c, "global");
    join_path(&g, "css")
}

/// The global customization JS directory below the data directory `data`.
pub fn global_js_dir_in(data: &str) -> (r: String)
    ensures
        r@ == global_custom_path(data@, "js"@),
{
    let c = join_path(data, "customizations");
    let g = join_path(&c, "global");
    join_path(&g, "js")
}

/// An account's customization CSS directory below the data directory `data`.
pub fn account_css_dir_in(data: &str, account_id: u128) -> (r: String)
    ensures
        r@ == account_custom_path(data@, account_id, "css"@),
{
    let c = join_path(data, "customizations");
    let a = join_path(&c, "accounts");
    let id = join_path(&a, &id_text(account_id));
    join_path(&id, "css")
}

/// An account's customization JS directory below the data directory `data`.
pub fn account_js_dir_in(data: &str, account_id: u128) -> (r: String)
    ensures
        r@ == account_custom_path(data@, account_id, "js"@),
{
    let c = join_path(data, "customizations");
    let a = join_path(&c, "accounts");
    let id = join_path(&a, &id_text(account_id));
    join_path(&id, "js")
}

/// The reserved customization extensions directory below the data directory `data`.
pub fn extensions_dir_in(data: &str) -> (r: String)
    ensures
        r@ == path_join(path_join(data@, "customizations"@), "extensions"@),
{
    let c = join_path(data, "customizations");
    join_path(&c, "extensions")
}

/// The global customization CSS directory: `customizations/global/css` in the data directory.
pub fn global_css_dir() -> (r: Result<String, PathError>)
    ensures
        r matches Ok(f) ==> exists|b: Seq<char>| b.len() > 0 && f@ == global_custom_path(
            path_join(b, app_dir_name()),
            "css"@,
        ),
        r matches Err(e) ==> e == PathError::NoDataDir,
{
    let dir = data_dir()?;
    Ok(global_css_dir_in(&dir))
}

/// The global customization JS directory: `customizations/global/js` in the data directory.
pub fn global_js_dir() -> (r: Result<String, PathError>)
    ensures
        r matches Ok(f) ==> exists|b: Seq<char>| b.len() > 0 && f@ == global_custom_path(
            path_join(b, app_dir_name()),
            "js"@,
        ),
        r matches Err(e) ==> e == PathError::NoDataDir,
{
    let dir = data_dir()?;
    Ok(global_js_dir_in(&dir))
}

/// An account's customization CSS directory: `customizations/accounts/<id>/css`.
pub fn account_css_dir(account_id: u128) -> (r: Result<String, PathError>)
    ensures
        r matches Ok(f) ==> exists|b: Seq<char>| b.len() > 0 && f@ == account_custom_path(
            path_join(b, app_dir_name()),
            account_id,
            "css"@,
        ),
        r matches Err(e) ==> e == PathError::NoDataDir,
{
    let dir = data_dir()?;
    Ok(account_css_dir_in(&dir, account_id))
}

/// An account's customization JS directory: `customizations/accounts/<id>/js`.
pub fn account_js_dir(account_id: u128) -> (r: Result<String, PathError>)
    ensures
        r matches Ok(f) ==> exists|b: Seq<char>| b.len() > 0 && f@ == account_custom_path(
            path_join(b, app_dir_name()),
            account_id,
            "js"@,
        ),
        r matches Err(e) ==> e == PathError::NoDataDir,
{
    let dir = data_dir()?;
    Ok(account_js_dir_in(&dir, account_id))
}

/// The reserved customization extensions directory: `customizations/extensions`.
pub fn extensions_dir() -> (r: Result<String, PathError>)
    ensures
        r matches Ok(f) ==> exists|b: Seq<char>| b.len() > 0 && f@ == path_join(
            path_join(path_join(b, app_dir_name()), "customizations"@),
            "extensions"@,
        ),
        r matches Err(e) ==> e == PathError::NoDataDir,
{
    let dir = data_dir()?;
    Ok(extensions_dir_in(&dir))
}

} // verus!
