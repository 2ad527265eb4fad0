//! Download routing: where a download goes, how its file is named, and the temporary
//! download folder's lifecycle.

use vstd::prelude::*;

use crate::accounts::Account;
use crate::config::DownloadConfig;
use crate::paths::{
    app_dir_name, extension, extension_of, file_name, file_name_of, file_stem, file_stem_of,
    is_plain_name, is_runtime_dir, join_path, lemma_file_name_is_plain, lemma_file_name_of_join, path_join,
    runtime_path, temp_download_dir_in, xdg_download_dir, xdg_runtime_dir, PathError,
};
use crate::spellcheck::strs;
use crate::text::{chars_of, decimal, push_decimal, same_chars, string_of, trim, trim_chars};

verus! {

/// The download directory chosen from the account's custom folder, the configured folder
/// and the user's XDG downloads folder, in that order of preference.
pub open spec fn download_dir_choice(
    account_dir: Option<Seq<char>>,
    config_dir: Option<Seq<char>>,
    xdg_dir: Option<Seq<char>>,
) -> Option<Seq<char>> {
    match account_dir {
        Some(d) => Some(d),
        None => match config_dir {
            Some(d) => Some(d),
            None => xdg_dir,
        },
    }
}

fn copy_string(s: &String) -> (r: String)
    ensures
        r@ == s@,
{
    string_of(&chars_of(s.as_str()))
}

/// The download directory for an account, given the XDG downloads folder (`None` when it
/// is unknown).
pub fn choose_download_dir(config: &DownloadConfig, account: &Account, xdg_dir: Option<String>) -> (r:
    Result<String, PathError>)
    ensures
        match download_dir_choice(
            account.custom_download_dir.deep_view(),
            config.directory.deep_view(),
            xdg_dir.deep_view(),
        ) {
            Some(d) => r matches Ok(p) && p@ == d,
            None => r == Err::<String, PathError>(PathError::NoDownloadDir),
        },
{
    if let Some(directory) = &account.custom_download_dir {
        return Ok(copy_string(directory));
    }
    if let Some(directory) = &config.directory {
        return Ok(copy_string(directory));
    }
    match xdg_dir {
        Some(d) => Ok(d),
        None => Err(PathError::NoDownloadDir),
    }
}

/// The download directory for an account: its custom folder, else the configured folder,
/// else the user's XDG downloads folder.
pub fn resolve_download_dir(config: &DownloadConfig, account: &Account) -> (r: Result<
    String,
    PathError,
>)
    ensures
        account.custom_download_dir matches Some(d) ==> (r matches Ok(p) && p@ == d@),
        account.custom_download_dir is None ==> (config.directory matches Some(d) ==> (r matches Ok(
            p,
        ) && p@ == d@)),
        r matches Err(e) ==> e == PathError::NoDownloadDir && account.custom_download_dir is None
            && config.directory is None,
{
    if account.custom_download_dir.is_none() && config.directory.is_none() {
        choose_download_dir(config, account, xdg_download_dir())
    } else {
        choose_download_dir(config, account, None)
    }
}

/// The file name a download is saved under: the final component of the suggested name,
/// or `download` when there is none or it is blank.
pub open spec fn safe_name(suggested: Seq<char>) -> Seq<char> {
    let name = match file_name_of(suggested) {
        Some(n) => n,
        None => "download"@,
    };
    if trim(name).len() == 0 {
        "download"@
    } else {
        name
    }
}

/// A safe file name for a suggested download name: parent components are dropped.
pub fn safe_filename(suggested_filename: &str) -> (r: String)
    ensures
        r@ == safe_name(suggested_filename@),
{
    let name = match file_name(suggested_filename) {
        Some(n) => n,
        None => "download".to_string(),
    };
    let t = trim_chars(&chars_of(name.as_str()));
    if t.len() == 0 {
        "download".to_string()
    } else {
        name
    }
}

/// A download's safe file name is a single ordinary path component, so the file lands
/// directly inside the folder it is saved to, whatever name was suggested.
pub proof fn lemma_safe_name_stays_in_folder(directory: Seq<char>, suggested: Seq<char>)
    ensures
        is_plain_name(safe_name(suggested)),
        file_name_of(path_join(directory, safe_name(suggested))) == Some(safe_name(suggested)),
{
    reveal_strlit("download");
    lemma_file_name_is_plain(suggested);
    assert(is_plain_name("download"@)) by {
        assert("download"@.len() == 8);
    }
    lemma_file_name_of_join(directory, safe_name(suggested));
}

/// The stem used for numbered copies of a file name: its file stem, or `download`.
pub open spec fn copy_stem(filename: Seq<char>) -> Seq<char> {
    match file_stem_of(filename) {
        Some(s) if s.len() > 0 => s,
        _ => "download"@,
    }
}

/// `stem (index).ext`, or `stem (index)` without an extension.
pub open spec fn numbered_name(stem: Seq<char>, ext: Option<Seq<char>>, index: nat) -> Seq<char> {
    stem + " ("@ + decimal(index) + ")"@ + match ext {
        Some(e) => "."@ + e,
        None => Seq::empty(),
    }
}

/// The `index`-th numbered name for `filename`.
pub open spec fn numbered_candidate(filename: Seq<char>, index: nat) -> Seq<char> {
    numbered_name(copy_stem(filename), extension_of(filename), index)
}

/// Number of numbered names tried before falling back to `stem (copy)`.
pub const MAX_NUMBERED_COPIES: usize = 10_000;

/// Whether `name` is the name of an existing entry.
pub open spec fn taken(existing: Seq<Seq<char>>, name: Seq<char>) -> bool {
    existing.contains(name)
}

fn name_taken(existing: &[String], name: &Vec<char>) -> (r: bool)
    ensures
        r == taken(strs(existing@), name@),
{
    let mut k: usize = 0;
    while k < existing.len()
        invariant
            0 <= k <= existing@.len(),
            forall|j: int| 0 <= j < k ==> strs(existing@)[j] != name@,
        decreases existing.len() - k,
    {
        let e = chars_of(existing[k].as_str());
        if same_chars(&e, name) {
            assert(strs(existing@)[k as int] == name@);
            return true;
        }
        k = k + 1;
    }
    false
}

fn push_text(out: &mut Vec<char>, s: &[char])
    ensures
        final(out)@ == old(out)@ + s@,
{
    let ghost start = out@;
    let mut i: usize = 0;
    while i < s.len()
        invariant
            0 <= i <= s@.len(),
            out@ == start + s@.take(i as int),
        decreases s.len() - i,
    {
        out.push(s[i]);
        assert(out@ =~= start + s@.take(i + 1));
        i = i + 1;
    }
    assert(s@.take(s@.len() as int) =~= s@);
}

/// The characters of an optional character vector.
pub open spec fn opt_chars(o: Option<Vec<char>>) -> Option<Seq<char>> {
    match o {
        Some(v) => Some(v@),
        None => None,
    }
}

fn numbered_chars(stem: &Vec<char>, ext: &Option<Vec<char>>, index: u64) -> (r: Vec<char>)
    ensures
        r@ == numbered_name(
            stem@,
            opt_chars(*ext),
            index as nat,
        ),
{
    let mut out: Vec<char> = Vec::new();
    push_text(&mut out, stem);
    push_text(&mut out, &chars_of(" ("));
    push_decimal(index, &mut out);
    push_text(&mut out, &chars_of(")"));
    match ext {
        Some(e) => {
            push_text(&mut out, &chars_of("."));
            push_text(&mut out, e);
        },
        None => {},
    }
    assert(out@ =~= numbered_name(stem@, opt_chars(*ext), index as nat));
    out
}

/// Whether `r` is where a file named `filename` is saved in `directory`, whose entries are
/// named `existing`: the name itself when it is free; else the first free numbered name
/// `stem (n).ext` for `n` from 1 to 9999; else `stem (copy)`.
pub open spec fn is_unique_destination(
    directory: Seq<char>,
    filename: Seq<char>,
    existing: Seq<Seq<char>>,
    r: Seq<char>,
) -> bool {
    &&& !taken(existing, filename) ==> r == path_join(directory, filename)
    &&& taken(existing, filename) ==> {
        ||| exists|i: int|
            1 <= i < MAX_NUMBERED_COPIES && r == path_join(
                directory,
                numbered_candidate(filename, i as nat),
            ) && !taken(existing, #[trigger] numbered_candidate(filename, i as nat)) && forall|
                j: int,
            | 1 <= j < i ==> taken(existing, #[trigger] numbered_candidate(filename, j as nat))
        ||| (r == path_join(directory, copy_stem(filename) + " (copy)"@) && forall|j: int|
            1 <= j < MAX_NUMBERED_COPIES ==> taken(
                existing,
                #[trigger] numbered_candidate(filename, j as nat),
            ))
    }
}

/// Where a file named `filename` is saved in `directory`, whose entries are named
/// `existing`.
pub fn unique_destination(directory: &str, filename: &str, existing: &[String]) -> (r: String)
    ensures
        is_unique_destination(directory@, filename@, strs(existing@), r@),
{
    let name = chars_of(filename);
    if !name_taken(existing, &name) {
        return join_path(directory, filename);
    }
    let stem = match file_stem(filename) {
        Some(s) => {
            let c = chars_of(s.as_str());
            if c.len() == 0 {
                chars_of("download")
            } else {
                c
            }
        },
        None => chars_of("download"),
    };
    proof {
        reveal_strlit("download");
    }
    assert(stem@ == copy_stem(filename@));
    let ext = match extension(filename) {
        Some(e) => Some(chars_of(e.as_str())),
        None => None,
    };
    let ghost ext_view = opt_chars(ext);
    assert(ext_view == extension_of(filename@));
    let mut index: usize = 1;
    while index < MAX_NUMBERED_COPIES
        invariant
            1 <= index <= MAX_NUMBERED_COPIES,
            taken(strs(existing@), filename@),
            stem@ == copy_stem(filename@),
            ext_view == extension_of(filename@),
            ext_view == opt_chars(ext),
            forall|j: int|
                1 <= j < index ==> taken(strs(existing@), #[trigger] numbered_candidate(filename@, j as nat)),
        decreases MAX_NUMBERED_COPIES - index,
    {
        let candidate = numbered_chars(&stem, &ext, index as u64);
        if !name_taken(existing, &candidate) {
            let c = string_of(&candidate);
            assert(c@ == numbered_candidate(filename@, index as nat));
            let r = join_path(directory, c.as_str());
            assert(!taken(strs(existing@), numbered_candidate(filename@, index as nat)));
            assert(1 <= index < MAX_NUMBERED_COPIES && r@ == path_join(
                directory@,
                numbered_candidate(filename@, index as nat),
            ));
            proof {
                let i = index as int;
                assert(numbered_candidate(filename@, i as nat) == numbered_candidate(
                    filename@,
                    index as nat,
                ));
                assert(forall|j: int|
                    1 <= j < i ==> taken(
                        strs(existing@),
                        #[trigger] numbered_candidate(filename@, j as nat),
                    ));
            }
            return r;
        }
        index = index + 1;
    }
    let mut copy = stem.clone();
    assert(copy@ =~= stem@);
    push_text(&mut copy, &chars_of(" (copy)"));
    let c = string_of(&copy);
    join_path(directory, c.as_str())
}

/// Where a download with a suggested file name is saved in `directory`, whose entries are
/// named `existing`: under its safe file name, numbered when that is taken.
pub fn destination_in(directory: &str, suggested_filename: &str, existing: &[String]) -> (r: String)
    ensures
        is_unique_destination(directory@, safe_name(suggested_filename@), strs(existing@), r@),
{
    let name = safe_filename(suggested_filename);
    unique_destination(directory, name.as_str(), existing)
}

/// The directories the temporary download folder may live in, given the preferred one
/// and the fallback below the system temporary directory: both, or one when they agree.
pub fn temp_candidates_from(primary: String, fallback: String) -> (r: Vec<String>)
    ensures
        primary@ == fallback@ ==> strs(r@) == seq![primary@],
        primary@ != fallback@ ==> strs(r@) == seq![primary@, fallback@],
{
    let same = same_chars(&chars_of(primary.as_str()), &chars_of(fallback.as_str()));
    let mut v: Vec<String> = Vec::new();
    let ghost p = primary@;
    let ghost f = fallback@;
    v.push(primary);
    if !same {
        v.push(fallback);
    }
    assert(strs(v@) =~= if same {
        seq![p]
    } else {
        seq![p, f]
    });
    v
}

/// The candidate temporary download folders, given the XDG runtime directory that was
/// found, if any, and the system temporary directory `temp_dir`: `tmp` in the runtime
/// directory, then `openwhatsapp/tmp` in `temp_dir` when it differs.
pub fn temp_candidates_in(xdg_runtime: Option<String>, temp_dir: &str) -> (r: Vec<String>)
    ensures
        ({
            let primary = path_join(runtime_path(xdg_runtime, temp_dir@), "tmp"@);
            let fallback = path_join(path_join(temp_dir@, app_dir_name()), "tmp"@);
            strs(r@) == if primary == fallback {
                seq![primary]
            } else {
                seq![primary, fallback]
            }
        }),
{
    let primary = temp_download_dir_in(xdg_runtime, temp_dir);
    let base = join_path(temp_dir, "openwhatsapp");
    let fallback = join_path(&base, "tmp");
    temp_candidates_from(primary, fallback)
}

/// The candidate temporary download folders: `tmp` in the runtime directory, then
/// `openwhatsapp/tmp` in the system temporary directory `temp_dir` when it differs.
pub fn temp_candidates(temp_dir: &str) -> (r: Vec<String>)
    ensures
        1 <= r@.len() <= 2,
        exists|d: Seq<char>| is_runtime_dir(d, temp_dir@) && r@[0]@ == path_join(d, "tmp"@),
        r@.last()@ == path_join(path_join(temp_dir@, app_dir_name()), "tmp"@),
        r@.len() == 2 ==> r@[0]@ != r@[1]@,
        file_name_of(r@[0]@) == Some("tmp"@),
{
    let found = xdg_runtime_dir();
    let ghost g = found;
    let v = temp_candidates_in(found, temp_dir);
    proof {
        reveal_strlit("tmp");
        let d = runtime_path(g, temp_dir@);
        if let Some(b) = g {
            assert(b@.len() > 0 && b@[0] == '/' && d == path_join(b@, app_dir_name()));
        }
        assert(is_runtime_dir(d, temp_dir@));
        lemma_file_name_of_join(d, "tmp"@);
    }
    assert(strs(v@).len() == v@.len());
    assert(strs(v@)[0] == v@[0]@);
    assert(strs(v@).last() == v@.last()@);
    v
}

/// What to do next while preparing the temporary download folder.
#[derive(Clone, Debug, PartialEq, Eq)]
pub enum PrepareStep {
    /// Create this directory (with its parents) and report whether that worked.
    Create(String),
    /// The folder is ready at this directory.
    Ready(String),
    /// Every candidate failed; the last failure was creating this directory.
    Failed(String),
    /// There is no candidate directory.
    NoCandidates,
}

/// The next step of preparing the temporary download folder, given the candidate
/// directories and whether creating each of the first `created.len()` of them worked:
/// candidates are tried in order until one can be created.
pub fn prepare_temp_folder(candidates: &[String], created: &[bool]) -> (r: PrepareStep)
    requires
        created@.len() <= candidates@.len(),
    ensures
        (exists|i: int| 0 <= i < created@.len() && created@[i]) ==> (r matches PrepareStep::Ready(
            d,
        ) && exists|i: int|
            0 <= i < created@.len() && created@[i] && d@ == candidates@[i]@ && forall|j: int|
                0 <= j < i ==> !created@[j]),
        (forall|i: int| 0 <= i < created@.len() ==> !created@[i]) ==> {
            if created@.len() < candidates@.len() {
                r matches PrepareStep::Create(d) && d@ == candidates@[created@.len() as int]@
            } else if candidates@.len() == 0 {
                r == PrepareStep::NoCandidates
            } else {
                r matches PrepareStep::Failed(d) && d@ == candidates@.last()@
            }
        },
{
    let mut i: usize = 0;
    while i < created.len()
        invariant
            0 <= i <= created@.len() <= candidates@.len(),
            forall|j: int| 0 <= j < i ==> !created@[j],
        decreases created.len() - i,
    {
        if created[i] {
            return PrepareStep::Ready(copy_string(&candidates[i]));
        }
        i = i + 1;
    }
    if created.len() < candidates.len() {
        PrepareStep::Create(copy_string(&candidates[created.len()]))
    } else if candidates.len() == 0 {
        PrepareStep::NoCandidates
    } else {
        PrepareStep::Failed(copy_string(&candidates[candidates.len() - 1]))
    }
}

/// Where cleaning up the temporary download folder stands at a candidate directory.
#[derive(Clone, Copy, Debug, PartialEq, Eq, Structural)]
pub enum CleanupPhase {
    /// Whether the candidate exists is to be found out.
    Probing,
    /// The candidate exists and is to be removed.
    Removing,
    /// Removing the candidate failed; cleanup stops there.
    Stopped,
}

/// Where cleaning up `count` candidate directories stands after the answers `answers`: the
/// candidate reached, and the phase at it. A probe answers whether the candidate exists;
/// an absent one is skipped. A removal answers whether it worked; the first failure stops
/// the cleanup. Answers after the cleanup is over change nothing.
pub open spec fn cleanup_progress(count: int, answers: Seq<bool>) -> (int, CleanupPhase)
    decreases answers.len(),
{
    if answers.len() == 0 {
        (0, CleanupPhase::Probing)
    } else {
        let (i, phase) = cleanup_progress(count, answers.drop_last());
        let yes = answers.last();
        match phase {
            CleanupPhase::Probing => if i >= count {
                (i, phase)
            } else if yes {
                (i, CleanupPhase::Removing)
            } else {
                (i + 1, CleanupPhase::Probing)
            },
            CleanupPhase::Removing => if yes {
                (i + 1, CleanupPhase::Probing)
            } else {
                (i, CleanupPhase::Stopped)
            },
            CleanupPhase::Stopped => (i, phase),
        }
    }
}

/// The directories left on a disk that held `existing` after a cleanup of `candidates` got
/// the answers `answers`: each removal that worked leaves its candidate absent.
pub open spec fn disk_after_cleanup(
    candidates: Seq<Seq<char>>,
    existing: Set<Seq<char>>,
    answers: Seq<bool>,
) -> Set<Seq<char>>
    decreases answers.len(),
{
    if answers.len() == 0 {
        existing
    } else {
        let before = disk_after_cleanup(candidates, existing, answers.drop_last());
        let (i, phase) = cleanup_progress(candidates.len() as int, answers.drop_last());
        if phase == CleanupPhase::Removing && answers.last() {
            before.remove(candidates[i])
        } else {
            before
        }
    }
}

/// Whether every probe among `answers` told the truth about the disk that held `existing`
/// when the cleanup of `candidates` began.
pub open spec fn truthful_probes(
    candidates: Seq<Seq<char>>,
    existing: Set<Seq<char>>,
    answers: Seq<bool>,
) -> bool
    decreases answers.len(),
{
    if answers.len() == 0 {
        true
    } else {
        let (i, phase) = cleanup_progress(candidates.len() as int, answers.drop_last());
        &&& truthful_probes(candidates, existing, answers.drop_last())
        &&& (phase == CleanupPhase::Probing && i < candidates.len()) ==> answers.last()
            == disk_after_cleanup(candidates, existing, answers.drop_last()).contains(candidates[i])
    }
}

proof fn lemma_cleanup_progress_bounds(count: int, answers: Seq<bool>)
    requires
        0 <= count,
    ensures
        0 <= cleanup_progress(count, answers).0 <= count,
        cleanup_progress(count, answers).1 != CleanupPhase::Probing ==> cleanup_progress(
            count,
            answers,
        ).0 < count,
    decreases answers.len(),
{
    if answers.len() > 0 {
        lemma_cleanup_progress_bounds(count, answers.drop_last());
    }
}

proof fn lemma_cleanup_clears(
    candidates: Seq<Seq<char>>,
    existing: Set<Seq<char>>,
    answers: Seq<bool>,
)
    requires
        truthful_probes(candidates, existing, answers),
    ensures
        forall|j: int|
            0 <= j < cleanup_progress(candidates.len() as int, answers).0 ==> !disk_after_cleanup(
                candidates,
                existing,
                answers,
            ).contains(#[trigger] candidates[j]),
    decreases answers.len(),
{
    if answers.len() > 0 {
        let init = answers.drop_last();
        lemma_cleanup_clears(candidates, existing, init);
        lemma_cleanup_progress_bounds(candidates.len() as int, init);
    }
}

proof fn lemma_cleanup_of_absent(candidates: Seq<Seq<char>>, disk: Set<Seq<char>>, answers: Seq<bool>)
    requires
        forall|j: int| 0 <= j < candidates.len() ==> !disk.contains(#[trigger] candidates[j]),
        truthful_probes(candidates, disk, answers),
    ensures
        cleanup_progress(candidates.len() as int, answers) == (
            if answers.len() <= candidates.len() {
                answers.len() as int
            } else {
                candidates.len() as int
            },
            CleanupPhase::Probing,
        ),
        disk_after_cleanup(candidates, disk, answers) == disk,
    decreases answers.len(),
{
    if answers.len() > 0 {
        lemma_cleanup_of_absent(candidates, disk, answers.drop_last());
    }
}

/// Cleanup is idempotent. A cleanup that is done, with probes that told the truth, leaves
/// none of the candidate directories on disk; run again right after, every probe finds its
/// candidate absent, the run is done once every candidate was probed, and nothing more is
/// removed.
pub proof fn lemma_cleanup_done_twice(
    candidates: Seq<Seq<char>>,
    existing: Set<Seq<char>>,
    first: Seq<bool>,
    second: Seq<bool>,
)
    requires
        truthful_probes(candidates, existing, first),
        cleanup_progress(candidates.len() as int, first) == (
            candidates.len() as int,
            CleanupPhase::Probing,
        ),
        truthful_probes(candidates, disk_after_cleanup(candidates, existing, first), second),
        second.len() >= candidates.len(),
    ensures
        forall|j: int|
            0 <= j < candidates.len() ==> !disk_after_cleanup(candidates, existing, first).contains(
                #[trigger] candidates[j],
            ),
        cleanup_progress(candidates.len() as int, second) == (
            candidates.len() as int,
            CleanupPhase::Probing,
        ),
        disk_after_cleanup(candidates, disk_after_cleanup(candidates, existing, first), second)
            == disk_after_cleanup(candidates, existing, first),
{
    lemma_cleanup_clears(candidates, existing, first);
    lemma_cleanup_of_absent(candidates, disk_after_cleanup(candidates, existing, first), second);
}

/// What to do next while cleaning up the temporary download folder.
#[derive(Clone, Debug, PartialEq, Eq)]
pub enum CleanupStep {
    /// Find out whether this directory exists, and answer that.
    Probe(String),
    /// Remove this directory and everything in it, and answer whether that worked.
    Remove(String),
    /// Removing this directory failed; cleanup stops there.
    Failed(String),
    /// Every candidate is gone.
    Done,
}

/// The next step of cleaning up the temporary download folder, given the candidate
/// directories and the answers so far: each candidate is probed and, when it exists,
/// removed, in order; an absent one is skipped, and the first failed removal stops the
/// cleanup.
pub fn cleanup_temp_folder(candidates: &[String], answers: &[bool]) -> (r: CleanupStep)
    ensures
        ({
            let (i, phase) = cleanup_progress(candidates@.len() as int, answers@);
            match phase {
                CleanupPhase::Probing => if i < candidates@.len() {
                    r matches CleanupStep::Probe(d) && d@ == candidates@[i]@
                } else {
                    r == CleanupStep::Done
                },
                CleanupPhase::Removing => r matches CleanupStep::Remove(d) && d@
                    == candidates@[i]@,
                CleanupPhase::Stopped => r matches CleanupStep::Failed(d) && d@
                    == candidates@[i]@,
            }
        }),
{
    let ghost n = candidates@.len() as int;
    let mut i: usize = 0;
    let mut phase = CleanupPhase::Probing;
    let mut k: usize = 0;
    assert(answers@.take(0) =~= Seq::<bool>::empty());
    while k < answers.len()
        invariant
            0 <= k <= answers@.len(),
            n == candidates@.len(),
            (i as int, phase) == cleanup_progress(n, answers@.take(k as int)),
            i <= n,
            phase != CleanupPhase::Probing ==> i < candidates.len(),
        decreases answers.len() - k,
    {
        assert(answers@.take(k + 1).drop_last() =~= answers@.take(k as int));
        assert(answers@.take(k + 1).last() == answers@[k as int]);
        let yes = answers[k];
        match phase {
            CleanupPhase::Probing => {
                if i < candidates.len() {
                    if yes {
                        phase = CleanupPhase::Removing;
                    } else {
                        i = i + 1;
                    }
                }
            },
            CleanupPhase::Removing => {
                if yes {
                    i = i + 1;
                    phase = CleanupPhase::Probing;
                } else {
                    phase = CleanupPhase::Stopped;
                }
            },
            CleanupPhase::Stopped => {},
        }
        k = k + 1;
    }
    assert(answers@.take(answers@.len() as int) =~= answers@);
    match phase {
        CleanupPhase::Probing => {
            if i < candidates.len() {
                CleanupStep::Probe(copy_string(&candidates[i]))
            } else {
                CleanupStep::Done
            }
        },
        CleanupPhase::Removing => CleanupStep::Remove(copy_string(&candidates[i])),
        CleanupPhase::Stopped => CleanupStep::Failed(copy_string(&candidates[i])),
    }
}

} // verus!
