//! Fetching the speech recognizer and its model: which release asset to take,
//! what to extract from its archive, and where the settings point afterwards.

use vstd::prelude::*;
use crate::config::{plain_name, AppConfig, AsrProfile};
use crate::text::{chars_of, str_eq, string_from_chars, to_owned};

verus! {

/// The release asset that holds the recognizer.
pub const WHISPER_ASSET_NAME: &'static str = "whisper-blas-bin-x64.zip";

/// The recognizer's file name inside the archive, compared without regard to
/// ASCII case.
pub const WHISPER_CLI_NAME: &'static str = "whisper-cli.exe";

/// Where the recognizer and the model were put.
#[derive(Clone, Debug)]
pub struct BootstrapResult {
    pub whisper_sidecar_path: String,
    pub whisper_model_path: String,
}

/// A downloadable file of a release.
#[derive(Clone, Debug)]
pub struct GithubAsset {
    pub name: String,
    pub browser_download_url: String,
}

/// Why fetching the resources failed.
#[derive(Clone, Copy, Debug, PartialEq, Eq, Structural)]
pub enum BootstrapError {
    /// The latest release has no asset with the expected name.
    AssetNotFound,
    /// The archive holds no recognizer executable.
    CliNotInArchive,
    /// The downloaded archive cannot be read as a zip archive.
    UnreadableArchive,
}

/// The first asset named `name`.
pub open spec fn first_asset_named(assets: Seq<GithubAsset>, name: Seq<char>, from: int) -> Option<
    int,
>
    decreases assets.len() - from,
{
    if from < 0 || from >= assets.len() {
        None
    } else if assets[from].name@ == name {
        Some(from)
    } else {
        first_asset_named(assets, name, from + 1)
    }
}

/// The download address of the release's recognizer archive.
pub fn find_whisper_asset(assets: &Vec<GithubAsset>) -> (r: Result<String, BootstrapError>)
    ensures
        match first_asset_named(assets@, WHISPER_ASSET_NAME@, 0) {
            Some(i) => r matches Ok(url) && url@ == assets@[i].browser_download_url@,
            None => r matches Err(BootstrapError::AssetNotFound),
        },
{
    for i in 0..assets.len()
        invariant
            first_asset_named(assets@, WHISPER_ASSET_NAME@, 0) == first_asset_named(
                assets@,
                WHISPER_ASSET_NAME@,
                i as int,
            ),
    {
        if str_eq(assets[i].name.as_str(), WHISPER_ASSET_NAME) {
            return Ok(assets[i].browser_download_url.clone());
        }
    }
    Err(BootstrapError::AssetNotFound)
}

/// ASCII lower case of `c`; other characters are kept.
pub open spec fn ascii_lower(c: char) -> char {
    if 'A' <= c <= 'Z' {
        ((c as u32) + 32) as char
    } else {
        c
    }
}

/// Equality up to ASCII case, as `str::eq_ignore_ascii_case`.
pub open spec fn eq_ignore_ascii_case_spec(a: Seq<char>, b: Seq<char>) -> bool {
    a.len() == b.len() && forall|k: int| 0 <= k < a.len() ==> ascii_lower(#[trigger] a[k]) == ascii_lower(b[k])
}

fn to_ascii_lower(c: char) -> (r: char)
    ensures
        r == ascii_lower(c),
{
    if 'A' <= c && c <= 'Z' {
        ((c as u8) + 32) as char
    } else {
        c
    }
}

/// Whether `a` and `b` are equal up to ASCII case.
pub fn eq_ignore_ascii_case(a: &str, b: &str) -> (r: bool)
    ensures
        r == eq_ignore_ascii_case_spec(a@, b@),
{
    let va = chars_of(a);
    let vb = chars_of(b);
    if va.len() != vb.len() {
        return false;
    }
    for i in 0..va.len()
        invariant
            va@ == a@,
            vb@ == b@,
            va.len() == vb.len(),
            forall|k: int| 0 <= k < i ==> ascii_lower(#[trigger] va@[k]) == ascii_lower(vb@[k]),
    {
        if to_ascii_lower(va[i]) != to_ascii_lower(vb[i]) {
            return false;
        }
    }
    true
}

/// `s` with every backslash turned into a slash.
pub open spec fn slashes(s: Seq<char>) -> Seq<char> {
    s.map_values(|c: char| if c == '\\' { '/' } else { c })
}

/// An archive entry's name with backslashes turned into slashes.
pub fn normalize_entry_name(name: &str) -> (r: String)
    ensures
        r@ == slashes(name@),
{
    let v = chars_of(name);
    let mut out: Vec<char> = Vec::new();
    for i in 0..v.len()
        invariant
            v@ == name@,
            out@ == slashes(v@.take(i as int)),
    {
        let c = v[i];
        out.push(if c == '\\' { '/' } else { c });
        assert(out@ =~= slashes(v@.take(i + 1)));
    }
    assert(v@.take(v.len() as int) =~= v@);
    string_from_chars(&out)
}

/// The text after the last slash of `p` (all of `p` when it has none).
pub open spec fn final_segment(p: Seq<char>) -> Seq<char>
    decreases p.len(),
{
    if p.len() == 0 {
        p
    } else if p.last() == '/' {
        Seq::empty()
    } else {
        final_segment(p.drop_last()).push(p.last())
    }
}

/// `p` with trailing slashes and trailing `.` components taken off, as
/// `Path::components` ignores them.
pub open spec fn trimmed_tail(p: Seq<char>) -> Seq<char>
    decreases p.len(),
{
    if p.len() > 0 && p.last() == '/' {
        trimmed_tail(p.drop_last())
    } else if p.len() >= 2 && p.last() == '.' && p[p.len() - 2] == '/' {
        trimmed_tail(p.drop_last())
    } else {
        p
    }
}

/// The final component of a slash-separated path, as `Path::file_name` gives
/// it: the last component once trailing separators and `.` components are
/// ignored, and nothing when that is `.`, `..` or absent.
pub open spec fn final_component(p: Seq<char>) -> Seq<char> {
    let last = final_segment(trimmed_tail(p));
    if last == seq!['.'] || last == seq!['.', '.'] {
        Seq::empty()
    } else {
        last
    }
}

/// `p` starts like a Windows drive (`C:`), the one prefix a path without
/// backslashes can have.
pub open spec fn drive_prefixed(p: Seq<char>) -> bool {
    p.len() >= 2 && p[1] == ':'
}

/// `Path::file_name` of `path`, as text, empty when there is none.
///
/// Only called on paths without backslashes, so that no Windows verbatim, UNC
/// or device prefix can occur. Claims that the result is empty or a piece of
/// `path` without a slash, and, for a path that does not start like a drive,
/// that it is the final component as `Path::components` reads it: repeated
/// and trailing separators and `.` components after the start are ignored, and
/// a path ending in `..` (or having no component) has no file name. What a
/// drive-prefixed path gives depends on the platform and is left unsaid.
#[verifier::external_body]
fn path_file_name(path: &str) -> (r: String)
    requires
        forall|k: int| 0 <= k < path@.len() ==> #[trigger] path@[k] != '\\',
    ensures
        r@.len() == 0 || (forall|k: int| 0 <= k < r@.len() ==> r@[k] != '/') && exists|i: int|
            0 <= i && i + r@.len() <= path@.len() && #[trigger] path@.subrange(i, i + r@.len())
                == r@,
        !drive_prefixed(path@) ==> r@ == final_component(path@),
{
    std::path::Path::new(path).file_name().and_then(|v| v.to_str()).unwrap_or_default().to_string()
}

/// The file name under which an archive entry is extracted: the final
/// component of its name once backslashes are slashes (nothing for a name that
/// ends in `..`).
pub fn zip_entry_file_name(raw_name: &str) -> (r: String)
    ensures
        file_name_fits(raw_name@, r@),
{
    let name = normalize_entry_name(raw_name);
    assert forall|k: int| 0 <= k < name@.len() implies #[trigger] name@[k] != '\\' by {
        assert(name@[k] == slashes(raw_name@)[k]);
    }
    path_file_name(name.as_str())
}

/// What to do with one archive entry.
#[derive(Clone, Debug)]
pub enum EntryPlan {
    /// A directory: nothing.
    Skip,
    /// The recognizer: write it to its target path.
    CliExecutable,
    /// Another file: write it into the target directory under this name.
    Extract(String),
}

/// Decides what to do with an archive entry of file name `file_name`.
pub fn plan_zip_entry(file_name: &str, is_dir: bool) -> (r: EntryPlan)
    ensures
        is_dir ==> r is Skip,
        !is_dir && eq_ignore_ascii_case_spec(file_name@, WHISPER_CLI_NAME@) ==> r is CliExecutable,
        !is_dir && !eq_ignore_ascii_case_spec(file_name@, WHISPER_CLI_NAME@) ==> (r matches EntryPlan::Extract(n)
            && n@ == file_name@),
{
    if is_dir {
        EntryPlan::Skip
    } else if eq_ignore_ascii_case(file_name, WHISPER_CLI_NAME) {
        EntryPlan::CliExecutable
    } else {
        EntryPlan::Extract(to_owned(file_name))
    }
}

/// Whether some entry, given by file name and directory flag, is the recognizer.
pub open spec fn archive_has_cli(names: Seq<String>, dirs: Seq<bool>) -> bool {
    exists|i: int|
        0 <= i < names.len() && i < dirs.len() && !dirs[i] && eq_ignore_ascii_case_spec(
            #[trigger] names[i]@,
            WHISPER_CLI_NAME@,
        )
}

/// Plans the extraction of a whole archive, entry by entry, and refuses it when
/// no entry is the recognizer. (Every entry is planned either way.)
pub fn plan_archive(file_names: &Vec<String>, is_dir: &Vec<bool>) -> (r: (
    Vec<EntryPlan>,
    Result<(), BootstrapError>,
))
    requires
        file_names.len() == is_dir.len(),
    ensures
        r.0@.len() == file_names@.len(),
        forall|i: int|
            0 <= i < file_names@.len() ==> match #[trigger] r.0@[i] {
                EntryPlan::Skip => is_dir@[i],
                EntryPlan::CliExecutable => !is_dir@[i] && eq_ignore_ascii_case_spec(
                    file_names@[i]@,
                    WHISPER_CLI_NAME@,
                ),
                EntryPlan::Extract(n) => !is_dir@[i] && !eq_ignore_ascii_case_spec(
                    file_names@[i]@,
                    WHISPER_CLI_NAME@,
                ) && n@ == file_names@[i]@,
            },
        archive_has_cli(file_names@, is_dir@) ==> r.1 is Ok,
        !archive_has_cli(file_names@, is_dir@) ==> r.1 matches Err(BootstrapError::CliNotInArchive),
{
    let mut plans: Vec<EntryPlan> = Vec::new();
    let mut cli_found = false;
    for i in 0..file_names.len()
        invariant
            file_names.len() == is_dir.len(),
            plans@.len() == i,
            forall|j: int|
                0 <= j < i ==> match #[trigger] plans@[j] {
                    EntryPlan::Skip => is_dir@[j],
                    EntryPlan::CliExecutable => !is_dir@[j] && eq_ignore_ascii_case_spec(
                        file_names@[j]@,
                        WHISPER_CLI_NAME@,
                    ),
                    EntryPlan::Extract(n) => !is_dir@[j] && !eq_ignore_ascii_case_spec(
                        file_names@[j]@,
                        WHISPER_CLI_NAME@,
                    ) && n@ == file_names@[j]@,
                },
            cli_found == archive_has_cli(file_names@.take(i as int), is_dir@.take(i as int)),
    {
        let plan = plan_zip_entry(file_names[i].as_str(), is_dir[i]);
        proof {
            let n1 = file_names@.take(i + 1);
            let d1 = is_dir@.take(i + 1);
            let n0 = file_names@.take(i as int);
            let d0 = is_dir@.take(i as int);
            if archive_has_cli(n1, d1) {
                let k = choose|k: int|
                    0 <= k < n1.len() && k < d1.len() && !d1[k] && eq_ignore_ascii_case_spec(
                        #[trigger] n1[k]@,
                        WHISPER_CLI_NAME@,
                    );
                if k < i {
                    assert(n0[k] == n1[k]);
                }
            }
            if archive_has_cli(n0, d0) {
                let k = choose|k: int|
                    0 <= k < n0.len() && k < d0.len() && !d0[k] && eq_ignore_ascii_case_spec(
                        #[trigger] n0[k]@,
                        WHISPER_CLI_NAME@,
                    );
                assert(n1[k] == n0[k]);
            }
            if plan is CliExecutable {
                assert(n1[i as int] == file_names@[i as int]);
            }
        }
        if let EntryPlan::CliExecutable = plan {
            cli_found = true;
        }
        plans.push(plan);
    }
    assert(file_names@.take(file_names.len() as int) =~= file_names@);
    assert(is_dir@.take(is_dir.len() as int) =~= is_dir@);
    if cli_found {
        (plans, Ok(()))
    } else {
        (plans, Err(BootstrapError::CliNotInArchive))
    }
}

/// Points the settings at the fetched recognizer and model.
pub fn apply_bootstrap_result(config: &mut AppConfig, result: &BootstrapResult)
    ensures
        final(config).whisper_sidecar_path@ == result.whisper_sidecar_path@,
        final(config).whisper_model_path@ == result.whisper_model_path@,
        final(config).deepseek_api_key == old(config).deepseek_api_key,
        final(config).microphone_device_id == old(config).microphone_device_id,
        final(config).whisper_speed_model_path == old(config).whisper_speed_model_path,
        final(config).asr_profile == old(config).asr_profile,
        final(config).prompt_style == old(config).prompt_style,
        final(config).language == old(config).language,
        final(config).auto_paste == old(config).auto_paste,
        final(config).hotkey_buffer_ms == old(config).hotkey_buffer_ms,
{
    config.whisper_sidecar_path = result.whisper_sidecar_path.clone();
    config.whisper_model_path = result.whisper_model_path.clone();
}

/// The model that the chosen recognition profile uses.
pub fn resolve_model_path(config: &AppConfig) -> (r: String)
    ensures
        config.asr_profile == AsrProfile::Speed ==> r@ == config.whisper_speed_model_path@,
        config.asr_profile == AsrProfile::Standard ==> r@ == config.whisper_model_path@,
{
    match config.asr_profile {
        AsrProfile::Speed => config.whisper_speed_model_path.clone(),
        AsrProfile::Standard => config.whisper_model_path.clone(),
    }
}


/// What the `zip` crate reads from an archive's bytes: for each entry, in order,
/// its stored name and whether it is a directory; `None` when the archive or one
/// of its entries cannot be opened.
pub uninterp spec fn zip_listing(bytes: Seq<u8>) -> Option<Seq<(Seq<char>, bool)>>;

/// `zip::ZipArchive::new` on the bytes, then `ZipArchive::by_index`,
/// `ZipFile::name` and `ZipFile::is_dir` for every entry.
///
/// Claims only that the listing (or its failure) is a function of the bytes,
/// named `zip_listing`.
#[verifier::external_body]
fn zip_entries(bytes: &Vec<u8>) -> (r: Option<Vec<(String, bool)>>)
    ensures
        match r {
            Some(v) => zip_listing(bytes@) == Some(v@.map_values(|e: (String, bool)| (e.0@, e.1))),
            None => zip_listing(bytes@) is None,
        },
{
    let mut archive = match zip::ZipArchive::new(std::io::Cursor::new(bytes.as_slice())) {
        Ok(archive) => archive,
        Err(_) => return None,
    };
    let mut entries = Vec::with_capacity(archive.len());
    for index in 0..archive.len() {
        match archive.by_index(index) {
            Ok(file) => entries.push((file.name().to_string(), file.is_dir())),
            Err(_) => return None,
        }
    }
    Some(entries)
}

/// `name` is a file name that `zip_entry_file_name` may give for the stored entry
/// name `raw`.
pub open spec fn file_name_fits(raw: Seq<char>, name: Seq<char>) -> bool {
    &&& name.len() == 0 || (forall|k: int| 0 <= k < name.len() ==> name[k] != '/') && exists|i: int|
        0 <= i && i + name.len() <= slashes(raw).len() && #[trigger] slashes(raw).subrange(
            i,
            i + name.len(),
        ) == name
    &&& !drive_prefixed(slashes(raw)) ==> name == final_component(slashes(raw))
}

/// Some entry, given by file name and directory flag, is the recognizer.
pub open spec fn listing_has_cli(names: Seq<Seq<char>>, dirs: Seq<bool>) -> bool {
    exists|i: int|
        0 <= i < names.len() && i < dirs.len() && !dirs[i] && eq_ignore_ascii_case_spec(
            #[trigger] names[i],
            WHISPER_CLI_NAME@,
        )
}

/// `plans` and `found` are what `plan_archive` gives for these file names and
/// directory flags.
pub open spec fn archive_plan(
    names: Seq<Seq<char>>,
    dirs: Seq<bool>,
    plans: Seq<EntryPlan>,
    found: Result<(), BootstrapError>,
) -> bool {
    &&& plans.len() == names.len()
    &&& forall|i: int|
        0 <= i < names.len() ==> match #[trigger] plans[i] {
            EntryPlan::Skip => dirs[i],
            EntryPlan::CliExecutable => !dirs[i] && eq_ignore_ascii_case_spec(
                names[i],
                WHISPER_CLI_NAME@,
            ),
            EntryPlan::Extract(n) => !dirs[i] && !eq_ignore_ascii_case_spec(
                names[i],
                WHISPER_CLI_NAME@,
            ) && n@ == names[i],
        }
    &&& listing_has_cli(names, dirs) ==> found is Ok
    &&& !listing_has_cli(names, dirs) ==> found == Err::<(), BootstrapError>(
        BootstrapError::CliNotInArchive,
    )
}

/// Reads the downloaded archive and plans its extraction: each entry's file name
/// is taken from its stored name and planned as `plan_archive` does. An archive
/// that cannot be read is refused.
pub fn plan_zip(bytes: &Vec<u8>) -> (r: Result<(Vec<EntryPlan>, Result<(), BootstrapError>), BootstrapError>)
    ensures
        match zip_listing(bytes@) {
            None => r == Err::<(Vec<EntryPlan>, Result<(), BootstrapError>), BootstrapError>(
                BootstrapError::UnreadableArchive,
            ),
            Some(entries) => match r {
                Ok((plans, found)) => exists|names: Seq<Seq<char>>|
                    {
                        &&& names.len() == entries.len()
                        &&& forall|i: int|
                            0 <= i < names.len() ==> file_name_fits(
                                entries[i].0,
                                #[trigger] names[i],
                            )
                        &&& archive_plan(
                            names,
                            entries.map_values(|e: (Seq<char>, bool)| e.1),
                            plans@,
                            found,
                        )
                    },
                Err(_) => false,
            },
        },
{
    let entries = match zip_entries(bytes) {
        Some(entries) => entries,
        None => {
            return Err(BootstrapError::UnreadableArchive);
        },
    };
    let ghost listing = entries@.map_values(|e: (String, bool)| (e.0@, e.1));
    let mut names: Vec<String> = Vec::new();
    let mut dirs: Vec<bool> = Vec::new();
    for i in 0..entries.len()
        invariant
            listing == entries@.map_values(|e: (String, bool)| (e.0@, e.1)),
            names@.len() == i,
            dirs@.len() == i,
            forall|k: int| 0 <= k < i ==> file_name_fits(listing[k].0, #[trigger] names@[k]@),
            forall|k: int| 0 <= k < i ==> #[trigger] dirs@[k] == listing[k].1,
    {
        let name = zip_entry_file_name(entries[i].0.as_str());
        assert(listing[i as int].0 == entries@[i as int].0@);
        names.push(name);
        dirs.push(entries[i].1);
    }
    let (plans, found) = plan_archive(&names, &dirs);
    let ghost ns = names@.map_values(|n: String| n@);
    let ghost ds = listing.map_values(|e: (Seq<char>, bool)| e.1);
    proof {
        assert(ds =~= dirs@);
        if archive_has_cli(names@, dirs@) {
            let k = choose|k: int|
                0 <= k < names@.len() && k < dirs@.len() && !dirs@[k] && eq_ignore_ascii_case_spec(
                    #[trigger] names@[k]@,
                    WHISPER_CLI_NAME@,
                );
            assert(ns[k] == names@[k]@);
        }
        if listing_has_cli(ns, ds) {
            let k = choose|k: int|
                0 <= k < ns.len() && k < ds.len() && !ds[k] && eq_ignore_ascii_case_spec(
                    #[trigger] ns[k],
                    WHISPER_CLI_NAME@,
                );
            assert(ns[k] == names@[k]@);
        }
        assert forall|i: int| 0 <= i < ns.len() implies file_name_fits(
            listing[i].0,
            #[trigger] ns[i],
        ) by {
            assert(ns[i] == names@[i]@);
        }
        assert forall|i: int| 0 <= i < ns.len() implies match #[trigger] plans@[i] {
            EntryPlan::Skip => ds[i],
            EntryPlan::CliExecutable => !ds[i] && eq_ignore_ascii_case_spec(
                ns[i],
                WHISPER_CLI_NAME@,
            ),
            EntryPlan::Extract(n) => !ds[i] && !eq_ignore_ascii_case_spec(
                ns[i],
                WHISPER_CLI_NAME@,
            ) && n@ == ns[i],
        } by {
            assert(ns[i] == names@[i]@);
        }
        assert(archive_plan(ns, ds, plans@, found));
    }
    Ok((plans, found))
}

} // verus!
