//! User settings and the locations of the files the application keeps.

use vstd::prelude::*;
use crate::text::to_owned;

verus! {

/// Which local speech model trades accuracy for speed.
#[derive(Clone, Copy, Debug, PartialEq, Eq, Structural)]
pub enum AsrProfile {
    Speed,
    Standard,
}

impl Default for AsrProfile {
    fn default() -> (r: Self)
        ensures
            r == AsrProfile::Standard,
    {
        AsrProfile::Standard
    }
}

/// The tone in which the language model is asked to rewrite a transcript.
#[derive(Clone, Copy, Debug, PartialEq, Eq, Structural)]
pub enum PromptStyle {
    Default,
    Concise,
    Formal,
    Creative,
}

impl Default for PromptStyle {
    fn default() -> (r: Self)
        ensures
            r == PromptStyle::Default,
    {
        PromptStyle::Default
    }
}

/// The user's settings.
#[derive(Clone, Debug)]
pub struct AppConfig {
    pub deepseek_api_key: String,
    pub microphone_device_id: Option<String>,
    pub whisper_model_path: String,
    pub whisper_speed_model_path: String,
    pub whisper_sidecar_path: String,
    pub asr_profile: AsrProfile,
    pub prompt_style: PromptStyle,
    pub language: String,
    pub auto_paste: bool,
    pub hotkey_buffer_ms: u64,
}

/// The settings of a fresh installation.
pub open spec fn is_default_config(c: AppConfig) -> bool {
    &&& c.deepseek_api_key@ == Seq::<char>::empty()
    &&& c.microphone_device_id is None
    &&& c.whisper_model_path@ == Seq::<char>::empty()
    &&& c.whisper_speed_model_path@ == Seq::<char>::empty()
    &&& c.whisper_sidecar_path@ == Seq::<char>::empty()
    &&& c.asr_profile == AsrProfile::Standard
    &&& c.prompt_style == PromptStyle::Default
    &&& c.language@ == "zh"@
    &&& c.auto_paste
    &&& c.hotkey_buffer_ms == 300
}

impl Default for AppConfig {
    fn default() -> (r: Self)
        ensures
            is_default_config(r),
    {
        AppConfig {
            deepseek_api_key: String::new(),
            microphone_device_id: None,
            whisper_model_path: String::new(),
            whisper_speed_model_path: String::new(),
            whisper_sidecar_path: String::new(),
            asr_profile: AsrProfile::Standard,
            prompt_style: PromptStyle::Default,
            language: to_owned("zh"),
            auto_paste: true,
            hotkey_buffer_ms: 300,
        }
    }
}

/// A path separator on some platform.
pub open spec fn is_path_sep(c: char) -> bool {
    c == '/' || c == '\\'
}

/// A single relative path component with no separator, drive or leading dot.
pub open spec fn plain_name(part: Seq<char>) -> bool {
    &&& part.len() > 0
    &&& part[0] != '.'
    &&& forall|k: int| 0 <= k < part.len() ==> !is_path_sep(#[trigger] part[k]) && part[k] != ':'
}

/// `p` is `base` with the component `part` appended: `base`, then at most one
/// separator, then `part`.
pub open spec fn joined_path(p: Seq<char>, base: Seq<char>, part: Seq<char>) -> bool {
    ||| p == base + part
    ||| exists|c: char| is_path_sep(c) && p == base + seq![c] + part
}

/// `s` starts like a Windows verbatim path (`\\?\`, with either separator).
pub open spec fn verbatim_prefixed(s: Seq<char>) -> bool {
    s.len() >= 4 && is_path_sep(s[0]) && is_path_sep(s[1]) && s[2] == '?' && is_path_sep(s[3])
}

/// `s` is a bare Windows drive such as `C:`.
pub open spec fn bare_drive(s: Seq<char>) -> bool {
    s.len() == 2 && s[1] == ':'
}

/// `p` is the plain component `part` appended to `base`: it ends with `part`;
/// unless `base` is a verbatim path (which Windows rebuilds component by
/// component), it is `base`, at most one separator, then `part`; an empty base
/// gives `part` itself, a base ending in `/` gets no further separator, and a
/// base ending in anything but a separator gets one (a bare drive excepted).
pub open spec fn appended(p: Seq<char>, base: Seq<char>, part: Seq<char>) -> bool {
    &&& p.len() >= part.len()
    &&& p.skip(p.len() - part.len()) == part
    &&& !verbatim_prefixed(base) ==> joined_path(p, base, part)
    &&& base.len() == 0 ==> p == part
    &&& base.len() > 0 && base.last() == '/' && !verbatim_prefixed(base) ==> p == base + part
    &&& base.len() > 0 && !is_path_sep(base.last()) && !verbatim_prefixed(base) && !bare_drive(
        base,
    ) ==> exists|c: char| is_path_sep(c) && p == base + seq![c] + part
}

/// `Path::join` of `base` and a plain component `part`.
///
/// Claims what `PathBuf::push` does with a relative component that has no root
/// and no prefix: the result ends with `part`; for a base that is not a verbatim
/// path it keeps `base` and adds the platform's separator exactly when the base
/// is nonempty, does not already end in a separator and is not a bare drive.
/// Which separator the platform uses, whether a trailing backslash counts as a
/// separator (it does on Windows only), and how a verbatim base is rebuilt are
/// left unsaid.
#[verifier::external_body]
fn path_join(base: &str, part: &str) -> (r: String)
    requires
        plain_name(part@),
    ensures
        appended(r@, base@, part@),
{
    std::path::Path::new(base).join(part).to_string_lossy().into_owned()
}

/// `dirs::data_dir`, the user's data directory, as text.
///
/// Nothing is claimed of it: it depends on the platform and the environment.
#[verifier::external_body]
fn data_dir() -> (r: Option<String>) {
    dirs::data_dir().map(|p| p.to_string_lossy().into_owned())
}

/// Why a settings location could not be worked out.
#[derive(Clone, Copy, Debug, PartialEq, Eq, Structural)]
pub enum ConfigError {
    /// The platform reports no data directory.
    MissingDataDir,
}

/// `p` is the application's directory for the data directory `d`.
pub open spec fn app_dir_of(p: Seq<char>, d: Seq<char>) -> bool {
    appended(p, d, "typemore"@)
}

/// `p` is the entry `a` of the application directory for the data directory `d`.
pub open spec fn app_entry_of(p: Seq<char>, d: Seq<char>, a: Seq<char>) -> bool {
    exists|q: Seq<char>| app_dir_of(q, d) && appended(p, q, a)
}

/// `p` is the entry `a`/`b` of the application directory for the data directory `d`.
pub open spec fn app_entry2_of(p: Seq<char>, d: Seq<char>, a: Seq<char>, b: Seq<char>) -> bool {
    exists|q: Seq<char>| app_entry_of(q, d, a) && appended(p, q, b)
}

/// `p` is the entry `a`/`b`/`c` of the application directory for the data directory `d`.
pub open spec fn app_entry3_of(
    p: Seq<char>,
    d: Seq<char>,
    a: Seq<char>,
    b: Seq<char>,
    c: Seq<char>,
) -> bool {
    exists|q: Seq<char>| app_entry2_of(q, d, a, b) && appended(p, q, c)
}

/// The application's directory for the data directory `data_dir`, when there is one.
pub fn app_data_dir_in(data_dir: Option<String>) -> (r: Result<String, ConfigError>)
    ensures
        match data_dir {
            None => r matches Err(ConfigError::MissingDataDir),
            Some(d) => r matches Ok(p) && app_dir_of(p@, d@),
        },
{
    match data_dir {
        None => Err(ConfigError::MissingDataDir),
        Some(base) => {
            proof {
                reveal_strlit("typemore");
            }
            Ok(path_join(base.as_str(), "typemore"))
        },
    }
}

/// The entry `name` of the directory `dir`.
pub fn app_entry_in(dir: &str, name: &str) -> (r: String)
    requires
        plain_name(name@),
    ensures
        appended(r@, dir@, name@),
{
    path_join(dir, name)
}

/// The entry `name` of the application directory for the data directory
/// `data_dir`, when there is one.
pub fn app_entry_path_in(data_dir: Option<String>, name: &str) -> (r: Result<String, ConfigError>)
    requires
        plain_name(name@),
    ensures
        match data_dir {
            None => r matches Err(ConfigError::MissingDataDir),
            Some(d) => r matches Ok(p) && app_entry_of(p@, d@, name@),
        },
{
    let ghost d = data_dir;
    let dir = match app_data_dir_in(data_dir) {
        Ok(dir) => dir,
        Err(e) => {
            return Err(e);
        },
    };
    let p = app_entry_in(dir.as_str(), name);
    proof {
        assert(app_dir_of(dir@, d->Some_0@) && appended(p@, dir@, name@));
        assert(app_entry_of(p@, d->Some_0@, name@));
    }
    let r = Ok(p);
    proof {
        assert(app_entry_of(r->Ok_0@, d->Some_0@, name@));
    }
    r
}

/// The file `sub`/`file` of the resources directory for the data directory
/// `data_dir`, when there is one.
pub fn resource_file_in(data_dir: Option<String>, sub: &str, file: &str) -> (r: Result<
    String,
    ConfigError,
>)
    requires
        plain_name(sub@),
        plain_name(file@),
    ensures
        match data_dir {
            None => r matches Err(ConfigError::MissingDataDir),
            Some(d) => r matches Ok(p) && app_entry3_of(p@, d@, "resources"@, sub@, file@),
        },
{
    let ghost d = data_dir;
    proof {
        reveal_strlit("resources");
    }
    let res = match app_entry_path_in(data_dir, "resources") {
        Ok(res) => res,
        Err(e) => {
            return Err(e);
        },
    };
    let dir = app_entry_in(res.as_str(), sub);
    let p = app_entry_in(dir.as_str(), file);
    proof {
        let dd = d->Some_0@;
        assert(app_entry_of(res@, dd, "resources"@) && appended(dir@, res@, sub@));
        assert(app_entry2_of(dir@, dd, "resources"@, sub@));
        assert(app_entry2_of(dir@, dd, "resources"@, sub@) && appended(p@, dir@, file@));
        assert(app_entry3_of(p@, dd, "resources"@, sub@, file@));
    }
    let r = Ok(p);
    proof {
        assert(app_entry3_of(r->Ok_0@, d->Some_0@, "resources"@, sub@, file@));
    }
    r
}

/// The application's data directory: `typemore` inside the user's data directory
/// (`dirs::data_dir`), or an error when the platform reports none.
pub fn app_data_dir() -> (r: Result<String, ConfigError>)
    ensures
        r matches Ok(p) ==> exists|d: Seq<char>| app_dir_of(p@, d),
        r matches Err(e) ==> e == ConfigError::MissingDataDir,
{
    let dir = data_dir();
    let ghost d = dir;
    let r = app_data_dir_in(dir);
    proof {
        if r is Ok {
            assert(app_dir_of(r->Ok_0@, d->Some_0@));
        }
    }
    r
}

/// The entry `name` of the application directory inside the user's data
/// directory.
fn app_entry(name: &str) -> (r: Result<String, ConfigError>)
    requires
        plain_name(name@),
    ensures
        r matches Ok(p) ==> exists|d: Seq<char>| app_entry_of(p@, d, name@),
        r matches Err(e) ==> e == ConfigError::MissingDataDir,
{
    let dir = data_dir();
    let ghost d = dir;
    let r = app_entry_path_in(dir, name);
    proof {
        if r is Ok {
            assert(app_entry_of(r->Ok_0@, d->Some_0@, name@));
        }
    }
    r
}

/// The settings file: `config.json` in the application directory.
pub fn config_path() -> (r: Result<String, ConfigError>)
    ensures
        r matches Ok(p) ==> exists|d: Seq<char>| app_entry_of(p@, d, "config.json"@),
        r matches Err(e) ==> e == ConfigError::MissingDataDir,
{
    proof {
        reveal_strlit("config.json");
    }
    app_entry("config.json")
}

/// The log directory: `logs` in the application directory.
pub fn logs_dir() -> (r: Result<String, ConfigError>)
    ensures
        r matches Ok(p) ==> exists|d: Seq<char>| app_entry_of(p@, d, "logs"@),
        r matches Err(e) ==> e == ConfigError::MissingDataDir,
{
    proof {
        reveal_strlit("logs");
    }
    app_entry("logs")
}

/// The directory for recordings in progress: `temp` in the application directory.
pub fn temp_dir() -> (r: Result<String, ConfigError>)
    ensures
        r matches Ok(p) ==> exists|d: Seq<char>| app_entry_of(p@, d, "temp"@),
        r matches Err(e) ==> e == ConfigError::MissingDataDir,
{
    proof {
        reveal_strlit("temp");
    }
    app_entry("temp")
}

/// The directory for downloaded resources: `resources` in the application directory.
pub fn resources_dir() -> (r: Result<String, ConfigError>)
    ensures
        r matches Ok(p) ==> exists|d: Seq<char>| app_entry_of(p@, d, "resources"@),
        r matches Err(e) ==> e == ConfigError::MissingDataDir,
{
    proof {
        reveal_strlit("resources");
    }
    app_entry("resources")
}

/// The file `sub`/`file` of the resources directory inside the user's data
/// directory.
fn resource_file(sub: &str, file: &str) -> (r: Result<String, ConfigError>)
    requires
        plain_name(sub@),
        plain_name(file@),
    ensures
        r matches Ok(p) ==> exists|d: Seq<char>| app_entry3_of(p@, d, "resources"@, sub@, file@),
        r matches Err(e) ==> e == ConfigError::MissingDataDir,
{
    let dir = data_dir();
    let ghost d = dir;
    let r = resource_file_in(dir, sub, file);
    proof {
        if r is Ok {
            assert(app_entry3_of(r->Ok_0@, d->Some_0@, "resources"@, sub@, file@));
        }
    }
    r
}

/// The bundled speech recognizer: `resources/whisper.cpp/whisper-cli.exe`.
pub fn bundled_whisper_cli_path() -> (r: Result<String, ConfigError>)
    ensures
        r matches Ok(p) ==> exists|d: Seq<char>| app_entry3_of(p@, d, "resources"@, "whisper.cpp"@, "whisper-cli.exe"@),
        r matches Err(e) ==> e == ConfigError::MissingDataDir,
{
    proof {
        reveal_strlit("whisper.cpp");
        reveal_strlit("whisper-cli.exe");
    }
    resource_file("whisper.cpp", "whisper-cli.exe")
}

/// The bundled standard model: `resources/models/ggml-small.bin`.
pub fn bundled_whisper_model_path() -> (r: Result<String, ConfigError>)
    ensures
        r matches Ok(p) ==> exists|d: Seq<char>| app_entry3_of(p@, d, "resources"@, "models"@, "ggml-small.bin"@),
        r matches Err(e) ==> e == ConfigError::MissingDataDir,
{
    proof {
        reveal_strlit("models");
        reveal_strlit("ggml-small.bin");
    }
    resource_file("models", "ggml-small.bin")
}

/// The bundled fast model: `resources/models/ggml-base.bin`.
pub fn bundled_whisper_speed_model_path() -> (r: Result<String, ConfigError>)
    ensures
        r matches Ok(p) ==> exists|d: Seq<char>| app_entry3_of(p@, d, "resources"@, "models"@, "ggml-base.bin"@),
        r matches Err(e) ==> e == ConfigError::MissingDataDir,
{
    proof {
        reveal_strlit("models");
        reveal_strlit("ggml-base.bin");
    }
    resource_file("models", "ggml-base.bin")
}

} // verus!
