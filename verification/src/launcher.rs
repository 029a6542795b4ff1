//! Starting the speech applications: where their executables are looked
//! for, whether one has to be started, and which ones were started here.
use vstd::prelude::*;

use crate::text::{push_str, seq_contains, str_contains};
use crate::tts::{process_name, TtsBackendType};

verus! {

/// Where BouyomiChan is looked for.
pub open spec fn bouyomichan_paths() -> Seq<Seq<char>> {
    seq![
        "C:\\Program Files\\BouyomiChan\\BouyomiChan.exe"@,
        "C:\\Program Files (x86)\\BouyomiChan\\BouyomiChan.exe"@,
        "C:\\BouyomiChan\\BouyomiChan.exe"@,
    ]
}

/// Where VOICEVOX is looked for: under the local application data folder
/// and the user profile when they are known, then in the program folders.
pub open spec fn voicevox_paths(local_app_data: Option<Seq<char>>, user_profile: Option<Seq<char>>) -> Seq<
    Seq<char>,
> {
    (match local_app_data {
        Some(d) => seq![d + "\\Programs\\VOICEVOX\\VOICEVOX.exe"@],
        None => Seq::empty(),
    }) + (match user_profile {
        Some(p) => seq![p + "\\AppData\\Local\\Programs\\VOICEVOX\\VOICEVOX.exe"@],
        None => Seq::empty(),
    }) + seq![
        "C:\\Program Files\\VOICEVOX\\VOICEVOX.exe"@,
        "C:\\Program Files (x86)\\VOICEVOX\\VOICEVOX.exe"@,
    ]
}

/// The view of an optional string slice.
pub open spec fn opt_view(s: Option<&str>) -> Option<Seq<char>> {
    match s {
        Some(x) => Some(x@),
        None => None,
    }
}

/// Where VOICEVOX is looked for, given the values of the `LOCALAPPDATA` and
/// `USERPROFILE` environment variables when they are set.
pub fn get_voicevox_default_paths(local_app_data: Option<&str>, user_profile: Option<&str>) -> (r:
    Vec<String>)
    ensures
        r@.map_values(|s: String| s@) == voicevox_paths(opt_view(local_app_data), opt_view(user_profile)),
{
    let mut paths: Vec<String> = Vec::new();
    match local_app_data {
        Some(d) => {
            let mut p = String::from_str(d);
            push_str(&mut p, "\\Programs\\VOICEVOX\\VOICEVOX.exe");
            paths.push(p);
        },
        None => {},
    }
    match user_profile {
        Some(u) => {
            let mut p = String::from_str(u);
            push_str(&mut p, "\\AppData\\Local\\Programs\\VOICEVOX\\VOICEVOX.exe");
            paths.push(p);
        },
        None => {},
    }
    paths.push(String::from_str("C:\\Program Files\\VOICEVOX\\VOICEVOX.exe"));
    paths.push(String::from_str("C:\\Program Files (x86)\\VOICEVOX\\VOICEVOX.exe"));
    assert(paths@.map_values(|s: String| s@) =~= voicevox_paths(
        opt_view(local_app_data),
        opt_view(user_profile),
    ));
    paths
}

/// Where the executable of a backend is looked for, in order; nowhere for
/// no backend.
pub open spec fn executable_paths(backend: TtsBackendType, local_app_data: Option<Seq<char>>, user_profile: Option<Seq<char>>) -> Seq<Seq<char>> {
    match backend {
        TtsBackendType::Bouyomichan => bouyomichan_paths(),
        TtsBackendType::Voicevox => voicevox_paths(local_app_data, user_profile),
        TtsBackendType::Disabled => Seq::empty(),
    }
}

/// Where the executable of a backend is looked for, in order.
pub fn executable_candidates(
    backend: TtsBackendType,
    local_app_data: Option<&str>,
    user_profile: Option<&str>,
) -> (r: Vec<String>)
    ensures
        r@.map_values(|s: String| s@) == executable_paths(
            backend,
            opt_view(local_app_data),
            opt_view(user_profile),
        ),
{
    match backend {
        TtsBackendType::Bouyomichan => {
            let mut paths: Vec<String> = Vec::new();
            paths.push(String::from_str("C:\\Program Files\\BouyomiChan\\BouyomiChan.exe"));
            paths.push(String::from_str("C:\\Program Files (x86)\\BouyomiChan\\BouyomiChan.exe"));
            paths.push(String::from_str("C:\\BouyomiChan\\BouyomiChan.exe"));
            assert(paths@.map_values(|s: String| s@) =~= bouyomichan_paths());
            paths
        },
        TtsBackendType::Voicevox => get_voicevox_default_paths(local_app_data, user_profile),
        TtsBackendType::Disabled => {
            let paths: Vec<String> = Vec::new();
            assert(paths@.map_values(|s: String| s@) =~= Seq::<Seq<char>>::empty());
            paths
        },
    }
}

/// The first candidate that exists, if any; `exists[i]` says whether the
/// `i`-th candidate exists.
pub fn detect_executable(candidates: &Vec<String>, exists: &Vec<bool>) -> (r: Option<String>)
    requires
        candidates@.len() == exists@.len(),
    ensures
        match r {
            Some(p) => exists|i: int|
                0 <= i < candidates@.len() && exists@[i] && p == candidates@[i] && forall|j: int|
                    0 <= j < i ==> !exists@[j],
            None => forall|j: int| 0 <= j < exists@.len() ==> !exists@[j],
        },
{
    let mut i: usize = 0;
    while i < candidates.len()
        invariant
            i <= candidates@.len(),
            candidates@.len() == exists@.len(),
            forall|j: int| 0 <= j < i ==> !exists@[j],
        decreases candidates.len() - i,
    {
        if exists[i] {
            return Some(candidates[i].clone());
        }
        i += 1;
    }
    None
}

/// Whether the process list printed by `tasklist` names the process.
pub fn is_process_listed(tasklist_output: &str, process_name: &str) -> (r: bool)
    ensures
        r == seq_contains(tasklist_output@, process_name@),
{
    str_contains(tasklist_output, process_name)
}

/// What starting a backend comes to.
#[derive(Debug, Clone, PartialEq)]
pub enum LaunchStep {
    /// Nothing to start: no backend, or it already runs.
    Nothing,
    /// Start the executable at this path.
    Launch(String),
    /// Look for the executable where it is usually installed.
    Detect,
}

/// What starting `backend` comes to: nothing for no backend or one that
/// already runs; else the configured path when it is set and not empty, or
/// a search for the executable.
pub fn launch_step(backend: TtsBackendType, already_running: bool, config_path: Option<&str>) -> (s:
    LaunchStep)
    ensures
        backend == TtsBackendType::Disabled || already_running ==> s == LaunchStep::Nothing,
        backend != TtsBackendType::Disabled && !already_running ==> match config_path {
            Some(p) => if p@.len() > 0 {
                s matches LaunchStep::Launch(q) && q@ == p@
            } else {
                s == LaunchStep::Detect
            },
            None => s == LaunchStep::Detect,
        },
{
    if backend == TtsBackendType::Disabled || already_running {
        return LaunchStep::Nothing;
    }
    match config_path {
        Some(p) => if p.unicode_len() > 0 {
            LaunchStep::Launch(String::from_str(p))
        } else {
            LaunchStep::Detect
        },
        None => LaunchStep::Detect,
    }
}

/// The name `Debug` gives a backend kind.
pub open spec fn backend_debug_name(backend: TtsBackendType) -> Seq<char> {
    match backend {
        TtsBackendType::Disabled => "Disabled"@,
        TtsBackendType::Bouyomichan => "Bouyomichan"@,
        TtsBackendType::Voicevox => "Voicevox"@,
    }
}

/// The error when no executable of `backend` was found.
pub fn missing_executable_message(backend: TtsBackendType) -> (m: String)
    ensures
        m@ == backend_debug_name(backend) + " の実行ファイルが見つかりません"@,
{
    let mut m = String::from_str(match backend {
        TtsBackendType::Disabled => "Disabled",
        TtsBackendType::Bouyomichan => "Bouyomichan",
        TtsBackendType::Voicevox => "Voicevox",
    });
    push_str(&mut m, " の実行ファイルが見つかりません");
    m
}

/// The error when the executable to start does not exist.
pub fn executable_not_found_message(path: &str) -> (m: String)
    ensures
        m@ == "実行ファイルが見つかりません: "@ + path@,
{
    let mut m = String::from_str("実行ファイルが見つかりません: ");
    push_str(&mut m, path);
    m
}

/// Whether one of the backends started here is `backend`.
pub fn was_launched_by_liscov(launched: &[TtsBackendType], backend: TtsBackendType) -> (r: bool)
    ensures
        r == exists|i: int| 0 <= i < launched@.len() && launched@[i] == backend,
{
    let mut i: usize = 0;
    while i < launched.len()
        invariant
            i <= launched@.len(),
            forall|j: int| 0 <= j < i ==> launched@[j] != backend,
        decreases launched.len() - i,
    {
        if launched[i] == backend {
            return true;
        }
        i += 1;
    }
    false
}

/// Which of the backends started here are to be stopped when `backend` is
/// stopped: the positions of its entries, in order.
pub fn launched_positions(launched: &[TtsBackendType], backend: TtsBackendType) -> (r: Vec<usize>)
    ensures
        forall|k: int| 0 <= k < r@.len() ==> r@[k] < launched@.len() && launched@[r@[k] as int] == backend,
        forall|i: int| 0 <= i < launched@.len() && launched@[i] == backend ==> r@.contains(i as usize),
        forall|a: int, b: int| 0 <= a < b < r@.len() ==> r@[a] < r@[b],
{
    let mut r: Vec<usize> = Vec::new();
    let mut i: usize = 0;
    while i < launched.len()
        invariant
            i <= launched@.len(),
            forall|k: int| 0 <= k < r@.len() ==> r@[k] < i && launched@[r@[k] as int] == backend,
            forall|j: int| 0 <= j < i && launched@[j] == backend ==> r@.contains(j as usize),
            forall|a: int, b: int| 0 <= a < b < r@.len() ==> r@[a] < r@[b],
        decreases launched.len() - i,
    {
        let ghost before = r@;
        if launched[i] == backend {
            r.push(i);
            assert(r@[r@.len() - 1] == i);
            assert forall|j: int| 0 <= j < i && launched@[j] == backend implies r@.contains(
                j as usize,
            ) by {
                let k = choose|k: int| 0 <= k < before.len() && before[k] == j as usize;
                assert(r@[k] == before[k]);
            }
        }
        i += 1;
    }
    r
}

/// Whether a backend is running, given whether its process is listed.
pub fn is_backend_running(backend: TtsBackendType, process_listed: bool) -> (r: bool)
    ensures
        r == (backend != TtsBackendType::Disabled && process_listed),
{
    backend != TtsBackendType::Disabled && process_listed
}

/// The backend to start on its own: the chosen one, when it is set to
/// start automatically.
pub fn auto_launch_target(backend: TtsBackendType, bouyomichan_auto_launch: bool, voicevox_auto_launch: bool) -> (r: Option<TtsBackendType>)
    ensures
        r == (match backend {
            TtsBackendType::Bouyomichan => if bouyomichan_auto_launch {
                Some(TtsBackendType::Bouyomichan)
            } else {
                None
            },
            TtsBackendType::Voicevox => if voicevox_auto_launch {
                Some(TtsBackendType::Voicevox)
            } else {
                None
            },
            TtsBackendType::Disabled => None,
        }),
{
    match backend {
        TtsBackendType::Bouyomichan => if bouyomichan_auto_launch {
            Some(TtsBackendType::Bouyomichan)
        } else {
            None
        },
        TtsBackendType::Voicevox => if voicevox_auto_launch {
            Some(TtsBackendType::Voicevox)
        } else {
            None
        },
        TtsBackendType::Disabled => None,
    }
}

/// The backends to stop when the application exits: each one started here
/// and set to close with the application, BouyomiChan first.
pub fn backends_to_close(
    launched: &[TtsBackendType],
    bouyomichan_auto_close: bool,
    voicevox_auto_close: bool,
) -> (r: Vec<TtsBackendType>)
    ensures
        r@ == (if bouyomichan_auto_close && launched@.contains(TtsBackendType::Bouyomichan) {
            seq![TtsBackendType::Bouyomichan]
        } else {
            Seq::empty()
        }) + (if voicevox_auto_close && launched@.contains(TtsBackendType::Voicevox) {
            seq![TtsBackendType::Voicevox]
        } else {
            Seq::empty()
        }),
{
    let mut r: Vec<TtsBackendType> = Vec::new();
    if bouyomichan_auto_close && was_launched_by_liscov(launched, TtsBackendType::Bouyomichan) {
        r.push(TtsBackendType::Bouyomichan);
    }
    if voicevox_auto_close && was_launched_by_liscov(launched, TtsBackendType::Voicevox) {
        r.push(TtsBackendType::Voicevox);
    }
    proof {
        if launched@.contains(TtsBackendType::Bouyomichan) {
            let i = choose|i: int| 0 <= i < launched@.len() && launched@[i] == TtsBackendType::Bouyomichan;
        }
        if launched@.contains(TtsBackendType::Voicevox) {
            let i = choose|i: int| 0 <= i < launched@.len() && launched@[i] == TtsBackendType::Voicevox;
        }
    }
    assert(r@ =~= (if bouyomichan_auto_close && launched@.contains(TtsBackendType::Bouyomichan) {
        seq![TtsBackendType::Bouyomichan]
    } else {
        Seq::empty()
    }) + (if voicevox_auto_close && launched@.contains(TtsBackendType::Voicevox) {
        seq![TtsBackendType::Voicevox]
    } else {
        Seq::empty()
    }));
    r
}

} // verus!
