//! URL checks, log levels and log files, and window placement.
use vstd::prelude::*;

use crate::clock::{file_stamp_shape, local_now_file_stamp, random_u32};
use crate::patterns::{is_match, regex_found};
use crate::text::{
    hex2, push_hex2, push_str,
    chars_to_string, contains_chars, find_chars, first_match, last_index, rfind_char, seq_contains,
    seq_starts_with, str_starts_with, str_to_chars, copy_range,
};

verus! {

/// Whether `url` is a YouTube watch or short link.
pub open spec fn is_youtube_url(url: Seq<char>) -> bool {
    seq_starts_with(url, "https://youtube.com/watch?v="@) || seq_starts_with(
        url,
        "https://www.youtube.com/watch?v="@,
    ) || seq_starts_with(url, "https://youtu.be/"@)
}

/// Whether `url` is a YouTube watch or short link.
pub fn validate_youtube_url(url: &str) -> (r: bool)
    ensures
        r == is_youtube_url(url@),
{
    str_starts_with(url, "https://youtube.com/watch?v=") || str_starts_with(
        url,
        "https://www.youtube.com/watch?v=",
    ) || str_starts_with(url, "https://youtu.be/")
}

/// `s` up to the first occurrence of `stop`.
pub open spec fn cut_at(s: Seq<char>, stop: Seq<char>) -> Seq<char> {
    match first_match(s, stop) {
        Some(e) => s.take(e),
        None => s,
    }
}

/// The video identifier of a URL: the text after the first `v=` up to `&`,
/// or for `youtu.be/` links the text after the last `/` up to `?`.
pub open spec fn video_id(url: Seq<char>) -> Option<Seq<char>> {
    match first_match(url, "v="@) {
        Some(st) => Some(cut_at(url.skip(st + 2), "&"@)),
        None => if seq_contains(url, "youtu.be/"@) {
            match last_index(url, '/') {
                Some(st) => Some(cut_at(url.skip(st + 1), "?"@)),
                None => None,
            }
        } else {
            None
        },
    }
}

fn cut_chars(v: &[char], stop: &str) -> (r: Vec<char>)
    ensures
        r@ == cut_at(v@, stop@),
{
    let s = str_to_chars(stop);
    match find_chars(v, s.as_slice()) {
        Some(e) => {
            let r = copy_range(v, 0, e);
            assert(v@.subrange(0, e as int) =~= v@.take(e as int));
            r
        },
        None => copy_range(v, 0, v.len()),
    }
}

/// The video identifier of a YouTube URL.
pub fn extract_video_id(url: &str) -> (r: Option<String>)
    ensures
        match r {
            Some(id) => video_id(url@) == Some(id@),
            None => video_id(url@) is None,
        },
{
    let u = str_to_chars(url);
    let n = u.len();
    let marker = str_to_chars("v=");
    proof {
        reveal_strlit("v=");
    }
    match find_chars(u.as_slice(), marker.as_slice()) {
        Some(st) => {
            let rest = copy_range(u.as_slice(), st + 2, n);
            assert(u@.subrange(st + 2, u@.len() as int) =~= u@.skip(st + 2));
            let id = cut_chars(rest.as_slice(), "&");
            Some(chars_to_string(id.as_slice()))
        },
        None => {
            let short = str_to_chars("youtu.be/");
            if contains_chars(u.as_slice(), short.as_slice()) {
                match rfind_char(u.as_slice(), '/') {
                    Some(st) => {
                        let rest = copy_range(u.as_slice(), st + 1, n);
                        assert(u@.subrange(st + 1, u@.len() as int) =~= u@.skip(st + 1));
                        let id = cut_chars(rest.as_slice(), "?");
                        Some(chars_to_string(id.as_slice()))
                    },
                    None => None,
                }
            } else {
                None
            }
        },
    }
}

/// Level of log output.
#[derive(Debug, Clone, Copy, PartialEq, Eq, Structural)]
pub enum DebugLevel {
    Off,
    Error,
    Warn,
    Info,
    Debug,
    Trace,
}

impl DebugLevel {
    /// The level's name in a log filter.
    pub open spec fn filter_name(self) -> Seq<char> {
        match self {
            DebugLevel::Off => "off"@,
            DebugLevel::Error => "error"@,
            DebugLevel::Warn => "warn"@,
            DebugLevel::Info => "info"@,
            DebugLevel::Debug => "debug"@,
            DebugLevel::Trace => "trace"@,
        }
    }

    /// The level's name in a log filter.
    pub fn as_filter(&self) -> (r: &'static str)
        ensures
            r@ == self.filter_name(),
    {
        match self {
            DebugLevel::Off => "off",
            DebugLevel::Error => "error",
            DebugLevel::Warn => "warn",
            DebugLevel::Info => "info",
            DebugLevel::Debug => "debug",
            DebugLevel::Trace => "trace",
        }
    }
}

/// Position and size of the main window.
#[derive(Debug, Clone, Copy, PartialEq, Eq, Structural)]
pub struct WindowConfig {
    pub x: i32,
    pub y: i32,
    pub width: u32,
    pub height: u32,
}

/// A `u32` read as an `i32`, as the `as` conversion does.
pub open spec fn as_i32(v: u32) -> int {
    if v <= i32::MAX { v as int } else { v - 0x1_0000_0000 }
}

/// The screen bound `screen - window`, computed on 32-bit signed values,
/// fits in `i32`.
pub open spec fn bound_fits(screen: u32, window: u32) -> bool {
    i32::MIN <= as_i32(screen) - as_i32(window) <= i32::MAX
}

/// The window settings after fitting them to a primary monitor of the given
/// size, or after the basic checks when no monitor size is known.
pub open spec fn fitted_window(c: WindowConfig, primary: Option<(u32, u32)>) -> WindowConfig {
    match primary {
        Some((sw, sh)) => WindowConfig {
            x: if c.x < 0 || c.x > as_i32(sw) - as_i32(c.width) { 100 } else { c.x },
            y: if c.y < 0 || c.y > as_i32(sh) - as_i32(c.height) { 100 } else { c.y },
            width: if c.width > sw { if sw < 900 { sw } else { 900 } } else { c.width },
            height: if c.height > sh { if sh < 1080 { sh } else { 1080 } } else { c.height },
        },
        None => WindowConfig {
            x: if c.x < 0 { 100 } else { c.x },
            y: if c.y < 0 { 100 } else { c.y },
            width: if c.width < 400 { 400 } else { c.width },
            height: if c.height < 300 { 300 } else { c.height },
        },
    }
}

fn u32_as_i32(v: u32) -> (r: i32)
    ensures
        r == as_i32(v),
{
    if v <= 0x7FFF_FFFF {
        v as i32
    } else {
        let w: i64 = v as i64 - 0x1_0000_0000i64;
        w as i32
    }
}

/// Moves the window back on screen and shrinks it to fit the primary
/// monitor's size (`primary_monitor`, width and height); without a known
/// monitor size, only negative positions and too small sizes are corrected.
pub fn validate_window_bounds(config: &mut WindowConfig, primary_monitor: Option<(u32, u32)>)
    requires
        primary_monitor matches Some((sw, sh)) ==> bound_fits(sw, old(config).width) && bound_fits(
            sh,
            old(config).height,
        ),
    ensures
        *final(config) == fitted_window(*old(config), primary_monitor),
{
    match primary_monitor {
        Some((screen_width, screen_height)) => {
            if config.x < 0 || config.x > u32_as_i32(screen_width) - u32_as_i32(config.width) {
                config.x = 100;
            }
            if config.y < 0 || config.y > u32_as_i32(screen_height) - u32_as_i32(config.height) {
                config.y = 100;
            }
            if config.width > screen_width {
                config.width = if screen_width < 900 { screen_width } else { 900 };
            }
            if config.height > screen_height {
                config.height = if screen_height < 1080 { screen_height } else { 1080 };
            }
        },
        None => {
            if config.x < 0 {
                config.x = 100;
            }
            if config.y < 0 {
                config.y = 100;
            }
            if config.width < 400 {
                config.width = 400;
            }
            if config.height < 300 {
                config.height = 300;
            }
        },
    }
}

/// The name pattern of the log files this application writes.
pub open spec fn log_file_pattern() -> Seq<char> {
    "^liscov_\\d{4}-\\d{2}-\\d{2}_\\d{2}-\\d{2}-\\d{2}_[a-f0-9]{8}\\.log$"@
}

/// Whether `name` is the name of a log file this application writes.
pub fn is_log_file_name(name: &str) -> (r: bool)
    ensures
        r == regex_found(log_file_pattern(), name@),
{
    is_match("^liscov_\\d{4}-\\d{2}-\\d{2}_\\d{2}-\\d{2}-\\d{2}_[a-f0-9]{8}\\.log$", name)
}

/// Eight lower-case hexadecimal digits for `n`.
pub open spec fn hex8(n: u32) -> Seq<char> {
    hex2((n / 0x100_0000) as nat % 256) + hex2((n / 0x1_0000) as nat % 256) + hex2(
        (n / 0x100) as nat % 256,
    ) + hex2(n as nat % 256)
}

/// The name of a new log file: the local time of its creation (as
/// `YYYY-MM-DD_HH-MM-SS`) and a random number, in hexadecimal.
pub fn log_file_name(timestamp: &str, random_id: u32) -> (r: String)
    ensures
        r@ == "liscov_"@ + timestamp@ + "_"@ + hex8(random_id) + ".log"@,
{
    let mut s = String::from_str("liscov_");
    push_str(&mut s, timestamp);
    push_str(&mut s, "_");
    push_hex2(&mut s, (random_id / 0x100_0000 % 256) as u64);
    push_hex2(&mut s, (random_id / 0x1_0000 % 256) as u64);
    push_hex2(&mut s, (random_id / 0x100 % 256) as u64);
    push_hex2(&mut s, (random_id % 256) as u64);
    push_str(&mut s, ".log");
    s
}

/// Number of files among the first `k` that come before file `i` newest first.
pub open spec fn newer_upto(files: Seq<(String, u128)>, i: int, k: int) -> nat
    decreases k,
{
    if k <= 0 {
        0
    } else {
        newer_upto(files, i, k - 1) + if files[k - 1].1 > files[i].1 || (files[k - 1].1
            == files[i].1 && k - 1 < i) {
            1nat
        } else {
            0nat
        }
    }
}

/// Names of the files among the first `k` that are not among the
/// `max_files` newest, in the order given.
pub open spec fn too_old_upto(files: Seq<(String, u128)>, max_files: nat, k: int) -> Seq<Seq<char>>
    decreases k,
{
    if k <= 0 {
        Seq::empty()
    } else {
        too_old_upto(files, max_files, k - 1) + if newer_upto(files, k - 1, files.len() as int)
            >= max_files {
            seq![files[k - 1].0@]
        } else {
            Seq::empty()
        }
    }
}

/// Which of the log files `files` (name and creation time) to delete so
/// that the `max_files` newest remain: those with at least `max_files`
/// files before them newest first, in the order given.
pub fn log_files_to_delete(files: &Vec<(String, u128)>, max_files: u32) -> (r: Vec<String>)
    ensures
        r@.map_values(|s: String| s@) == too_old_upto(files@, max_files as nat, files@.len() as int),
{
    let mut r: Vec<String> = Vec::new();
    let mut i: usize = 0;
    while i < files.len()
        invariant
            i <= files@.len(),
            r@.map_values(|s: String| s@) == too_old_upto(files@, max_files as nat, i as int),
        decreases files.len() - i,
    {
        let mut newer: usize = 0;
        let mut j: usize = 0;
        while j < files.len()
            invariant
                i < files@.len(),
                j <= files@.len(),
                newer == newer_upto(files@, i as int, j as int),
                newer <= j,
            decreases files.len() - j,
        {
            if files[j].1 > files[i].1 || (files[j].1 == files[i].1 && j < i) {
                newer = newer + 1;
            }
            j += 1;
        }
        if newer >= max_files as usize {
            let ghost before = r@;
            r.push(files[i].0.clone());
            assert(r@.map_values(|s: String| s@) =~= before.map_values(|s: String| s@).push(
                files@[i as int].0@,
            ));
        }
        assert(r@.map_values(|s: String| s@) =~= too_old_upto(files@, max_files as nat, i + 1));
        i += 1;
    }
    r
}

/// The name of a new log file, made of the current local time and a random
/// number.
pub fn generate_log_filename() -> (r: String)
    ensures
        exists|stamp: Seq<char>, id: u32|
            file_stamp_shape(stamp) && r@ == "liscov_"@ + stamp + "_"@ + hex8(id) + ".log"@,
{
    let stamp = local_now_file_stamp();
    let id = random_u32();
    let r = log_file_name(stamp.as_str(), id);
    assert(r@ == "liscov_"@ + stamp@ + "_"@ + hex8(id) + ".log"@);
    r
}

} // verus!
