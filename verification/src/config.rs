use vstd::prelude::*;

use crate::chars::{chars_of, lemma_lower_trim, lower_chars, parse_u64, parse_u64_chars, same_chars, trim_chars, trimmed_lower};

verus! {

/// The colour themes the monitor can be drawn with.
#[derive(Debug, Clone, Copy, PartialEq, Eq, Structural)]
pub enum ThemeName {
    Ocean,
    Ember,
    Mono,
    GruvboxDark,
}

/// The theme that follows `t`: the themes cycle Ocean, Ember, Mono and back
/// to Ocean; GruvboxDark, which only a setting selects, leads into the cycle
/// at Ocean.
pub open spec fn next_theme(t: ThemeName) -> ThemeName {
    match t {
        ThemeName::Ocean => ThemeName::Ember,
        ThemeName::Ember => ThemeName::Mono,
        ThemeName::Mono => ThemeName::Ocean,
        ThemeName::GruvboxDark => ThemeName::Ocean,
    }
}

/// The themes the `t` key cycles through.
pub open spec fn in_key_cycle(t: ThemeName) -> bool {
    t == ThemeName::Ocean || t == ThemeName::Ember || t == ThemeName::Mono
}

/// `next` walks Ocean, Ember and Mono in a cycle of three: three steps
/// return to the start and fewer never do. From any theme one step lands in
/// that cycle, so GruvboxDark is never reached again.
pub proof fn lemma_next_theme_cycle(t: ThemeName)
    ensures
        in_key_cycle(next_theme(t)),
        in_key_cycle(t) ==> next_theme(next_theme(next_theme(t))) == t,
        next_theme(t) != t,
        in_key_cycle(t) ==> next_theme(next_theme(t)) != t,
{
}

/// Every theme of the cycle is reached from any theme within three steps
/// of `next`.
pub proof fn lemma_next_theme_reaches_all(from: ThemeName, to: ThemeName)
    requires
        in_key_cycle(to),
    ensures
        to == next_theme(from) || to == next_theme(next_theme(from)) || to == next_theme(
            next_theme(next_theme(from)),
        ),
{
}

/// Sampling interval used when nothing else is configured, in milliseconds.
pub const DEFAULT_SAMPLE_MS: u64 = 200;

/// Redraw interval, in milliseconds.
pub const DEFAULT_FRAME_MS: u64 = 100;

/// Shortest sampling interval a setting can ask for, in milliseconds.
pub const MIN_SAMPLE_MS: u64 = 50;

/// Longest sampling interval a setting can ask for, in milliseconds.
pub const MAX_SAMPLE_MS: u64 = 5000;

/// The theme a name selects: the name is trimmed and read without regard
/// to ASCII case.
pub open spec fn theme_for_name(name: Seq<char>) -> Option<ThemeName> {
    let w = lower_chars(trim_chars(name));
    if w == "ocean"@ {
        Some(ThemeName::Ocean)
    } else if w == "ember"@ {
        Some(ThemeName::Ember)
    } else if w == "mono"@ || w == "monochrome"@ {
        Some(ThemeName::Mono)
    } else if w == "gruvbox"@ || w == "gruvbox-dark"@ || w == "gruvbox_dark"@ {
        Some(ThemeName::GruvboxDark)
    } else {
        None
    }
}

/// Theme names are read without regard to ASCII case: two values that
/// differ only in the case of ASCII letters select the same theme.
pub proof fn lemma_theme_name_ignores_ascii_case(a: Seq<char>, b: Seq<char>)
    requires
        lower_chars(a) == lower_chars(b),
    ensures
        theme_for_name(a) == theme_for_name(b),
{
    lemma_lower_trim(a);
    lemma_lower_trim(b);
}

impl ThemeName {
    /// The theme named by `value`, if it names one.
    pub fn parse(value: &str) -> (r: Option<ThemeName>)
        ensures
            r == theme_for_name(value@),
    {
        let w = trimmed_lower(value);
        if same_chars(w.as_slice(), "ocean") {
            Some(ThemeName::Ocean)
        } else if same_chars(w.as_slice(), "ember") {
            Some(ThemeName::Ember)
        } else if same_chars(w.as_slice(), "mono") || same_chars(w.as_slice(), "monochrome") {
            Some(ThemeName::Mono)
        } else if same_chars(w.as_slice(), "gruvbox") || same_chars(w.as_slice(), "gruvbox-dark")
            || same_chars(w.as_slice(), "gruvbox_dark") {
            Some(ThemeName::GruvboxDark)
        } else {
            None
        }
    }

    /// The theme that the `t` key switches to.
    pub fn next(self) -> (r: ThemeName)
        ensures
            r == next_theme(self),
    {
        match self {
            ThemeName::Ocean => ThemeName::Ember,
            ThemeName::Ember => ThemeName::Mono,
            ThemeName::Mono => ThemeName::Ocean,
            ThemeName::GruvboxDark => ThemeName::Ocean,
        }
    }
}

/// `ms` brought into the range `MIN_SAMPLE_MS..=MAX_SAMPLE_MS`.
pub open spec fn clamp_interval(ms: u64) -> u64 {
    if ms < MIN_SAMPLE_MS {
        MIN_SAMPLE_MS
    } else if ms > MAX_SAMPLE_MS {
        MAX_SAMPLE_MS
    } else {
        ms
    }
}

/// The sampling interval after a setting `value`: a number is clamped into
/// range, anything else keeps `current`.
pub open spec fn interval_setting(value: Seq<char>, current: u64) -> u64 {
    match parse_u64_chars(value) {
        Some(ms) => clamp_interval(ms),
        None => current,
    }
}

/// The theme after a setting `value`: a theme name selects it, anything else
/// keeps `current`.
pub open spec fn theme_setting(value: Seq<char>, current: ThemeName) -> ThemeName {
    match theme_for_name(value) {
        Some(t) => t,
        None => current,
    }
}

/// The interval and theme after reading the command-line arguments `args`
/// from the state `(ms, theme)`: `--interval` and `--theme` take the
/// argument that follows them, whatever it is; other arguments are ignored.
pub open spec fn apply_args(ms: u64, theme: ThemeName, args: Seq<Seq<char>>) -> (u64, ThemeName)
    decreases args.len(),
{
    if args.len() == 0 {
        (ms, theme)
    } else if args[0] == "--interval"@ {
        if args.len() >= 2 {
            apply_args(interval_setting(args[1], ms), theme, args.skip(2))
        } else {
            (ms, theme)
        }
    } else if args[0] == "--theme"@ {
        if args.len() >= 2 {
            apply_args(ms, theme_setting(args[1], theme), args.skip(2))
        } else {
            (ms, theme)
        }
    } else {
        apply_args(ms, theme, args.skip(1))
    }
}

/// The interval and theme configured by the environment values
/// `RTOP_INTERVAL_MS` and `RTOP_THEME` (where set) and then the arguments.
pub open spec fn configured(
    env_interval: Option<Seq<char>>,
    env_theme: Option<Seq<char>>,
    args: Seq<Seq<char>>,
) -> (u64, ThemeName) {
    let ms = match env_interval {
        Some(v) => interval_setting(v, DEFAULT_SAMPLE_MS),
        None => DEFAULT_SAMPLE_MS,
    };
    let theme = match env_theme {
        Some(v) => theme_setting(v, ThemeName::GruvboxDark),
        None => ThemeName::GruvboxDark,
    };
    apply_args(ms, theme, args)
}

/// The views of a list of strings.
pub open spec fn string_views(args: Seq<String>) -> Seq<Seq<char>> {
    args.map_values(|a: String| a@)
}

/// The view of an optional string slice.
pub open spec fn opt_view(v: Option<&str>) -> Option<Seq<char>> {
    match v {
        Some(s) => Some(s@),
        None => None,
    }
}

/// Settings of the monitor: how often to sample, how often to redraw, and
/// the colour theme.
#[derive(Debug, Clone, Copy, PartialEq, Eq, Structural)]
pub struct AppConfig {
    pub sample_interval_ms: u64,
    pub frame_interval_ms: u64,
    pub theme: ThemeName,
}

/// Reading arguments keeps an interval in range.
pub proof fn lemma_apply_args_in_range(ms: u64, theme: ThemeName, args: Seq<Seq<char>>)
    requires
        MIN_SAMPLE_MS <= ms <= MAX_SAMPLE_MS,
    ensures
        MIN_SAMPLE_MS <= apply_args(ms, theme, args).0 <= MAX_SAMPLE_MS,
    decreases args.len(),
{
    if args.len() == 0 {
    } else if args[0] == "--interval"@ {
        if args.len() >= 2 {
            lemma_apply_args_in_range(interval_setting(args[1], ms), theme, args.skip(2));
        }
    } else if args[0] == "--theme"@ {
        if args.len() >= 2 {
            lemma_apply_args_in_range(ms, theme_setting(args[1], theme), args.skip(2));
        }
    } else {
        lemma_apply_args_in_range(ms, theme, args.skip(1));
    }
}

/// Whatever the environment and the arguments say, the configured sampling
/// interval lies between `MIN_SAMPLE_MS` and `MAX_SAMPLE_MS`.
pub proof fn lemma_configured_interval_in_range(
    env_interval: Option<Seq<char>>,
    env_theme: Option<Seq<char>>,
    args: Seq<Seq<char>>,
)
    ensures
        MIN_SAMPLE_MS <= configured(env_interval, env_theme, args).0 <= MAX_SAMPLE_MS,
{
    let ms = match env_interval {
        Some(v) => interval_setting(v, DEFAULT_SAMPLE_MS),
        None => DEFAULT_SAMPLE_MS,
    };
    let theme = match env_theme {
        Some(v) => theme_setting(v, ThemeName::GruvboxDark),
        None => ThemeName::GruvboxDark,
    };
    lemma_apply_args_in_range(ms, theme, args);
}

/// An `--interval` whose value is not a number changes nothing: reading it
/// and its value leaves the interval and theme as they were, so the setting
/// that came before (the environment's, the default, or an earlier
/// argument) stands.
pub proof fn lemma_bad_interval_keeps_setting(ms: u64, theme: ThemeName, value: Seq<char>, rest: Seq<Seq<char>>)
    requires
        parse_u64_chars(value) is None,
    ensures
        apply_args(ms, theme, seq!["--interval"@, value] + rest) == apply_args(ms, theme, rest),
{
    let args = seq!["--interval"@, value] + rest;
    assert(args[0] == "--interval"@);
    assert(args[1] == value);
    assert(args.skip(2) =~= rest);
}

/// The same for the whole configuration: a leading `--interval` with a
/// value that is not a number leaves the configuration that the environment
/// and the other arguments give.
pub proof fn lemma_bad_interval_argument_ignored(
    env_interval: Option<Seq<char>>,
    env_theme: Option<Seq<char>>,
    value: Seq<char>,
    rest: Seq<Seq<char>>,
)
    requires
        parse_u64_chars(value) is None,
    ensures
        configured(env_interval, env_theme, seq!["--interval"@, value] + rest) == configured(
            env_interval,
            env_theme,
            rest,
        ),
{
    let ms = match env_interval {
        Some(v) => interval_setting(v, DEFAULT_SAMPLE_MS),
        None => DEFAULT_SAMPLE_MS,
    };
    let theme = match env_theme {
        Some(v) => theme_setting(v, ThemeName::GruvboxDark),
        None => ThemeName::GruvboxDark,
    };
    lemma_bad_interval_keeps_setting(ms, theme, value, rest);
}

/// A number as `RTOP_INTERVAL_MS` sets the interval (clamped into range)
/// unless an argument sets it again; any other value leaves the default.
pub proof fn lemma_env_interval(env_interval: Seq<char>, env_theme: Option<Seq<char>>)
    ensures
        configured(Some(env_interval), env_theme, Seq::empty()).0 == match parse_u64_chars(env_interval) {
            Some(n) => if n < MIN_SAMPLE_MS {
                MIN_SAMPLE_MS
            } else if n > MAX_SAMPLE_MS {
                MAX_SAMPLE_MS
            } else {
                n
            },
            None => DEFAULT_SAMPLE_MS,
        },
{
}

fn interval_from(value: &str, current: u64) -> (r: u64)
    ensures
        r == interval_setting(value@, current),
{
    match parse_u64(value) {
        Some(ms) => if ms < MIN_SAMPLE_MS {
            MIN_SAMPLE_MS
        } else if ms > MAX_SAMPLE_MS {
            MAX_SAMPLE_MS
        } else {
            ms
        },
        None => current,
    }
}

fn theme_from(value: &str, current: ThemeName) -> (r: ThemeName)
    ensures
        r == theme_setting(value@, current),
{
    match ThemeName::parse(value) {
        Some(t) => t,
        None => current,
    }
}

impl AppConfig {
    /// The configuration given by the values of `RTOP_INTERVAL_MS` and
    /// `RTOP_THEME` (`None` where unset) and by the command-line arguments
    /// after the program name; later settings override earlier ones.
    pub fn from_sources(env_interval: Option<&str>, env_theme: Option<&str>, args: &Vec<String>) -> (r: AppConfig)
        ensures
            (r.sample_interval_ms, r.theme) == configured(opt_view(env_interval), opt_view(env_theme), string_views(args@)),
            r.frame_interval_ms == DEFAULT_FRAME_MS,
            MIN_SAMPLE_MS <= r.sample_interval_ms <= MAX_SAMPLE_MS,
    {
        proof {
            lemma_configured_interval_in_range(opt_view(env_interval), opt_view(env_theme), string_views(args@));
        }
        let mut ms = match env_interval {
            Some(v) => interval_from(v, DEFAULT_SAMPLE_MS),
            None => DEFAULT_SAMPLE_MS,
        };
        let mut theme = match env_theme {
            Some(v) => theme_from(v, ThemeName::GruvboxDark),
            None => ThemeName::GruvboxDark,
        };
        let ghost all = string_views(args@);
        assert(all.skip(0) =~= all);
        let n = args.len();
        let mut i: usize = 0;
        while i < n
            invariant
                n == args@.len(),
                all == string_views(args@),
                i <= n,
                MIN_SAMPLE_MS <= configured(opt_view(env_interval), opt_view(env_theme), all).0 <= MAX_SAMPLE_MS,
                configured(opt_view(env_interval), opt_view(env_theme), all) == apply_args(ms, theme, all.skip(i as int)),
            decreases n - i,
        {
            let ghost rest = all.skip(i as int);
            let arg = args[i].as_str();
            assert(rest[0] == arg@);
            if same_chars(chars_of(arg).as_slice(), "--interval") {
                if i + 1 < n {
                    let value = args[i + 1].as_str();
                    assert(rest[1] == value@);
                    assert(rest.skip(2) =~= all.skip(i + 2));
                    ms = interval_from(value, ms);
                    i = i + 2;
                } else {
                    assert(rest.len() == 1);
                    return AppConfig { sample_interval_ms: ms, frame_interval_ms: DEFAULT_FRAME_MS, theme };
                }
            } else if same_chars(chars_of(arg).as_slice(), "--theme") {
                if i + 1 < n {
                    let value = args[i + 1].as_str();
                    assert(rest[1] == value@);
                    assert(rest.skip(2) =~= all.skip(i + 2));
                    theme = theme_from(value, theme);
                    i = i + 2;
                } else {
                    assert(rest.len() == 1);
                    return AppConfig { sample_interval_ms: ms, frame_interval_ms: DEFAULT_FRAME_MS, theme };
                }
            } else {
                assert(rest.skip(1) =~= all.skip(i + 1));
                i = i + 1;
            }
        }
        assert(all.skip(i as int).len() == 0);
        AppConfig { sample_interval_ms: ms, frame_interval_ms: DEFAULT_FRAME_MS, theme }
    }
}

} // verus!
