use vstd::prelude::*;

use crate::config::{in_key_cycle, lemma_next_theme_cycle, next_theme, AppConfig, MAX_SAMPLE_MS, MIN_SAMPLE_MS};

verus! {

/// Step by which `+` and `-` change the sampling interval, in milliseconds.
pub const INTERVAL_STEP_MS: u64 = 25;

/// A key the display reacts to.
#[derive(Debug, Clone, Copy, PartialEq, Eq, Structural)]
pub enum Key {
    Char(char),
    Esc,
    Other,
}

/// What a key press does to the display.
#[derive(Debug, Clone, Copy, PartialEq, Eq, Structural)]
pub enum KeyAction {
    /// Leave the program.
    Quit,
    /// Keep running with this configuration; `interval_changed` tells
    /// whether the sampler must be told of a new interval.
    Continue { config: AppConfig, interval_changed: bool },
}

/// The sampling interval after `+`: 25 ms longer, at most `MAX_SAMPLE_MS`.
pub open spec fn longer_interval(ms: u64) -> u64 {
    if ms + INTERVAL_STEP_MS > MAX_SAMPLE_MS {
        MAX_SAMPLE_MS
    } else {
        (ms + INTERVAL_STEP_MS) as u64
    }
}

/// The sampling interval after `-`: 25 ms shorter, at least `MIN_SAMPLE_MS`.
pub open spec fn shorter_interval(ms: u64) -> u64 {
    if ms < MIN_SAMPLE_MS + INTERVAL_STEP_MS {
        MIN_SAMPLE_MS
    } else {
        (ms - INTERVAL_STEP_MS) as u64
    }
}

/// The configuration after a press of `key`: `+` or `=` lengthen the
/// sampling interval, `-` shortens it, `t` moves to the next theme, other
/// keys change nothing.
pub open spec fn configured_by_key(config: AppConfig, key: Key) -> AppConfig {
    match key {
        Key::Char(c) => if c == '+' || c == '=' {
            AppConfig { sample_interval_ms: longer_interval(config.sample_interval_ms), ..config }
        } else if c == '-' {
            AppConfig { sample_interval_ms: shorter_interval(config.sample_interval_ms), ..config }
        } else if c == 't' {
            AppConfig { theme: next_theme(config.theme), ..config }
        } else {
            config
        },
        _ => config,
    }
}

/// Whether `key` ends the program: `q` and Esc do.
pub open spec fn quits(key: Key) -> bool {
    key == Key::Esc || key == Key::Char('q')
}

/// What the display does with a key event: only presses count, `q` and Esc
/// quit, and the other keys act as `configured_by_key` says.
pub open spec fn key_action(config: AppConfig, key: Key, pressed: bool) -> KeyAction {
    if pressed && quits(key) {
        KeyAction::Quit
    } else {
        let next = if pressed { configured_by_key(config, key) } else { config };
        KeyAction::Continue { config: next, interval_changed: next.sample_interval_ms != config.sample_interval_ms }
    }
}

/// Reacts to the key event `key` (`pressed` is false for releases and
/// repeats) in the configuration `config`.
pub fn handle_key(config: AppConfig, key: Key, pressed: bool) -> (r: KeyAction)
    ensures
        r == key_action(config, key, pressed),
        !pressed ==> r == (KeyAction::Continue { config, interval_changed: false }),
{
    if !pressed {
        return KeyAction::Continue { config, interval_changed: false };
    }
    let next = match key {
        Key::Esc => {
            return KeyAction::Quit;
        },
        Key::Other => config,
        Key::Char(c) => {
            if c == 'q' {
                return KeyAction::Quit;
            }
            if c == '+' || c == '=' {
                let ms = if config.sample_interval_ms > MAX_SAMPLE_MS - INTERVAL_STEP_MS {
                    MAX_SAMPLE_MS
                } else {
                    config.sample_interval_ms + INTERVAL_STEP_MS
                };
                AppConfig { sample_interval_ms: ms, ..config }
            } else if c == '-' {
                let ms = if config.sample_interval_ms < MIN_SAMPLE_MS + INTERVAL_STEP_MS {
                    MIN_SAMPLE_MS
                } else {
                    config.sample_interval_ms - INTERVAL_STEP_MS
                };
                AppConfig { sample_interval_ms: ms, ..config }
            } else if c == 't' {
                AppConfig { theme: config.theme.next(), ..config }
            } else {
                config
            }
        },
    };
    KeyAction::Continue { config: next, interval_changed: next.sample_interval_ms != config.sample_interval_ms }
}

/// Only presses act: a release (or repeat) of any key, `q` and Esc
/// included, leaves the configuration as it was and reports no change.
pub proof fn lemma_only_presses_act(config: AppConfig, key: Key)
    ensures
        key_action(config, key, false) == (KeyAction::Continue { config, interval_changed: false }),
{
}

/// One press of `+` (or `=`) lengthens the sampling interval by 25 ms, one
/// press of `-` shortens it by 25 ms, where the limits leave room; the
/// theme and the redraw interval stay, and the change is reported.
pub proof fn lemma_interval_keys_step(config: AppConfig, c: char)
    requires
        c == '+' || c == '=' || c == '-',
        MIN_SAMPLE_MS + 25 <= config.sample_interval_ms <= MAX_SAMPLE_MS - 25,
    ensures
        key_action(config, Key::Char(c), true) == (KeyAction::Continue {
            config: AppConfig {
                sample_interval_ms: (if c == '-' {
                    config.sample_interval_ms - 25
                } else {
                    config.sample_interval_ms + 25
                }) as u64,
                frame_interval_ms: config.frame_interval_ms,
                theme: config.theme,
            },
            interval_changed: true,
        }),
{
}

/// `q` and Esc quit when pressed; no other key does.
pub proof fn lemma_quit_keys(config: AppConfig, key: Key, pressed: bool)
    ensures
        (key_action(config, key, pressed) == KeyAction::Quit) <==> (pressed && (key == Key::Esc || key
            == Key::Char('q'))),
{
}

/// Keys keep the sampling interval inside `MIN_SAMPLE_MS..=MAX_SAMPLE_MS`
/// once it is there, and never touch the redraw interval.
pub proof fn lemma_keys_keep_interval_in_range(config: AppConfig, key: Key, pressed: bool)
    requires
        MIN_SAMPLE_MS <= config.sample_interval_ms <= MAX_SAMPLE_MS,
    ensures
        key_action(config, key, pressed) matches KeyAction::Continue { config: next, .. } ==> MIN_SAMPLE_MS
            <= next.sample_interval_ms <= MAX_SAMPLE_MS && next.frame_interval_ms == config.frame_interval_ms,
{
}

/// Pressing `t` three times brings back a theme of the cycle Ocean, Ember,
/// Mono; from any theme, one press lands in that cycle. The intervals stay
/// as they were.
pub proof fn lemma_theme_key_cycles(config: AppConfig)
    ensures
        in_key_cycle(configured_by_key(config, Key::Char('t')).theme),
        configured_by_key(config, Key::Char('t')).sample_interval_ms == config.sample_interval_ms,
        configured_by_key(config, Key::Char('t')).frame_interval_ms == config.frame_interval_ms,
        in_key_cycle(config.theme) ==> configured_by_key(
            configured_by_key(configured_by_key(config, Key::Char('t')), Key::Char('t')),
            Key::Char('t'),
        ) == config,
{
    lemma_next_theme_cycle(config.theme);
}

/// `+` followed by `-` returns to the interval one started from, unless the
/// upper limit cut the step short.
pub proof fn lemma_longer_then_shorter(ms: u64)
    requires
        MIN_SAMPLE_MS <= ms <= MAX_SAMPLE_MS - INTERVAL_STEP_MS,
    ensures
        shorter_interval(longer_interval(ms)) == ms,
{
}

} // verus!
