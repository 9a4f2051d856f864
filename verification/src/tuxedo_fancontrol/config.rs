//! Configuration and state of the stand-alone fan controller.
use vstd::prelude::*;

verus! {

/// The configuration file version this controller understands.
pub const CONFIG_VERSION: u8 = 1;

/// Lowest accepted history store, in seconds.
pub const MINIMAL_HISTORY_STORE: u32 = 30;

/// Lowest accepted number of history entries.
pub const MINIMAL_HISTORY_ENTRIES: u32 = 30;

/// Lowest accepted check delay, in milliseconds.
pub const MINIMAL_CHECK_DELAY: u64 = 100;

/// Highest accepted check delay, in milliseconds.
pub const MAXIMAL_CHECK_DELAY: u64 = 10000;

/// One point of the temperature profile: at `temp` °C the fan should run at
/// `fan` percent.
#[derive(Debug, Clone, Copy, PartialEq, Eq, Structural)]
pub struct TempProfile {
    pub temp: u8,
    pub fan: u8,
}

/// The fan controller's configuration.
#[derive(Debug)]
pub struct Config {
    /// How long the temperature history reaches back, in seconds.
    pub history_store: u32,
    /// Delay between two checks, in milliseconds.
    pub check_delay: u64,
    /// The temperature profile.
    pub temp_profile: Vec<TempProfile>,
    /// Version of the configuration file.
    pub version: u8,
}

/// Whether the last speed change raised or lowered the fan speed.
#[derive(Debug, PartialEq, Eq, Clone, Copy, Structural)]
pub enum FanEvolution {
    Increasing,
    Decreasing,
}

/// The fan's control state.
#[derive(Debug)]
pub struct FanData {
    /// Number of loop iterations since the fan speed has been changed.
    pub last_update_loop: u32,
    /// Whether the last update increased or decreased the fan speed.
    pub last_fan_evolution: FanEvolution,
    /// Percentage of the current fan speed.
    pub fan_speed: u8,
}

/// Why a configuration is refused.
#[derive(Debug, PartialEq, Eq, Clone, Copy, Structural)]
pub enum ConfigError {
    /// The file's version is not the one this controller understands.
    ObsoleteVersion,
    /// The history store holds fewer entries than the minimum at this check delay.
    HistoryTooShortForCheckDelay,
    /// The history store is below the minimum.
    HistoryStoreTooLow,
    /// The check delay is below the minimum.
    CheckDelayTooLow,
    /// The check delay is above the maximum.
    CheckDelayTooHigh,
    /// A temperature of the profile is above 100 °C.
    TemperatureAbove100,
    /// A fan speed of the profile is above 100 %.
    FanSpeedAbove100,
    /// The temperatures of the profile do not strictly increase from 0.
    TemperatureNotIncreasing,
    /// The fan speeds of the profile do not strictly increase from 0.
    FanSpeedNotIncreasing,
}

/// The outcome of checking a configuration.
#[derive(Debug)]
pub struct ConfigReport {
    /// The history store is low (below twice the minimum); reported only when
    /// the checks before it passed.
    pub low_history_store: bool,
    /// The first problem found, if any.
    pub error: Option<ConfigError>,
}

/// The number of history entries: the history store (in ms) divided by the
/// check delay (taken as a 32-bit value).
pub open spec fn history_entries(history_store: u32, check_delay: u64) -> int {
    (history_store * 1000) / ((check_delay as u32) as int)
}

/// What is wrong with entry `i` of a profile given the entry before it
/// (temperature and fan speed both start from 0).
pub open spec fn entry_error(s: Seq<TempProfile>, i: int) -> Option<ConfigError> {
    let prev_temp: int = if i == 0 { 0 } else { s[i - 1].temp as int };
    let prev_fan: int = if i == 0 { 0 } else { s[i - 1].fan as int };
    if s[i].temp > 100 {
        Some(ConfigError::TemperatureAbove100)
    } else if s[i].fan > 100 {
        Some(ConfigError::FanSpeedAbove100)
    } else if prev_temp >= s[i].temp {
        Some(ConfigError::TemperatureNotIncreasing)
    } else if prev_fan >= s[i].fan {
        Some(ConfigError::FanSpeedNotIncreasing)
    } else {
        None
    }
}

/// The first problem of the profile from entry `i` on.
pub open spec fn profile_error_from(s: Seq<TempProfile>, i: int) -> Option<ConfigError>
    decreases s.len() - i,
{
    if i < 0 || i >= s.len() {
        None
    } else if entry_error(s, i) is Some {
        entry_error(s, i)
    } else {
        profile_error_from(s, i + 1)
    }
}

/// The first problem of a configuration, in the order the checks run.
pub open spec fn config_error(c: Config) -> Option<ConfigError> {
    if c.version != CONFIG_VERSION {
        Some(ConfigError::ObsoleteVersion)
    } else if history_entries(c.history_store, c.check_delay) < MINIMAL_HISTORY_ENTRIES {
        Some(ConfigError::HistoryTooShortForCheckDelay)
    } else if c.history_store < MINIMAL_HISTORY_STORE {
        Some(ConfigError::HistoryStoreTooLow)
    } else if c.check_delay < MINIMAL_CHECK_DELAY {
        Some(ConfigError::CheckDelayTooLow)
    } else if c.check_delay > MAXIMAL_CHECK_DELAY {
        Some(ConfigError::CheckDelayTooHigh)
    } else {
        profile_error_from(c.temp_profile@, 0)
    }
}

/// The arithmetic of the history check is defined: the history store in
/// milliseconds fits 32 bits and the check delay, taken as a 32-bit value,
/// is not 0.
pub open spec fn config_checkable(c: Config) -> bool {
    c.history_store * 1000 <= u32::MAX && (c.check_delay as u32) != 0
}

proof fn lemma_profile_error_prefix(s: Seq<TempProfile>, i: int)
    requires
        0 <= i <= s.len(),
        forall|k: int| 0 <= k < i ==> entry_error(s, k) is None,
    ensures
        profile_error_from(s, 0) == profile_error_from(s, i),
    decreases i,
{
    if i > 0 {
        lemma_profile_error_prefix(s, i - 1);
    }
}

impl Config {
    /// Checks the configuration for blatant issues, in this order: the
    /// version, the number of history entries, the history store, the check
    /// delay (too low, too high), then each profile entry (temperature and
    /// fan speed at most 100, both strictly increasing from 0).
    pub fn check(&self) -> (report: ConfigReport)
        requires
            config_checkable(*self),
        ensures
            report.error == config_error(*self),
            report.low_history_store == (self.version == CONFIG_VERSION && history_entries(
                self.history_store,
                self.check_delay,
            ) >= MINIMAL_HISTORY_ENTRIES && self.history_store >= MINIMAL_HISTORY_STORE
                && self.history_store < MINIMAL_HISTORY_STORE * 2),
    {
        // check config version
        if self.version != CONFIG_VERSION {
            return ConfigReport { low_history_store: false, error: Some(ConfigError::ObsoleteVersion) };
        }
        // check if history_max_entries will be high enough
        if self.history_store * 1000 / (#[verifier::truncate] (self.check_delay as u32))
            < MINIMAL_HISTORY_ENTRIES {
            return ConfigReport {
                low_history_store: false,
                error: Some(ConfigError::HistoryTooShortForCheckDelay),
            };
        }
        // check if history_store is high enough
        if self.history_store < MINIMAL_HISTORY_STORE {
            return ConfigReport {
                low_history_store: false,
                error: Some(ConfigError::HistoryStoreTooLow),
            };
        }
        // a non-blocking warning
        let low_history_store = self.history_store < MINIMAL_HISTORY_STORE * 2;
        // check if check_delay seems reasonable
        if self.check_delay < MINIMAL_CHECK_DELAY {
            return ConfigReport { low_history_store, error: Some(ConfigError::CheckDelayTooLow) };
        }
        if self.check_delay > MAXIMAL_CHECK_DELAY {
            return ConfigReport { low_history_store, error: Some(ConfigError::CheckDelayTooHigh) };
        }
        // the fan speed AND temperature must always be defined between 1-100
        let ghost s = self.temp_profile@;
        let mut temp_minimal: u8 = 0;
        let mut fan_minimal: u8 = 0;
        let mut i: usize = 0;
        while i < self.temp_profile.len()
            invariant
                s == self.temp_profile@,
                0 <= i <= s.len(),
                config_error(*self) == profile_error_from(s, 0),
                low_history_store == (self.version == CONFIG_VERSION && history_entries(
                    self.history_store,
                    self.check_delay,
                ) >= MINIMAL_HISTORY_ENTRIES && self.history_store >= MINIMAL_HISTORY_STORE
                    && self.history_store < MINIMAL_HISTORY_STORE * 2),
                forall|k: int| 0 <= k < i ==> entry_error(s, k) is None,
                temp_minimal == (if i == 0 { 0 } else { s[i - 1].temp }),
                fan_minimal == (if i == 0 { 0 } else { s[i - 1].fan }),
            decreases s.len() - i,
        {
            let entry = self.temp_profile[i];
            let err = if entry.temp > 100 {
                Some(ConfigError::TemperatureAbove100)
            } else if entry.fan > 100 {
                Some(ConfigError::FanSpeedAbove100)
            } else if temp_minimal >= entry.temp {
                Some(ConfigError::TemperatureNotIncreasing)
            } else if fan_minimal >= entry.fan {
                Some(ConfigError::FanSpeedNotIncreasing)
            } else {
                None
            };
            assert(err == entry_error(s, i as int));
            if err.is_some() {
                proof {
                    lemma_profile_error_prefix(s, i as int);
                }
                return ConfigReport { low_history_store, error: err };
            }
            temp_minimal = entry.temp;
            fan_minimal = entry.fan;
            i = i + 1;
        }
        proof {
            lemma_profile_error_prefix(s, i as int);
        }
        ConfigReport { low_history_store, error: None }
    }

    /// The number of temperature history entries to keep.
    pub fn history_max_entries(&self) -> (n: u32)
        requires
            config_checkable(*self),
        ensures
            n == history_entries(self.history_store, self.check_delay),
    {
        self.history_store * 1000 / (#[verifier::truncate] (self.check_delay as u32))
    }
}

/// A configuration that passes the check has a temperature profile whose
/// temperatures and fan speeds strictly increase, all between 1 and 100, and
/// it keeps at least the minimal number of history entries.
pub proof fn lemma_accepted_config(c: Config)
    requires
        config_error(c) is None,
    ensures
        forall|i: int, j: int|
            0 <= i < j < c.temp_profile@.len() ==> #[trigger] c.temp_profile@[i].temp
                < #[trigger] c.temp_profile@[j].temp && c.temp_profile@[i].fan
                < c.temp_profile@[j].fan,
        forall|i: int|
            0 <= i < c.temp_profile@.len() ==> 1 <= #[trigger] c.temp_profile@[i].temp <= 100
                && 1 <= c.temp_profile@[i].fan <= 100,
        history_entries(c.history_store, c.check_delay) >= MINIMAL_HISTORY_ENTRIES,
        MINIMAL_CHECK_DELAY <= c.check_delay <= MAXIMAL_CHECK_DELAY,
{
    let s = c.temp_profile@;
    assert forall|k: int| 0 <= k < s.len() implies entry_error(s, k) is None by {
        lemma_profile_error_none_from(s, 0, k);
    }
    assert forall|i: int, j: int| 0 <= i < j < s.len() implies #[trigger] s[i].temp
        < #[trigger] s[j].temp && s[i].fan < s[j].fan by {
        lemma_increasing_between(s, i, j);
    }
    assert forall|i: int| 0 <= i < s.len() implies 1 <= #[trigger] s[i].temp <= 100 && 1
        <= s[i].fan <= 100 by {
        assert(entry_error(s, i) is None);
        if i > 0 {
            assert(entry_error(s, i - 1) is None);
        }
    }
}

proof fn lemma_profile_error_none_from(s: Seq<TempProfile>, i: int, k: int)
    requires
        0 <= i <= k < s.len(),
        profile_error_from(s, i) is None,
    ensures
        entry_error(s, k) is None,
    decreases k - i,
{
    if i < k {
        lemma_profile_error_none_from(s, i + 1, k);
    }
}

proof fn lemma_increasing_between(s: Seq<TempProfile>, i: int, j: int)
    requires
        0 <= i < j < s.len(),
        forall|k: int| 0 <= k < s.len() ==> entry_error(s, k) is None,
    ensures
        s[i].temp < s[j].temp,
        s[i].fan < s[j].fan,
    decreases j - i,
{
    assert(entry_error(s, j) is None);
    if i < j - 1 {
        lemma_increasing_between(s, i, j - 1);
    }
}

/// A problem found from entry `i` on is the problem of some entry at or
/// after `i`.
proof fn lemma_profile_error_names_entry(s: Seq<TempProfile>, i: int)
    requires
        0 <= i,
    ensures
        profile_error_from(s, i) is Some ==> exists|k: int|
            i <= k < s.len() && #[trigger] entry_error(s, k) == profile_error_from(s, i),
    decreases s.len() - i,
{
    if i < s.len() && entry_error(s, i) is None {
        lemma_profile_error_names_entry(s, i + 1);
    }
}

/// Each problem the check reports is a rule the configuration breaks: a
/// version other than 1, fewer than 30 history entries, a history store
/// below 30 s, a check delay below 100 ms or above 10000 ms, a temperature
/// or a fan speed above 100, or a temperature or fan speed that does not rise
/// above the one before it (or above 0 for the first entry). A wrong version
/// is always the problem reported.
pub proof fn lemma_config_errors(c: Config)
    ensures
        c.version != 1 <==> config_error(c) == Some(ConfigError::ObsoleteVersion),
        config_error(c) == Some(ConfigError::HistoryTooShortForCheckDelay) ==> history_entries(
            c.history_store,
            c.check_delay,
        ) < 30,
        config_error(c) == Some(ConfigError::HistoryStoreTooLow) ==> c.history_store < 30,
        config_error(c) == Some(ConfigError::CheckDelayTooLow) ==> c.check_delay < 100,
        config_error(c) == Some(ConfigError::CheckDelayTooHigh) ==> c.check_delay > 10000,
        config_error(c) == Some(ConfigError::TemperatureAbove100) ==> exists|k: int|
            0 <= k < c.temp_profile@.len() && #[trigger] c.temp_profile@[k].temp > 100,
        config_error(c) == Some(ConfigError::FanSpeedAbove100) ==> exists|k: int|
            0 <= k < c.temp_profile@.len() && #[trigger] c.temp_profile@[k].fan > 100,
        config_error(c) == Some(ConfigError::TemperatureNotIncreasing) ==> exists|k: int|
            0 <= k < c.temp_profile@.len() && (if k == 0 {
                0
            } else {
                c.temp_profile@[k - 1].temp as int
            }) >= #[trigger] c.temp_profile@[k].temp,
        config_error(c) == Some(ConfigError::FanSpeedNotIncreasing) ==> exists|k: int|
            0 <= k < c.temp_profile@.len() && (if k == 0 {
                0
            } else {
                c.temp_profile@[k - 1].fan as int
            }) >= #[trigger] c.temp_profile@[k].fan,
{
    let s = c.temp_profile@;
    lemma_profile_error_names_entry(s, 0);
    if config_error(c) == profile_error_from(s, 0) && profile_error_from(s, 0) is Some {
        let k = choose|k: int| 0 <= k < s.len() && #[trigger] entry_error(s, k) == profile_error_from(s, 0);
        assert(entry_error(s, k) is Some);
        assert(s[k] == c.temp_profile@[k]);
    }
}

} // verus!
