//! Configuration, read from environment variables and an optional TOML file whose
//! keys are the same variable names. Environment variables take precedence over the
//! file.

use vstd::prelude::*;

use crate::path;
use crate::text;
use crate::time::Duration;

verus! {

pub const DEFAULT_DAEMON_NAME: &'static str = "midnight-node";

pub const DEFAULT_RPC_URL: &'static str = "http://127.0.0.1:9944";

/// In seconds.
pub const DEFAULT_POLL_INTERVAL: u64 = 5;

/// In seconds.
pub const DEFAULT_SHUTDOWN_GRACE: u64 = 60;

pub const ENV_HOME: &'static str = "DAEMON_HOME";

pub const ENV_NAME: &'static str = "DAEMON_NAME";

pub const ENV_RPC_URL: &'static str = "DAEMON_RPC_URL";

pub const ENV_POLL_INTERVAL: &'static str = "DAEMON_POLL_INTERVAL";

pub const ENV_UPGRADE_FINALITY: &'static str = "DAEMON_UPGRADE_FINALITY";

pub const ENV_ALLOW_DOWNLOAD: &'static str = "DAEMON_ALLOW_DOWNLOAD_BINARIES";

pub const ENV_MUST_HAVE_CHECKSUM: &'static str = "DAEMON_DOWNLOAD_MUST_HAVE_CHECKSUM";

pub const ENV_RESTART_AFTER_UPGRADE: &'static str = "DAEMON_RESTART_AFTER_UPGRADE";

pub const ENV_RESTART_DELAY: &'static str = "DAEMON_RESTART_DELAY";

pub const ENV_SHUTDOWN_GRACE: &'static str = "DAEMON_SHUTDOWN_GRACE";

pub const ENV_DATA_DIR: &'static str = "DAEMON_DATA_DIR";

pub const ENV_BACKUP_DIR: &'static str = "DAEMON_DATA_BACKUP_DIR";

pub const ENV_SKIP_BACKUP: &'static str = "UNSAFE_SKIP_BACKUP";

pub const ENV_PREUPGRADE_SCRIPT: &'static str = "DAEMON_PREUPGRADE_SCRIPT";

pub const ENV_DISABLE_LOGS: &'static str = "MIDNIGHT_NODE_UPDATER_DISABLE_LOGS";

/// Which block the upgrade triggers are evaluated against.
#[derive(Debug, Clone, Copy, PartialEq, Eq, Structural)]
pub enum Finality {
    /// The best (head) block. Reacts fastest; the default.
    Best,
    /// The last GRANDPA-finalized block. Never reacts to a block that may be reorged
    /// away.
    Finalized,
}

/// The settings whose texts have to be read further.
#[derive(Debug, Clone, Copy, PartialEq, Eq, Structural)]
pub enum Setting {
    PollInterval,
    AllowDownload,
    MustHaveChecksum,
    RestartAfterUpgrade,
    RestartDelay,
    ShutdownGrace,
    SkipBackup,
    DisableLogs,
}

/// Why a configuration is refused.
#[derive(Debug, Clone, Copy, PartialEq, Eq, Structural)]
pub enum ConfigError {
    HomeNotSet,
    HomeNotAbsolute,
    /// The daemon name is empty or holds a slash.
    BadName,
    /// The finality is neither `best` nor `finalized`.
    BadFinality,
    /// The text is not a duration such as `5s` or `300ms`.
    BadDuration(Setting),
    BadBoolean(Setting),
    ZeroPollInterval,
}

/// Why no configuration could be loaded.
#[derive(Debug)]
pub enum LoadError {
    /// The configuration file is no TOML document.
    Syntax(toml::de::Error),
    /// The configuration file gives this key a value that can be no setting.
    Unsupported(String),
    Invalid(ConfigError),
}

/// The texts of all settings, each where it is given.
#[derive(Debug)]
pub struct Settings {
    pub home: Option<String>,
    pub name: Option<String>,
    pub rpc_url: Option<String>,
    pub poll_interval: Option<String>,
    pub finality: Option<String>,
    pub allow_download: Option<String>,
    pub must_have_checksum: Option<String>,
    pub restart_after_upgrade: Option<String>,
    pub restart_delay: Option<String>,
    pub shutdown_grace: Option<String>,
    pub data_dir: Option<String>,
    pub backup_dir: Option<String>,
    pub skip_backup: Option<String>,
    pub preupgrade_script: Option<String>,
    pub disable_logs: Option<String>,
}

/// The texts of all settings, each where it is given.
pub struct SettingsView {
    pub home: Option<Seq<char>>,
    pub name: Option<Seq<char>>,
    pub rpc_url: Option<Seq<char>>,
    pub poll_interval: Option<Seq<char>>,
    pub finality: Option<Seq<char>>,
    pub allow_download: Option<Seq<char>>,
    pub must_have_checksum: Option<Seq<char>>,
    pub restart_after_upgrade: Option<Seq<char>>,
    pub restart_delay: Option<Seq<char>>,
    pub shutdown_grace: Option<Seq<char>>,
    pub data_dir: Option<Seq<char>>,
    pub backup_dir: Option<Seq<char>>,
    pub skip_backup: Option<Seq<char>>,
    pub preupgrade_script: Option<Seq<char>>,
    pub disable_logs: Option<Seq<char>>,
}

/// The view of an optional text.
pub open spec fn opt_text(s: Option<String>) -> Option<Seq<char>> {
    match s {
        Some(t) => Some(t@),
        None => None,
    }
}

impl View for Settings {
    type V = SettingsView;

    open spec fn view(&self) -> SettingsView {
        SettingsView {
            home: opt_text(self.home),
            name: opt_text(self.name),
            rpc_url: opt_text(self.rpc_url),
            poll_interval: opt_text(self.poll_interval),
            finality: opt_text(self.finality),
            allow_download: opt_text(self.allow_download),
            must_have_checksum: opt_text(self.must_have_checksum),
            restart_after_upgrade: opt_text(self.restart_after_upgrade),
            restart_delay: opt_text(self.restart_delay),
            shutdown_grace: opt_text(self.shutdown_grace),
            data_dir: opt_text(self.data_dir),
            backup_dir: opt_text(self.backup_dir),
            skip_backup: opt_text(self.skip_backup),
            preupgrade_script: opt_text(self.preupgrade_script),
            disable_logs: opt_text(self.disable_logs),
        }
    }
}

#[derive(Debug)]
pub struct Config {
    pub home: String,
    pub name: String,
    pub rpc_url: String,
    pub poll_interval: Duration,
    pub finality: Finality,
    pub allow_download: bool,
    pub download_must_have_checksum: bool,
    pub restart_after_upgrade: bool,
    pub restart_delay: Duration,
    pub shutdown_grace: Duration,
    pub data_dir: Option<String>,
    pub backup_dir: Option<String>,
    pub unsafe_skip_backup: bool,
    pub preupgrade_script: Option<String>,
    pub disable_logs: bool,
}

/// What a configuration says.
pub struct ConfigView {
    pub home: Seq<char>,
    pub name: Seq<char>,
    pub rpc_url: Seq<char>,
    pub poll_interval: Duration,
    pub finality: Finality,
    pub allow_download: bool,
    pub download_must_have_checksum: bool,
    pub restart_after_upgrade: bool,
    pub restart_delay: Duration,
    pub shutdown_grace: Duration,
    pub data_dir: Option<Seq<char>>,
    pub backup_dir: Option<Seq<char>>,
    pub unsafe_skip_backup: bool,
    pub preupgrade_script: Option<Seq<char>>,
    pub disable_logs: bool,
}

impl View for Config {
    type V = ConfigView;

    open spec fn view(&self) -> ConfigView {
        ConfigView {
            home: self.home@,
            name: self.name@,
            rpc_url: self.rpc_url@,
            poll_interval: self.poll_interval,
            finality: self.finality,
            allow_download: self.allow_download,
            download_must_have_checksum: self.download_must_have_checksum,
            restart_after_upgrade: self.restart_after_upgrade,
            restart_delay: self.restart_delay,
            shutdown_grace: self.shutdown_grace,
            data_dir: opt_text(self.data_dir),
            backup_dir: opt_text(self.backup_dir),
            unsafe_skip_backup: self.unsafe_skip_backup,
            preupgrade_script: opt_text(self.preupgrade_script),
            disable_logs: self.disable_logs,
        }
    }
}

/// A given text, or else the default.
pub open spec fn text_or(value: Option<Seq<char>>, default: Seq<char>) -> Seq<char> {
    match value {
        Some(t) => t,
        None => default,
    }
}

/// The truth value that a text stands for; the default where there is no text.
pub open spec fn boolean_of(value: Option<Seq<char>>, default: bool) -> Option<bool> {
    match value {
        None => Some(default),
        Some(t) => {
            let word = text::lower(t);
            if word == "1"@ || word == "true"@ || word == "yes"@ || word == "on"@ {
                Some(true)
            } else if word == "0"@ || word == "false"@ || word == "no"@ || word == "off"@ {
                Some(false)
            } else {
                None
            }
        },
    }
}

/// The finality that a text stands for; `best` where there is no text.
pub open spec fn finality_of(value: Option<Seq<char>>) -> Option<Finality> {
    match value {
        None => Some(Finality::Best),
        Some(t) => if text::lower(t) == "best"@ {
            Some(Finality::Best)
        } else if text::lower(t) == "finalized"@ {
            Some(Finality::Finalized)
        } else {
            None
        },
    }
}

/// A letter of a unit of time.
pub open spec fn unit_letter(c: char) -> bool {
    'a' <= c && c <= 'z' || 'A' <= c && c <= 'Z' || c == '\u{b5}'
}

/// How long the unit is that `s` starts with, in nanoseconds. The first letters tell the
/// units apart; a month is 30.44 days and a year 365.25. What is no unit has no length.
pub open spec fn unit_length(s: Seq<char>) -> nat {
    if s.len() == 0 {
        0
    } else if s[0] == 'n' {
        1
    } else if s[0] == 'u' || s[0] == '\u{b5}' {
        1_000
    } else if s[0] == 'm' && s.len() > 1 && s[1] == 's' {
        1_000_000
    } else if s[0] == 'm' && s.len() > 2 && s[1] == 'i' && s[2] == 'l' {
        1_000_000
    } else if s[0] == 's' {
        1_000_000_000
    } else if s[0] == 'm' && s.len() > 1 && s[1] == 'o' || s[0] == 'M' {
        2_630_016_000_000_000
    } else if s[0] == 'm' {
        60_000_000_000
    } else if s[0] == 'h' {
        3_600_000_000_000
    } else if s[0] == 'd' {
        86_400_000_000_000
    } else if s[0] == 'w' {
        604_800_000_000_000
    } else if s[0] == 'y' {
        31_557_600_000_000_000
    } else {
        0
    }
}

pub open spec fn is_digit(c: char) -> bool {
    '0' <= c && c <= '9'
}

/// The value of a decimal digit.
pub open spec fn digit_value(c: char) -> nat {
    (c as nat - '0' as nat) as nat
}

/// A decimal number, as far as it has been read: its whole part, and the fraction behind
/// it, which is `num / den`.
pub struct Decimal {
    pub whole: nat,
    pub num: nat,
    pub den: nat,
    /// The decimal point was read.
    pub point: bool,
}

/// The longest fraction that is read has nineteen digits.
pub const FRACTION_LIMIT: u128 = 10_000_000_000_000_000_000;

impl Decimal {
    pub open spec fn zero() -> Decimal {
        Decimal { whole: 0, num: 0, den: 1, point: false }
    }

    /// The number with one more character of it read.
    pub open spec fn with(self, c: char) -> Decimal {
        if c == '.' {
            Decimal { point: true, ..self }
        } else if !is_digit(c) {
            self
        } else if self.point {
            Decimal { num: 10 * self.num + digit_value(c), den: 10 * self.den, ..self }
        } else {
            Decimal { whole: 10 * self.whole + digit_value(c), ..self }
        }
    }

    /// This many times a unit.
    pub open spec fn times(self, unit: nat) -> nat {
        self.whole * unit + if self.den <= FRACTION_LIMIT {
            self.num * unit / self.den
        } else {
            0
        }
    }
}

/// The nanoseconds that `s` spells out: the sum of its numbers, each with the unit behind
/// it. `number` is what was read of the first number.
pub open spec fn spelled_from(s: Seq<char>, number: Decimal) -> nat
    decreases s.len(),
{
    if s.len() == 0 {
        0
    } else if unit_letter(s[0]) {
        number.times(unit_length(s)) + spelled_from(s.drop_first(), Decimal::zero())
    } else {
        spelled_from(s.drop_first(), number.with(s[0]))
    }
}

/// The nanoseconds that `s` spells out.
pub open spec fn spelled(s: Seq<char>) -> nat {
    spelled_from(s, Decimal::zero())
}

/// The nanoseconds of a span.
pub open spec fn nanoseconds(d: Duration) -> nat {
    d.secs as nat * 1_000_000_000 + d.nanos as nat
}

/// The first number of nanoseconds that no span has: the seconds of a span are a `u64`.
pub const SPAN_END: u128 = 18_446_744_073_709_551_616_000_000_000;

/// What `s` spells out is no longer than a span can be.
pub open spec fn fits_duration(s: Seq<char>) -> bool {
    spelled(s) < SPAN_END
}

/// The span that a text stands for; the default where there is no text.
pub open spec fn duration_of(value: Option<Seq<char>>, default: Duration) -> Option<Duration> {
    match value {
        None => Some(default),
        Some(t) => if fits_duration(t) {
            humantime_duration(t)
        } else {
            None
        },
    }
}

/// `d` is as long as the text spells out, where there is a text.
pub open spec fn as_spelled(value: Option<Seq<char>>, d: Duration) -> bool {
    value matches Some(t) ==> nanoseconds(d) == spelled(t)
}

/// The spans that the settings stand for; none for a text that stands for none.
#[derive(Debug, Clone, Copy, PartialEq, Eq, Structural)]
pub struct Spans {
    pub poll: Option<Duration>,
    pub delay: Option<Duration>,
    pub grace: Option<Duration>,
}

impl SettingsView {
    pub open spec fn daemon_name(self) -> Seq<char> {
        text_or(self.name, DEFAULT_DAEMON_NAME@)
    }

    pub open spec fn poll_span(self) -> Option<Duration> {
        duration_of(self.poll_interval, Duration { secs: DEFAULT_POLL_INTERVAL, nanos: 0 })
    }

    pub open spec fn delay_span(self) -> Option<Duration> {
        duration_of(self.restart_delay, Duration { secs: 0, nanos: 0 })
    }

    pub open spec fn grace_span(self) -> Option<Duration> {
        duration_of(self.shutdown_grace, Duration { secs: DEFAULT_SHUTDOWN_GRACE, nanos: 0 })
    }

    /// The spans that the settings stand for.
    pub open spec fn spans(self) -> Spans {
        Spans { poll: self.poll_span(), delay: self.delay_span(), grace: self.grace_span() }
    }

    /// Why the settings make no configuration.
    pub open spec fn fault(self) -> Option<ConfigError> {
        self.fault_with(self.spans())
    }

    /// The configuration that the settings make, where they make one.
    pub open spec fn config(self) -> ConfigView {
        self.config_with(self.spans())
    }

    /// Why the settings make no configuration, given the spans that they stand for: the
    /// first fault, in the order in which they are looked at.
    pub open spec fn fault_with(self, spans: Spans) -> Option<ConfigError> {
        if self.home is None {
            Some(ConfigError::HomeNotSet)
        } else if !path::absolute(self.home->0) {
            Some(ConfigError::HomeNotAbsolute)
        } else if self.daemon_name().len() == 0 || self.daemon_name().contains('/') {
            Some(ConfigError::BadName)
        } else if finality_of(self.finality) is None {
            Some(ConfigError::BadFinality)
        } else if spans.poll is None {
            Some(ConfigError::BadDuration(Setting::PollInterval))
        } else if boolean_of(self.allow_download, false) is None {
            Some(ConfigError::BadBoolean(Setting::AllowDownload))
        } else if boolean_of(self.must_have_checksum, true) is None {
            Some(ConfigError::BadBoolean(Setting::MustHaveChecksum))
        } else if boolean_of(self.restart_after_upgrade, true) is None {
            Some(ConfigError::BadBoolean(Setting::RestartAfterUpgrade))
        } else if spans.delay is None {
            Some(ConfigError::BadDuration(Setting::RestartDelay))
        } else if spans.grace is None {
            Some(ConfigError::BadDuration(Setting::ShutdownGrace))
        } else if boolean_of(self.skip_backup, false) is None {
            Some(ConfigError::BadBoolean(Setting::SkipBackup))
        } else if boolean_of(self.disable_logs, false) is None {
            Some(ConfigError::BadBoolean(Setting::DisableLogs))
        } else if spans.poll == Some(Duration { secs: 0, nanos: 0 }) {
            Some(ConfigError::ZeroPollInterval)
        } else {
            None
        }
    }

    /// The configuration that the settings make, given the spans that they stand for.
    pub open spec fn config_with(self, spans: Spans) -> ConfigView {
        ConfigView {
            home: self.home->0,
            name: self.daemon_name(),
            rpc_url: text_or(self.rpc_url, DEFAULT_RPC_URL@),
            poll_interval: spans.poll->0,
            finality: finality_of(self.finality)->0,
            allow_download: boolean_of(self.allow_download, false)->0,
            download_must_have_checksum: boolean_of(self.must_have_checksum, true)->0,
            restart_after_upgrade: boolean_of(self.restart_after_upgrade, true)->0,
            restart_delay: spans.delay->0,
            shutdown_grace: spans.grace->0,
            data_dir: self.data_dir,
            backup_dir: self.backup_dir,
            unsafe_skip_backup: boolean_of(self.skip_backup, false)->0,
            preupgrade_script: self.preupgrade_script,
            disable_logs: boolean_of(self.disable_logs, false)->0,
        }
    }
}

/// The spans of a configuration are as long as the settings spell out.
pub open spec fn spans_as_spelled(s: SettingsView, c: ConfigView) -> bool {
    &&& as_spelled(s.poll_interval, c.poll_interval)
    &&& as_spelled(s.restart_delay, c.restart_delay)
    &&& as_spelled(s.shutdown_grace, c.shutdown_grace)
}

/// `r` is what the settings make, given the spans that they stand for: a configuration, or
/// their first fault.
pub open spec fn outcome_with(
    s: SettingsView,
    spans: Spans,
    r: Result<Config, ConfigError>,
) -> bool {
    match r {
        Ok(c) => s.fault_with(spans) is None && c@ == s.config_with(spans),
        Err(e) => s.fault_with(spans) == Some(e),
    }
}

/// `r` is what the settings make: a configuration, or their first fault.
pub open spec fn outcome(s: SettingsView, r: Result<Config, ConfigError>) -> bool {
    &&& outcome_with(s, s.spans(), r)
    &&& r matches Ok(c) ==> spans_as_spelled(s, c@)
}

/// Every setting in `s` is what `get` returned for its variable.
pub open spec fn looked_up<F: Fn(&str) -> Option<String>>(get: F, s: Settings) -> bool {
    &&& call_ensures(get, (ENV_HOME,), s.home)
    &&& call_ensures(get, (ENV_NAME,), s.name)
    &&& call_ensures(get, (ENV_RPC_URL,), s.rpc_url)
    &&& call_ensures(get, (ENV_POLL_INTERVAL,), s.poll_interval)
    &&& call_ensures(get, (ENV_UPGRADE_FINALITY,), s.finality)
    &&& call_ensures(get, (ENV_ALLOW_DOWNLOAD,), s.allow_download)
    &&& call_ensures(get, (ENV_MUST_HAVE_CHECKSUM,), s.must_have_checksum)
    &&& call_ensures(get, (ENV_RESTART_AFTER_UPGRADE,), s.restart_after_upgrade)
    &&& call_ensures(get, (ENV_RESTART_DELAY,), s.restart_delay)
    &&& call_ensures(get, (ENV_SHUTDOWN_GRACE,), s.shutdown_grace)
    &&& call_ensures(get, (ENV_DATA_DIR,), s.data_dir)
    &&& call_ensures(get, (ENV_BACKUP_DIR,), s.backup_dir)
    &&& call_ensures(get, (ENV_SKIP_BACKUP,), s.skip_backup)
    &&& call_ensures(get, (ENV_PREUPGRADE_SCRIPT,), s.preupgrade_script)
    &&& call_ensures(get, (ENV_DISABLE_LOGS,), s.disable_logs)
}

/// A value of a configuration file. Only texts, integers and truth values are settings.
#[derive(Debug)]
pub enum Scalar {
    Text(String),
    Integer(i64),
    Boolean(bool),
    Other,
}

/// A value of a configuration file.
pub enum ScalarView {
    Text(Seq<char>),
    Integer(i64),
    Boolean(bool),
    Other,
}

impl View for Scalar {
    type V = ScalarView;

    open spec fn view(&self) -> ScalarView {
        match *self {
            Scalar::Text(t) => ScalarView::Text(t@),
            Scalar::Integer(i) => ScalarView::Integer(i),
            Scalar::Boolean(b) => ScalarView::Boolean(b),
            Scalar::Other => ScalarView::Other,
        }
    }
}

/// The keys and values of a configuration file.
pub open spec fn entry_views(entries: Seq<(String, Scalar)>) -> Seq<(Seq<char>, ScalarView)> {
    entries.map_values(|e: (String, Scalar)| (e.0@, e.1@))
}

/// The decimal digits of `i`, with a sign where it is negative.
pub open spec fn signed_decimal(i: int) -> Seq<char> {
    if i < 0 {
        "-"@ + text::decimal((-i) as nat)
    } else {
        text::decimal(i as nat)
    }
}

/// The text of a value that can be a setting.
pub open spec fn scalar_text(v: ScalarView) -> Option<Seq<char>> {
    match v {
        ScalarView::Text(t) => Some(t),
        ScalarView::Integer(i) => Some(signed_decimal(i as int)),
        ScalarView::Boolean(b) => Some(if b {
            "true"@
        } else {
            "false"@
        }),
        ScalarView::Other => None,
    }
}

/// The first key whose value can be no setting.
pub open spec fn unsupported_key(entries: Seq<(Seq<char>, ScalarView)>) -> Option<Seq<char>>
    decreases entries.len(),
{
    if entries.len() == 0 {
        None
    } else if scalar_text(entries[0].1) is None {
        Some(entries[0].0)
    } else {
        unsupported_key(entries.drop_first())
    }
}

/// What a configuration file says of the variable `key`. Its keys may be written in
/// lower case; of several that name one variable the last counts.
pub open spec fn file_value(entries: Seq<(Seq<char>, ScalarView)>, key: Seq<char>) -> Option<
    Seq<char>,
>
    decreases entries.len(),
{
    if entries.len() == 0 {
        None
    } else if text::upper(entries.last().0) == key {
        scalar_text(entries.last().1)
    } else {
        file_value(entries.drop_last(), key)
    }
}

/// A variable is set and not empty.
pub open spec fn given(env: Option<Seq<char>>) -> bool {
    env is Some && env->0.len() > 0
}

/// A variable that is set and not empty counts; else what the file says.
pub open spec fn layered(
    env: Option<Seq<char>>,
    entries: Seq<(Seq<char>, ScalarView)>,
    key: Seq<char>,
) -> Option<Seq<char>> {
    if given(env) {
        env
    } else {
        file_value(entries, key)
    }
}

impl SettingsView {
    /// These settings, layered over those of a configuration file.
    pub open spec fn over(self, entries: Seq<(Seq<char>, ScalarView)>) -> SettingsView {
        SettingsView {
            home: layered(self.home, entries, ENV_HOME@),
            name: layered(self.name, entries, ENV_NAME@),
            rpc_url: layered(self.rpc_url, entries, ENV_RPC_URL@),
            poll_interval: layered(self.poll_interval, entries, ENV_POLL_INTERVAL@),
            finality: layered(self.finality, entries, ENV_UPGRADE_FINALITY@),
            allow_download: layered(self.allow_download, entries, ENV_ALLOW_DOWNLOAD@),
            must_have_checksum: layered(self.must_have_checksum, entries, ENV_MUST_HAVE_CHECKSUM@),
            restart_after_upgrade: layered(self.restart_after_upgrade, entries, ENV_RESTART_AFTER_UPGRADE@),
            restart_delay: layered(self.restart_delay, entries, ENV_RESTART_DELAY@),
            shutdown_grace: layered(self.shutdown_grace, entries, ENV_SHUTDOWN_GRACE@),
            data_dir: layered(self.data_dir, entries, ENV_DATA_DIR@),
            backup_dir: layered(self.backup_dir, entries, ENV_BACKUP_DIR@),
            skip_backup: layered(self.skip_backup, entries, ENV_SKIP_BACKUP@),
            preupgrade_script: layered(self.preupgrade_script, entries, ENV_PREUPGRADE_SCRIPT@),
            disable_logs: layered(self.disable_logs, entries, ENV_DISABLE_LOGS@),
        }
    }
}

/// `r` is what the settings make, layered over those of a configuration file.
pub open spec fn loaded(
    env: SettingsView,
    entries: Seq<(Seq<char>, ScalarView)>,
    r: Result<Config, LoadError>,
) -> bool {
    match unsupported_key(entries) {
        Some(key) => r matches Err(LoadError::Unsupported(k)) && k@ == key,
        None => match r {
            Ok(c) => env.over(entries).fault() is None && c@ == env.over(entries).config()
                && spans_as_spelled(env.over(entries), c@),
            Err(LoadError::Invalid(e)) => env.over(entries).fault() == Some(e),
            Err(_) => false,
        },
    }
}

/// The value that the node's arguments give its base path: that of the first
/// `--base-path` or `-d` before a `--`.
pub open spec fn base_path(args: Seq<Seq<char>>) -> Option<Seq<char>>
    decreases args.len(),
{
    if args.len() == 0 || args[0] == "--"@ {
        None
    } else if text::after(args[0], "--base-path="@) is Some {
        text::after(args[0], "--base-path="@)
    } else if args[0] == "--base-path"@ || args[0] == "-d"@ {
        if args.len() > 1 {
            Some(args[1])
        } else {
            None
        }
    } else {
        base_path(args.drop_first())
    }
}

/// The node's data directory: `DAEMON_DATA_DIR`, else the base path among the
/// arguments, else the `BASE_PATH` variable that the node itself reads.
pub open spec fn data_dir_of(
    data_dir: Option<Seq<char>>,
    args: Seq<Seq<char>>,
    base_path_env: Option<Seq<char>>,
) -> Option<Seq<char>> {
    if data_dir is Some {
        data_dir
    } else if base_path(args) is Some {
        base_path(args)
    } else if given(base_path_env) {
        base_path_env
    } else {
        None
    }
}

/// The span that `humantime::parse_duration` reads from a text, where it reads one.
pub uninterp spec fn humantime_duration(s: Seq<char>) -> Option<Duration>;

/// Why humantime refused a text.
#[verifier::external_type_specification]
#[verifier::external_body]
pub struct ExDurationError(humantime::DurationError);

/// `humantime::parse_duration` reads a sum of numbers with units, such as `2min 5s` or
/// `300ms`. Whether it reads one depends on the text alone; the span that it returns is
/// the sum, and has less than a second of nanoseconds. It panics where the sum comes to
/// exactly the first second that no span has, which no text that is let through does.
/// Which texts it refuses beside those that are too long is not said.
#[verifier::external_body]
fn parse_duration(s: &str) -> (r: Result<Duration, humantime::DurationError>)
    requires
        fits_duration(s@),
    ensures
        match r {
            Ok(d) => humantime_duration(s@) == Some(d) && d.nanos < 1_000_000_000 && nanoseconds(d)
                == spelled(s@),
            Err(_) => humantime_duration(s@) is None,
        },
{
    humantime::parse_duration(s).map(|d| Duration { secs: d.as_secs(), nanos: d.subsec_nanos() })
}

/// How `humantime::format_duration` writes a span.
pub uninterp spec fn duration_text(d: Duration) -> Seq<char>;

/// `humantime::format_duration` writes a span as a sum of numbers with units, such as
/// `2h 37m`; what it writes depends on the span alone, spells out the span, and is read by
/// `humantime::parse_duration` as the same span.
#[verifier::external_body]
fn format_duration(d: Duration) -> (r: String)
    requires
        d.nanos < 1_000_000_000,
    ensures
        r@ == duration_text(d),
        spelled(r@) == nanoseconds(d),
        humantime_duration(r@) == Some(d),
{
    humantime::format_duration(std::time::Duration::new(d.secs, d.nanos)).to_string()
}

/// A span in words, as it is shown to the operator. As a setting, it is read back as the
/// same span.
pub fn describe_duration(d: Duration) -> (r: String)
    requires
        d.nanos < 1_000_000_000,
    ensures
        r@ == duration_text(d),
        forall|default: Duration| #[trigger] duration_of(Some(r@), default) == Some(d),
{
    format_duration(d)
}

fn is_unit_letter(c: char) -> (r: bool)
    ensures
        r == unit_letter(c),
{
    ('a' <= c && c <= 'z') || ('A' <= c && c <= 'Z') || c == '\u{b5}'
}

/// How long the unit is that starts at `i`, in nanoseconds.
fn unit_at(v: &Vec<char>, i: usize) -> (r: u128)
    requires
        i < v@.len(),
    ensures
        r == unit_length(v@.subrange(i as int, v@.len() as int)),
        r <= 31_557_600_000_000_000,
{
    let ghost s = v@.subrange(i as int, v@.len() as int);
    let left: usize = v.len() - i;
    proof {
        assert(s[0] == v@[i as int]);
        assert(left > 1 ==> s[1] == v@[i + 1]);
        assert(left > 2 ==> s[2] == v@[i + 2]);
    }
    let c: char = v[i];
    if c == 'n' {
        1
    } else if c == 'u' || c == '\u{b5}' {
        1_000
    } else if c == 'm' && left > 1 && v[i + 1] == 's' {
        1_000_000
    } else if c == 'm' && left > 2 && v[i + 1] == 'i' && v[i + 2] == 'l' {
        1_000_000
    } else if c == 's' {
        1_000_000_000
    } else if (c == 'm' && left > 1 && v[i + 1] == 'o') || c == 'M' {
        2_630_016_000_000_000
    } else if c == 'm' {
        60_000_000_000
    } else if c == 'h' {
        3_600_000_000_000
    } else if c == 'd' {
        86_400_000_000_000
    } else if c == 'w' {
        604_800_000_000_000
    } else if c == 'y' {
        31_557_600_000_000_000
    } else {
        0
    }
}

/// `n`, or `SPAN_END` where it is more.
spec fn capped(n: nat) -> nat {
    if n < SPAN_END {
        n
    } else {
        SPAN_END as nat
    }
}

/// The executable counterpart of a decimal number. The whole part is capped, and a
/// fraction that is too long has the denominator 0.
struct Number {
    whole: u128,
    num: u128,
    den: u128,
    point: bool,
}

impl Number {
    spec fn stands_for(self, d: Decimal) -> bool {
        &&& self.whole == capped(d.whole)
        &&& self.point == d.point
        &&& d.num < d.den
        &&& if d.den <= FRACTION_LIMIT {
            self.num == d.num && self.den == d.den
        } else {
            self.num == 0 && self.den == 0
        }
    }

    fn zero() -> (r: Number)
        ensures
            r.stands_for(Decimal::zero()),
    {
        Number { whole: 0, num: 0, den: 1, point: false }
    }

    fn push(&mut self, c: char, Ghost(d): Ghost<Decimal>)
        requires
            old(self).stands_for(d),
        ensures
            final(self).stands_for(d.with(c)),
    {
        if c == '.' {
            self.point = true;
        } else if '0' <= c && c <= '9' {
            let digit: u128 = c as u128 - '0' as u128;
            if self.point {
                let den: u128 = 10 * self.den;
                if self.den == 0 || den > FRACTION_LIMIT {
                    self.num = 0;
                    self.den = 0;
                } else {
                    self.num = 10 * self.num + digit;
                    self.den = den;
                }
            } else {
                let whole: u128 = 10 * self.whole + digit;
                self.whole = if whole < SPAN_END {
                    whole
                } else {
                    SPAN_END
                };
            }
        }
    }

    fn times(&self, unit: u128, Ghost(d): Ghost<Decimal>) -> (r: u128)
        requires
            self.stands_for(d),
            unit <= 31_557_600_000_000_000,
        ensures
            r == capped(d.times(unit as nat)),
    {
        if unit == 0 {
            assert(d.whole * 0 == 0) by (nonlinear_arith);
            assert(d.num * 0 == 0) by (nonlinear_arith);
            assert(0nat / d.den == 0) by (nonlinear_arith)
                requires
                    d.den > 0,
            ;
            return 0;
        }
        let part: u128 = if self.den == 0 {
            0
        } else {
            let num: u128 = self.num;
            assert(num * unit <= 10_000_000_000_000_000_000 * 31_557_600_000_000_000)
                by (nonlinear_arith)
                requires
                    num <= 10_000_000_000_000_000_000,
                    unit <= 31_557_600_000_000_000,
            ;
            num * unit / self.den
        };
        let ghost fraction: nat = if d.den <= FRACTION_LIMIT {
            d.num * (unit as nat) / d.den
        } else {
            0
        };
        assert(part == fraction);
        assert(fraction <= unit) by {
            if d.den <= FRACTION_LIMIT {
                let num = d.num as int;
                let den = d.den as int;
                let u = unit as int;
                assert(num * u / den <= u) by (nonlinear_arith)
                    requires
                        0 <= num < den,
                        u >= 0,
                ;
            }
        }
        match self.whole.checked_mul(unit) {
            Some(whole) => {
                proof {
                    if self.whole < SPAN_END {
                        assert(whole == d.whole * unit);
                    } else {
                        let w = d.whole as int;
                        let u = unit as int;
                        assert(w * u >= w) by (nonlinear_arith)
                            requires
                                w >= 0,
                                u >= 1,
                        ;
                        assert(SPAN_END * u >= SPAN_END) by (nonlinear_arith)
                            requires
                                u >= 1,
                        ;
                    }
                }
                if whole < SPAN_END && part < SPAN_END - whole {
                    whole + part
                } else {
                    SPAN_END
                }
            },
            None => {
                proof {
                    let cap = self.whole as int;
                    let w = d.whole as int;
                    let u = unit as int;
                    assert(w * u >= cap * u) by (nonlinear_arith)
                        requires
                            w >= cap,
                            u >= 0,
                    ;
                }
                SPAN_END
            },
        }
    }
}

/// Whether `s` spells out no more than a span can be.
fn check_length(s: &str) -> (r: bool)
    ensures
        r == fits_duration(s@),
{
    let v = text::chars_of(s);
    let n: usize = v.len();
    let mut i: usize = 0;
    let mut sum: u128 = 0;
    let mut number = Number::zero();
    let ghost mut d = Decimal::zero();
    let ghost mut exact: nat = 0;
    assert(v@.subrange(0, n as int) == s@);
    while i < n
        invariant
            i <= n,
            n == v@.len(),
            v@ == s@,
            number.stands_for(d),
            sum == capped(exact),
            spelled(s@) == exact + spelled_from(v@.subrange(i as int, n as int), d),
        decreases n - i,
    {
        let ghost now = v@.subrange(i as int, n as int);
        proof {
            assert(now[0] == v@[i as int]);
            assert(now.drop_first() == v@.subrange(i + 1, n as int));
        }
        let c: char = v[i];
        if is_unit_letter(c) {
            let unit: u128 = unit_at(&v, i);
            let part: u128 = number.times(unit, Ghost(d));
            proof {
                exact = exact + d.times(unit as nat);
                d = Decimal::zero();
            }
            sum = if part < SPAN_END - sum {
                sum + part
            } else {
                SPAN_END
            };
            number = Number::zero();
        } else {
            number.push(c, Ghost(d));
            proof {
                d = d.with(c);
            }
        }
        i = i + 1;
    }
    sum < SPAN_END
}

/// The span that a setting's text stands for, where it stands for one.
fn duration(value: &Option<String>, default: Duration) -> (r: Option<Duration>)
    ensures
        r == duration_of(opt_text(*value), default),
        r matches Some(d) ==> as_spelled(opt_text(*value), d),
{
    match value {
        None => Some(default),
        Some(t) => {
            if !check_length(t.as_str()) {
                return None;
            }
            match parse_duration(t.as_str()) {
                Ok(d) => Some(d),
                Err(_) => None,
            }
        },
    }
}

/// The span, or else that the setting stands for none.
fn required(span: Option<Duration>, setting: Setting) -> (r: Result<Duration, ConfigError>)
    ensures
        r == match span {
            Some(d) => Ok::<Duration, ConfigError>(d),
            None => Err(ConfigError::BadDuration(setting)),
        },
{
    match span {
        Some(d) => Ok(d),
        None => Err(ConfigError::BadDuration(setting)),
    }
}

/// The truth value that a setting's text stands for.
pub fn boolean(value: &Option<String>, setting: Setting, default: bool) -> (r: Result<
    bool,
    ConfigError,
>)
    ensures
        r == match boolean_of(opt_text(*value), default) {
            Some(b) => Ok::<bool, ConfigError>(b),
            None => Err(ConfigError::BadBoolean(setting)),
        },
{
    match value {
        None => Ok(default),
        Some(t) => {
            let word = text::to_lower(t.as_str());
            let w = word.as_str();
            if text::same(w, "1") || text::same(w, "true") || text::same(w, "yes") || text::same(
                w,
                "on",
            ) {
                Ok(true)
            } else if text::same(w, "0") || text::same(w, "false") || text::same(w, "no")
                || text::same(w, "off") {
                Ok(false)
            } else {
                Err(ConfigError::BadBoolean(setting))
            }
        },
    }
}

fn finality(value: &Option<String>) -> (r: Result<Finality, ConfigError>)
    ensures
        r == match finality_of(opt_text(*value)) {
            Some(f) => Ok::<Finality, ConfigError>(f),
            None => Err(ConfigError::BadFinality),
        },
{
    match value {
        None => Ok(Finality::Best),
        Some(t) => {
            let word = text::to_lower(t.as_str());
            if text::same(word.as_str(), "best") {
                Ok(Finality::Best)
            } else if text::same(word.as_str(), "finalized") {
                Ok(Finality::Finalized)
            } else {
                Err(ConfigError::BadFinality)
            }
        },
    }
}

fn given_or(value: Option<String>, default: &str) -> (r: String)
    ensures
        r@ == text_or(opt_text(value), default@),
{
    match value {
        Some(t) => t,
        None => default.to_string(),
    }
}

/// The keys and values of the TOML document that a text is, in the order of the keys;
/// none where it is no such document.
pub uninterp spec fn toml_entries(s: Seq<char>) -> Option<Seq<(Seq<char>, ScalarView)>>;

/// Why toml refused a text.
#[verifier::external_type_specification]
#[verifier::external_body]
pub struct ExTomlError(toml::de::Error);

/// `toml::from_str` reads a text as a TOML document, here into a `toml::Table`, whose
/// entries it hands out with each value as one of the kinds told apart here. What it
/// returns depends on the text alone.
#[verifier::external_body]
fn read_toml(s: &str) -> (r: Result<Vec<(String, Scalar)>, toml::de::Error>)
    ensures
        match r {
            Ok(v) => toml_entries(s@) == Some(entry_views(v@)),
            Err(_) => toml_entries(s@) is None,
        },
{
    let table: toml::Table = toml::from_str(s)?;
    let entries = table.into_iter().map(
        |(key, value)|
            match value {
                toml::Value::String(t) => (key, Scalar::Text(t)),
                toml::Value::Integer(i) => (key, Scalar::Integer(i)),
                toml::Value::Boolean(b) => (key, Scalar::Boolean(b)),
                toml::Value::Float(_) => (key, Scalar::Other),
                toml::Value::Datetime(_) => (key, Scalar::Other),
                toml::Value::Array(_) => (key, Scalar::Other),
                toml::Value::Table(_) => (key, Scalar::Other),
            },
    );
    Ok(entries.collect())
}

fn signed_text(i: i64) -> (r: String)
    ensures
        r@ == signed_decimal(i as int),
{
    if i < 0 {
        let size: u64 = (-(i as i128)) as u64;
        let mut s = "-".to_string();
        let digits = text::decimal_text(size);
        s.append(digits.as_str());
        s
    } else {
        text::decimal_text(i as u64)
    }
}

impl Scalar {
    /// The text of a value that can be a setting.
    fn to_text(&self) -> (r: Option<String>)
        ensures
            opt_text(r) == scalar_text(self@),
    {
        match self {
            Scalar::Text(t) => Some(t.clone()),
            Scalar::Integer(i) => Some(signed_text(*i)),
            Scalar::Boolean(b) => Some(
                if *b {
                    "true".to_string()
                } else {
                    "false".to_string()
                },
            ),
            Scalar::Other => None,
        }
    }
}

/// The first key of a configuration file whose value can be no setting.
fn find_unsupported(entries: &Vec<(String, Scalar)>) -> (r: Option<String>)
    ensures
        opt_text(r) == unsupported_key(entry_views(entries@)),
{
    let n: usize = entries.len();
    let mut i: usize = 0;
    let ghost all = entry_views(entries@);
    assert(all.subrange(0, n as int) == all);
    while i < n
        invariant
            i <= n,
            n == entries@.len(),
            all == entry_views(entries@),
            unsupported_key(all) == unsupported_key(all.subrange(i as int, n as int)),
        decreases n - i,
    {
        let ghost rest = all.subrange(i as int, n as int);
        proof {
            assert(rest[0] == all[i as int]);
            assert(rest.drop_first() == all.subrange(i + 1, n as int));
        }
        if entries[i].1.to_text().is_none() {
            return Some(entries[i].0.clone());
        }
        i = i + 1;
    }
    None
}

/// What a configuration file says of a variable.
fn find_value(entries: &Vec<(String, Scalar)>, key: &str) -> (r: Option<String>)
    ensures
        opt_text(r) == file_value(entry_views(entries@), key@),
{
    let n: usize = entries.len();
    let mut i: usize = n;
    let ghost all = entry_views(entries@);
    assert(all.subrange(0, n as int) == all);
    while i > 0
        invariant
            i <= n,
            n == entries@.len(),
            all == entry_views(entries@),
            file_value(all, key@) == file_value(all.subrange(0, i as int), key@),
        decreases i,
    {
        let ghost rest = all.subrange(0, i as int);
        i = i - 1;
        proof {
            assert(rest.last() == all[i as int]);
            assert(rest.drop_last() == all.subrange(0, i as int));
        }
        let upper = text::to_upper(entries[i].0.as_str());
        if text::same(upper.as_str(), key) {
            return entries[i].1.to_text();
        }
    }
    None
}

fn layer(env: Option<String>, entries: &Vec<(String, Scalar)>, key: &str) -> (r: Option<String>)
    ensures
        opt_text(r) == layered(opt_text(env), entry_views(entries@), key@),
{
    match env {
        Some(t) => if t.as_str().is_empty() {
            find_value(entries, key)
        } else {
            Some(t)
        },
        None => find_value(entries, key),
    }
}

/// The keys and values of a configuration file, given what stands in it.
pub fn read_config_file(s: &str) -> (r: Result<Vec<(String, Scalar)>, LoadError>)
    ensures
        match r {
            Ok(v) => toml_entries(s@) == Some(entry_views(v@)),
            Err(LoadError::Syntax(_)) => toml_entries(s@) is None,
            Err(_) => false,
        },
{
    match read_toml(s) {
        Ok(v) => Ok(v),
        Err(e) => Err(LoadError::Syntax(e)),
    }
}

/// The value that the node's arguments give its base path.
pub fn base_path_from_args(args: &[String]) -> (r: Option<String>)
    ensures
        opt_text(r) == base_path(text::texts(args@)),
{
    let n: usize = args.len();
    let mut i: usize = 0;
    let ghost all = text::texts(args@);
    assert(all.subrange(0, n as int) == all);
    while i < n
        invariant
            i <= n,
            n == args@.len(),
            all == text::texts(args@),
            base_path(all) == base_path(all.subrange(i as int, n as int)),
        decreases n - i,
    {
        let ghost rest = all.subrange(i as int, n as int);
        proof {
            assert(rest[0] == args@[i as int]@);
            assert(i + 1 < n ==> rest[1] == args@[i + 1]@);
            assert(rest.drop_first() == all.subrange(i + 1, n as int));
        }
        let arg = args[i].as_str();
        if text::same(arg, "--") {
            return None;
        }
        let value = text::strip_prefix(arg, "--base-path=");
        if value.is_some() {
            return value;
        }
        if text::same(arg, "--base-path") || text::same(arg, "-d") {
            return if n - i > 1 {
                Some(args[i + 1].clone())
            } else {
                None
            };
        }
        i = i + 1;
    }
    None
}

impl Settings {
    /// These settings, layered over those of a configuration file.
    pub fn over(self, entries: &Vec<(String, Scalar)>) -> (r: Settings)
        ensures
            r@ == self@.over(entry_views(entries@)),
    {
        Settings {
            home: layer(self.home, entries, ENV_HOME),
            name: layer(self.name, entries, ENV_NAME),
            rpc_url: layer(self.rpc_url, entries, ENV_RPC_URL),
            poll_interval: layer(self.poll_interval, entries, ENV_POLL_INTERVAL),
            finality: layer(self.finality, entries, ENV_UPGRADE_FINALITY),
            allow_download: layer(self.allow_download, entries, ENV_ALLOW_DOWNLOAD),
            must_have_checksum: layer(self.must_have_checksum, entries, ENV_MUST_HAVE_CHECKSUM),
            restart_after_upgrade: layer(self.restart_after_upgrade, entries, ENV_RESTART_AFTER_UPGRADE),
            restart_delay: layer(self.restart_delay, entries, ENV_RESTART_DELAY),
            shutdown_grace: layer(self.shutdown_grace, entries, ENV_SHUTDOWN_GRACE),
            data_dir: layer(self.data_dir, entries, ENV_DATA_DIR),
            backup_dir: layer(self.backup_dir, entries, ENV_BACKUP_DIR),
            skip_backup: layer(self.skip_backup, entries, ENV_SKIP_BACKUP),
            preupgrade_script: layer(self.preupgrade_script, entries, ENV_PREUPGRADE_SCRIPT),
            disable_logs: layer(self.disable_logs, entries, ENV_DISABLE_LOGS),
        }
    }

    /// The settings that `get` returns, one call for each variable.
    pub fn look_up(get: impl Fn(&str) -> Option<String>) -> (r: Settings)
        requires
            forall|key: &str| #[trigger] call_requires(get, (key,)),
        ensures
            looked_up(get, r),
    {
        Settings {
            home: get(ENV_HOME),
            name: get(ENV_NAME),
            rpc_url: get(ENV_RPC_URL),
            poll_interval: get(ENV_POLL_INTERVAL),
            finality: get(ENV_UPGRADE_FINALITY),
            allow_download: get(ENV_ALLOW_DOWNLOAD),
            must_have_checksum: get(ENV_MUST_HAVE_CHECKSUM),
            restart_after_upgrade: get(ENV_RESTART_AFTER_UPGRADE),
            restart_delay: get(ENV_RESTART_DELAY),
            shutdown_grace: get(ENV_SHUTDOWN_GRACE),
            data_dir: get(ENV_DATA_DIR),
            backup_dir: get(ENV_BACKUP_DIR),
            skip_backup: get(ENV_SKIP_BACKUP),
            preupgrade_script: get(ENV_PREUPGRADE_SCRIPT),
            disable_logs: get(ENV_DISABLE_LOGS),
        }
    }
}

impl Config {
    /// The configuration that the texts of the settings make.
    pub fn from_settings(s: Settings) -> (r: Result<Config, ConfigError>)
        ensures
            outcome(s@, r),
    {
        let spans = Spans {
            poll: duration(&s.poll_interval, Duration::from_secs(DEFAULT_POLL_INTERVAL)),
            delay: duration(&s.restart_delay, Duration::from_secs(0)),
            grace: duration(&s.shutdown_grace, Duration::from_secs(DEFAULT_SHUTDOWN_GRACE)),
        };
        Config::from_spans(s, spans)
    }

    /// The configuration that the texts of the settings make, given the spans that three
    /// of them stand for.
    pub fn from_spans(s: Settings, spans: Spans) -> (r: Result<Config, ConfigError>)
        ensures
            outcome_with(s@, spans, r),
    {
        let home = match s.home {
            Some(h) => h,
            None => return Err(ConfigError::HomeNotSet),
        };
        if !path::is_absolute(home.as_str()) {
            return Err(ConfigError::HomeNotAbsolute);
        }
        let name = given_or(s.name, DEFAULT_DAEMON_NAME);
        if name.as_str().is_empty() || text::has_char(name.as_str(), '/') {
            return Err(ConfigError::BadName);
        }
        let finality = finality(&s.finality)?;
        let rpc_url = given_or(s.rpc_url, DEFAULT_RPC_URL);
        let poll_interval = required(spans.poll, Setting::PollInterval)?;
        let allow_download = boolean(&s.allow_download, Setting::AllowDownload, false)?;
        let download_must_have_checksum = boolean(
            &s.must_have_checksum,
            Setting::MustHaveChecksum,
            true,
        )?;
        let restart_after_upgrade = boolean(
            &s.restart_after_upgrade,
            Setting::RestartAfterUpgrade,
            true,
        )?;
        let restart_delay = required(spans.delay, Setting::RestartDelay)?;
        let shutdown_grace = required(spans.grace, Setting::ShutdownGrace)?;
        let unsafe_skip_backup = boolean(&s.skip_backup, Setting::SkipBackup, false)?;
        let disable_logs = boolean(&s.disable_logs, Setting::DisableLogs, false)?;
        if poll_interval.is_zero() {
            return Err(ConfigError::ZeroPollInterval);
        }
        Ok(
            Config {
                home,
                name,
                rpc_url,
                poll_interval,
                finality,
                allow_download,
                download_must_have_checksum,
                restart_after_upgrade,
                restart_delay,
                shutdown_grace,
                data_dir: s.data_dir,
                backup_dir: s.backup_dir,
                unsafe_skip_backup,
                preupgrade_script: s.preupgrade_script,
                disable_logs,
            },
        )
    }

    /// The configuration that the variables make which `get` looks up.
    pub fn from_lookup(get: impl Fn(&str) -> Option<String>) -> (r: Result<Config, ConfigError>)
        requires
            forall|key: &str| #[trigger] call_requires(get, (key,)),
        ensures
            exists|s: Settings| #[trigger] looked_up(get, s) && outcome(s@, r),
    {
        let s = Settings::look_up(get);
        Config::from_settings(s)
    }

    /// The configuration that the variables make, layered over what stands in a
    /// configuration file, where there is one.
    pub fn load(env: Settings, file: Option<&str>) -> (r: Result<Config, LoadError>)
        ensures
            match file {
                None => loaded(env@, Seq::empty(), r),
                Some(t) => match toml_entries(t@) {
                    None => r matches Err(LoadError::Syntax(_)),
                    Some(entries) => loaded(env@, entries, r),
                },
            },
    {
        let entries = match file {
            Some(t) => match read_config_file(t) {
                Ok(v) => v,
                Err(e) => return Err(e),
            },
            None => {
                let none: Vec<(String, Scalar)> = Vec::new();
                assert(entry_views(none@) == Seq::<(Seq<char>, ScalarView)>::empty());
                none
            },
        };
        Config::load_over(env, &entries)
    }

    /// The configuration that the variables make, layered over the entries of a
    /// configuration file.
    pub fn load_over(env: Settings, entries: &Vec<(String, Scalar)>) -> (r: Result<
        Config,
        LoadError,
    >)
        ensures
            loaded(env@, entry_views(entries@), r),
    {
        if let Some(key) = find_unsupported(entries) {
            return Err(LoadError::Unsupported(key));
        }
        match Config::from_settings(env.over(entries)) {
            Ok(c) => Ok(c),
            Err(e) => Err(LoadError::Invalid(e)),
        }
    }

    /// The node's data directory, which is backed up before an upgrade.
    /// `base_path_env` is the `BASE_PATH` variable.
    pub fn resolve_data_dir(&self, node_args: &[String], base_path_env: Option<String>) -> (r: Option<
        String,
    >)
        ensures
            opt_text(r) == data_dir_of(
                self@.data_dir,
                text::texts(node_args@),
                opt_text(base_path_env),
            ),
    {
        if self.data_dir.is_some() {
            return self.data_dir.clone();
        }
        let value = base_path_from_args(node_args);
        if value.is_some() {
            return value;
        }
        match base_path_env {
            Some(t) => if t.as_str().is_empty() {
                None
            } else {
                Some(t)
            },
            None => None,
        }
    }
}

impl ConfigView {
    /// What holds of every configuration that was accepted.
    pub open spec fn valid(self) -> bool {
        &&& path::absolute(self.home)
        &&& self.name.len() > 0
        &&& !self.name.contains('/')
        &&& self.poll_interval != (Duration { secs: 0, nanos: 0 })
    }
}

/// A configuration that was accepted has an absolute home, a plain file name for the
/// daemon and a polling interval that is not zero.
pub proof fn accepted_config_is_valid(s: SettingsView)
    requires
        s.fault() is None,
    ensures
        s.config().valid(),
{
}

/// Environment variables override the file: each one that is set and not empty counts
/// as it stands, whatever the file says.
pub proof fn environment_overrides_file(
    env: SettingsView,
    entries: Seq<(Seq<char>, ScalarView)>,
)
    ensures
        given(env.home) ==> env.over(entries).home == env.home,
        given(env.name) ==> env.over(entries).name == env.name,
        given(env.rpc_url) ==> env.over(entries).rpc_url == env.rpc_url,
        given(env.poll_interval) ==> env.over(entries).poll_interval == env.poll_interval,
        given(env.finality) ==> env.over(entries).finality == env.finality,
        given(env.allow_download) ==> env.over(entries).allow_download == env.allow_download,
        given(env.must_have_checksum) ==> env.over(entries).must_have_checksum == env.must_have_checksum,
        given(env.restart_after_upgrade) ==> env.over(entries).restart_after_upgrade == env.restart_after_upgrade,
        given(env.restart_delay) ==> env.over(entries).restart_delay == env.restart_delay,
        given(env.shutdown_grace) ==> env.over(entries).shutdown_grace == env.shutdown_grace,
        given(env.data_dir) ==> env.over(entries).data_dir == env.data_dir,
        given(env.backup_dir) ==> env.over(entries).backup_dir == env.backup_dir,
        given(env.skip_backup) ==> env.over(entries).skip_backup == env.skip_backup,
        given(env.preupgrade_script) ==> env.over(entries).preupgrade_script == env.preupgrade_script,
        given(env.disable_logs) ==> env.over(entries).disable_logs == env.disable_logs,
{
}

/// A variable that is unset or empty leaves the setting to the file.
pub proof fn file_fills_in(env: SettingsView, entries: Seq<(Seq<char>, ScalarView)>)
    ensures
        !given(env.home) ==> env.over(entries).home == file_value(entries, ENV_HOME@),
        !given(env.name) ==> env.over(entries).name == file_value(entries, ENV_NAME@),
        !given(env.rpc_url) ==> env.over(entries).rpc_url == file_value(entries, ENV_RPC_URL@),
        !given(env.poll_interval) ==> env.over(entries).poll_interval == file_value(entries, ENV_POLL_INTERVAL@),
        !given(env.finality) ==> env.over(entries).finality == file_value(entries, ENV_UPGRADE_FINALITY@),
        !given(env.allow_download) ==> env.over(entries).allow_download == file_value(entries, ENV_ALLOW_DOWNLOAD@),
        !given(env.must_have_checksum) ==> env.over(entries).must_have_checksum == file_value(entries, ENV_MUST_HAVE_CHECKSUM@),
        !given(env.restart_after_upgrade) ==> env.over(entries).restart_after_upgrade == file_value(entries, ENV_RESTART_AFTER_UPGRADE@),
        !given(env.restart_delay) ==> env.over(entries).restart_delay == file_value(entries, ENV_RESTART_DELAY@),
        !given(env.shutdown_grace) ==> env.over(entries).shutdown_grace == file_value(entries, ENV_SHUTDOWN_GRACE@),
        !given(env.data_dir) ==> env.over(entries).data_dir == file_value(entries, ENV_DATA_DIR@),
        !given(env.backup_dir) ==> env.over(entries).backup_dir == file_value(entries, ENV_BACKUP_DIR@),
        !given(env.skip_backup) ==> env.over(entries).skip_backup == file_value(entries, ENV_SKIP_BACKUP@),
        !given(env.preupgrade_script) ==> env.over(entries).preupgrade_script == file_value(entries, ENV_PREUPGRADE_SCRIPT@),
        !given(env.disable_logs) ==> env.over(entries).disable_logs == file_value(entries, ENV_DISABLE_LOGS@),
{
}

} // verus!
