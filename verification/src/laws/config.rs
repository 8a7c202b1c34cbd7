//! What the settings mean, where they come from, and which directory is backed up.

use vstd::prelude::*;

use crate::config::{
    base_path, boolean_of, data_dir_of, file_value, finality_of, scalar_text, spelled,
    spelled_from, unit_length, unit_letter, unsupported_key, ConfigError, Decimal,
    Finality, ScalarView, Setting, SettingsView, Spans,
};
use crate::laws::plan::lower_case_of;
use crate::text;
use crate::time::Duration;

verus! {

/// An argument that does not bear on the node's base path.
pub open spec fn says_nothing_of_base_path(arg: Seq<char>) -> bool {
    arg != "--"@ && arg != "-d"@ && arg != "--base-path"@ && !"--base-path="@.is_prefix_of(arg)
}

/// Arguments that do not bear on the base path may stand before the one that does, as many
/// as there are.
pub proof fn other_arguments_do_not_matter(front: Seq<Seq<char>>, rest: Seq<Seq<char>>)
    requires
        forall|i: int| 0 <= i < front.len() ==> says_nothing_of_base_path(#[trigger] front[i]),
    ensures
        base_path(front + rest) == base_path(rest),
    decreases front.len(),
{
    if front.len() == 0 {
        assert(front + rest =~= rest);
    } else {
        let tail = front.drop_first();
        assert(says_nothing_of_base_path(front[0]));
        assert forall|i: int| 0 <= i < tail.len() implies says_nothing_of_base_path(
            #[trigger] tail[i],
        ) by {
            assert(tail[i] == front[i + 1]);
        }
        other_arguments_do_not_matter(tail, rest);
        assert((front + rest)[0] == front[0]);
        assert((front + rest).drop_first() =~= tail + rest);
    }
}

/// The base path is what follows the first `--base-path` or `-d`, or stands behind the first
/// `--base-path=`, wherever among the arguments it is and whatever comes after it.
pub proof fn base_path_is_found_anywhere(
    front: Seq<Seq<char>>,
    value: Seq<char>,
    tail: Seq<Seq<char>>,
)
    requires
        forall|i: int| 0 <= i < front.len() ==> says_nothing_of_base_path(#[trigger] front[i]),
    ensures
        base_path(front + (seq!["--base-path"@, value] + tail)) == Some(value),
        base_path(front + (seq!["-d"@, value] + tail)) == Some(value),
        base_path(front + (seq!["--base-path="@ + value] + tail)) == Some(value),
{
    reveal_strlit("--base-path");
    reveal_strlit("--base-path=");
    reveal_strlit("-d");
    reveal_strlit("--");
    let long = seq!["--base-path"@, value] + tail;
    let short = seq!["-d"@, value] + tail;
    let joined = seq!["--base-path="@ + value] + tail;
    other_arguments_do_not_matter(front, long);
    other_arguments_do_not_matter(front, short);
    other_arguments_do_not_matter(front, joined);
    crate::laws::text::prefix_comes_off("--base-path="@, value);
    assert(long[0] == "--base-path"@ && long[1] == value);
    assert(short[0] == "-d"@ && short[1] == value);
    assert(joined[0] == "--base-path="@ + value);
    assert(long[0].len() == 11 && short[0].len() == 2);
    assert(short[0][1] == 'd');
    assert(joined[0].len() >= 12);
    assert("--"@.len() == 2 && "--"@[1] == '-');
    assert("--base-path="@.len() == 12);
}

/// Behind a `--` nothing is looked for, and without such an argument there is no base path;
/// one that is not followed by a value gives none.
pub proof fn base_path_is_not_made_up(front: Seq<Seq<char>>, tail: Seq<Seq<char>>)
    requires
        forall|i: int| 0 <= i < front.len() ==> says_nothing_of_base_path(#[trigger] front[i]),
    ensures
        base_path(front) is None,
        base_path(front + (seq!["--"@] + tail)) is None,
        base_path(front + seq!["--base-path"@]) is None,
        base_path(front + seq!["-d"@]) is None,
{
    reveal_strlit("--base-path");
    reveal_strlit("--base-path=");
    reveal_strlit("-d");
    reveal_strlit("--");
    let none = Seq::<Seq<char>>::empty();
    other_arguments_do_not_matter(front, none);
    assert(front + none =~= front);
    other_arguments_do_not_matter(front, seq!["--"@] + tail);
    assert((seq!["--"@] + tail)[0] == "--"@);
    other_arguments_do_not_matter(front, seq!["--base-path"@]);
    other_arguments_do_not_matter(front, seq!["-d"@]);
    assert("--base-path"@.len() == 11 && "-d"@.len() == 2 && "--base-path="@.len() == 12);
}

/// The data directory that is set wins over the node's arguments, and those over `BASE_PATH`,
/// which counts only where it is not empty.
pub proof fn data_dir_is_looked_for_in_order(
    dir: Seq<char>,
    args: Seq<Seq<char>>,
    env: Option<Seq<char>>,
)
    ensures
        data_dir_of(Some(dir), args, env) == Some(dir),
        base_path(args) is Some ==> data_dir_of(None, args, env) == base_path(args),
        base_path(args) is None && dir.len() > 0 ==> data_dir_of(None, args, Some(dir)) == Some(
            dir,
        ),
        base_path(args) is None ==> data_dir_of(None, args, None) is None && data_dir_of(
            None,
            args,
            Some(Seq::empty()),
        ) is None,
{
}

/// A truth value is spelled in one of eight ways, in upper or lower case, and in no other; no
/// text means the default.
pub proof fn truth_values_are_spelled_so(t: Seq<char>, word: Seq<char>, default: bool)
    ensures
        boolean_of(None, default) == Some(default),
        lower_case_of(t, word) && (word == "1"@ || word == "true"@ || word == "yes"@ || word
            == "on"@) ==> boolean_of(Some(t), default) == Some(true),
        lower_case_of(t, word) && (word == "0"@ || word == "false"@ || word == "no"@ || word
            == "off"@) ==> boolean_of(Some(t), default) == Some(false),
        lower_case_of(t, word) && word != "1"@ && word != "true"@ && word != "yes"@ && word
            != "on"@ && word != "0"@ && word != "false"@ && word != "no"@ && word != "off"@
            ==> boolean_of(Some(t), default) is None,
{
    reveal_strlit("1");
    reveal_strlit("true");
    reveal_strlit("yes");
    reveal_strlit("on");
    reveal_strlit("0");
    reveal_strlit("false");
    reveal_strlit("no");
    reveal_strlit("off");
    if lower_case_of(t, word) {
        assert forall|i: int| 0 <= i < t.len() implies text::lower(t)[i] == word[i] by {
            assert(text::lower(t)[i] == text::lower_char(t[i]));
        }
        assert(text::lower(t) =~= word);
    }
    assert("0"@[0] != "1"@[0]);
    assert("off"@[1] != "on"@[1]);
    assert("no"@[0] != "on"@[0]);
    assert("false"@.len() == 5 && "true"@.len() == 4 && "off"@.len() == 3 && "no"@.len() == 2);
    assert("yes"@.len() == 3 && "on"@.len() == 2 && "off"@[0] != "yes"@[0]);
}

/// The finality is `best` or `finalized`, in upper or lower case; no text means `best`.
pub proof fn finality_is_spelled_so(t: Seq<char>, word: Seq<char>)
    ensures
        finality_of(None) == Some(Finality::Best),
        lower_case_of(t, word) ==> (finality_of(Some(t)) == Some(Finality::Best)) == (word
            == "best"@),
        lower_case_of(t, word) ==> (finality_of(Some(t)) == Some(Finality::Finalized)) == (word
            == "finalized"@),
{
    reveal_strlit("best");
    reveal_strlit("finalized");
    assert("best"@.len() == 4 && "finalized"@.len() == 9);
    if lower_case_of(t, word) {
        assert forall|i: int| 0 <= i < t.len() implies text::lower(t)[i] == word[i] by {
            assert(text::lower(t)[i] == text::lower_char(t[i]));
        }
        assert(text::lower(t) =~= word);
    }
}

/// Where nothing but the home is set, everything else has its default.
pub proof fn defaults_fill_in(s: SettingsView)
    requires
        s.home is Some,
        s.home->0.len() > 0,
        s.home->0[0] == '/',
        s.name is None,
        s.rpc_url is None,
        s.poll_interval is None,
        s.finality is None,
        s.allow_download is None,
        s.must_have_checksum is None,
        s.restart_after_upgrade is None,
        s.restart_delay is None,
        s.shutdown_grace is None,
        s.data_dir is None,
        s.backup_dir is None,
        s.skip_backup is None,
        s.preupgrade_script is None,
        s.disable_logs is None,
    ensures
        s.fault() is None,
        s.config().home == s.home->0,
        s.config().name == "midnight-node"@,
        s.config().rpc_url == "http://127.0.0.1:9944"@,
        s.config().poll_interval == (Duration { secs: 5, nanos: 0 }),
        s.config().finality == Finality::Best,
        !s.config().allow_download,
        s.config().download_must_have_checksum,
        s.config().restart_after_upgrade,
        s.config().restart_delay == (Duration { secs: 0, nanos: 0 }),
        s.config().shutdown_grace == (Duration { secs: 60, nanos: 0 }),
        s.config().data_dir is None,
        s.config().backup_dir is None,
        !s.config().unsafe_skip_backup,
        s.config().preupgrade_script is None,
        !s.config().disable_logs,
{
    reveal_strlit("midnight-node");
    assert(!"midnight-node"@.contains('/'));
}

/// Each setting bears on its own part of the configuration, and on no other.
pub proof fn settings_do_not_mix(s: SettingsView, t: SettingsView)
    ensures
        s.home == t.home ==> s.config().home == t.config().home,
        s.name == t.name ==> s.config().name == t.config().name,
        s.rpc_url == t.rpc_url ==> s.config().rpc_url == t.config().rpc_url,
        s.poll_interval == t.poll_interval ==> s.config().poll_interval
            == t.config().poll_interval,
        s.finality == t.finality ==> s.config().finality == t.config().finality,
        s.allow_download == t.allow_download ==> s.config().allow_download
            == t.config().allow_download,
        s.must_have_checksum == t.must_have_checksum ==> s.config().download_must_have_checksum
            == t.config().download_must_have_checksum,
        s.restart_after_upgrade == t.restart_after_upgrade ==> s.config().restart_after_upgrade
            == t.config().restart_after_upgrade,
        s.restart_delay == t.restart_delay ==> s.config().restart_delay
            == t.config().restart_delay,
        s.shutdown_grace == t.shutdown_grace ==> s.config().shutdown_grace
            == t.config().shutdown_grace,
        s.data_dir == t.data_dir ==> s.config().data_dir == t.config().data_dir,
        s.backup_dir == t.backup_dir ==> s.config().backup_dir == t.config().backup_dir,
        s.skip_backup == t.skip_backup ==> s.config().unsafe_skip_backup
            == t.config().unsafe_skip_backup,
        s.preupgrade_script == t.preupgrade_script ==> s.config().preupgrade_script
            == t.config().preupgrade_script,
        s.disable_logs == t.disable_logs ==> s.config().disable_logs == t.config().disable_logs,
{
}

/// A setting that is given counts as it is given.
pub proof fn given_settings_count(s: SettingsView, t: Seq<char>)
    ensures
        s.home == Some(t) ==> s.config().home == t,
        s.name == Some(t) ==> s.config().name == t,
        s.rpc_url == Some(t) ==> s.config().rpc_url == t,
        s.config().data_dir == s.data_dir,
        s.config().backup_dir == s.backup_dir,
        s.config().preupgrade_script == s.preupgrade_script,
        lower_case_of(t, "finalized"@) && s.finality == Some(t) ==> s.config().finality
            == Finality::Finalized,
        lower_case_of(t, "best"@) && s.finality == Some(t) ==> s.config().finality
            == Finality::Best,
        lower_case_of(t, "true"@) && s.allow_download == Some(t) ==> s.config().allow_download,
        lower_case_of(t, "false"@) && s.allow_download == Some(t) ==> !s.config().allow_download,
        lower_case_of(t, "true"@) && s.must_have_checksum == Some(t)
            ==> s.config().download_must_have_checksum,
        lower_case_of(t, "false"@) && s.must_have_checksum == Some(t)
            ==> !s.config().download_must_have_checksum,
        lower_case_of(t, "true"@) && s.restart_after_upgrade == Some(t)
            ==> s.config().restart_after_upgrade,
        lower_case_of(t, "false"@) && s.restart_after_upgrade == Some(t)
            ==> !s.config().restart_after_upgrade,
        lower_case_of(t, "true"@) && s.skip_backup == Some(t) ==> s.config().unsafe_skip_backup,
        lower_case_of(t, "false"@) && s.skip_backup == Some(t) ==> !s.config().unsafe_skip_backup,
        lower_case_of(t, "true"@) && s.disable_logs == Some(t) ==> s.config().disable_logs,
        lower_case_of(t, "false"@) && s.disable_logs == Some(t) ==> !s.config().disable_logs,
{
    truth_values_are_spelled_so(t, "true"@, true);
    truth_values_are_spelled_so(t, "true"@, false);
    truth_values_are_spelled_so(t, "false"@, true);
    truth_values_are_spelled_so(t, "false"@, false);
    finality_is_spelled_so(t, "best"@);
    finality_is_spelled_so(t, "finalized"@);
}

/// The spans that are handed over are the ones that the configuration has.
pub proof fn spans_go_where_they_belong(s: SettingsView, spans: Spans)
    requires
        s.fault_with(spans) is None,
    ensures
        spans.poll == Some(s.config_with(spans).poll_interval),
        spans.delay == Some(s.config_with(spans).restart_delay),
        spans.grace == Some(s.config_with(spans).shutdown_grace),
{
}

/// Settings are accepted exactly if the home is absolute, the name is a plain file name, and
/// everything else can be read, with a polling interval that is not zero.
pub proof fn settings_are_accepted_if_all_can_be_read(s: SettingsView, spans: Spans)
    ensures
        s.fault_with(spans) is None <==> {
            &&& s.home matches Some(h) && h.len() > 0 && h[0] == '/'
            &&& s.name matches Some(n) ==> n.len() > 0 && !n.contains('/')
            &&& finality_of(s.finality) is Some
            &&& spans.poll matches Some(d) && !(d.secs == 0 && d.nanos == 0)
            &&& spans.delay is Some
            &&& spans.grace is Some
            &&& boolean_of(s.allow_download, false) is Some
            &&& boolean_of(s.must_have_checksum, true) is Some
            &&& boolean_of(s.restart_after_upgrade, true) is Some
            &&& boolean_of(s.skip_backup, false) is Some
            &&& boolean_of(s.disable_logs, false) is Some
        },
{
    reveal_strlit("midnight-node");
    assert(!"midnight-node"@.contains('/'));
}

/// What is refused is refused for a reason that is there: the setting that is blamed is the
/// one that cannot be read.
pub proof fn faults_are_real(s: SettingsView, spans: Spans)
    ensures
        match s.fault_with(spans) {
            None => true,
            Some(ConfigError::HomeNotSet) => s.home is None,
            Some(ConfigError::HomeNotAbsolute) => s.home matches Some(h) && !(h.len() > 0 && h[0]
                == '/'),
            Some(ConfigError::BadName) => s.name matches Some(n) && (n.len() == 0 || n.contains(
                '/',
            )),
            Some(ConfigError::BadFinality) => finality_of(s.finality) is None,
            Some(ConfigError::BadDuration(Setting::PollInterval)) => spans.poll is None,
            Some(ConfigError::BadDuration(Setting::RestartDelay)) => spans.delay is None,
            Some(ConfigError::BadDuration(Setting::ShutdownGrace)) => spans.grace is None,
            Some(ConfigError::BadBoolean(Setting::AllowDownload)) => boolean_of(
                s.allow_download,
                false,
            ) is None,
            Some(ConfigError::BadBoolean(Setting::MustHaveChecksum)) => boolean_of(
                s.must_have_checksum,
                true,
            ) is None,
            Some(ConfigError::BadBoolean(Setting::RestartAfterUpgrade)) => boolean_of(
                s.restart_after_upgrade,
                true,
            ) is None,
            Some(ConfigError::BadBoolean(Setting::SkipBackup)) => boolean_of(
                s.skip_backup,
                false,
            ) is None,
            Some(ConfigError::BadBoolean(Setting::DisableLogs)) => boolean_of(
                s.disable_logs,
                false,
            ) is None,
            Some(ConfigError::ZeroPollInterval) => spans.poll matches Some(d) && d.secs == 0
                && d.nanos == 0,
            Some(_) => false,
        },
{
    reveal_strlit("midnight-node");
    assert(!"midnight-node"@.contains('/'));
}

/// A value of a configuration file stands for the text that a variable would have: a text for
/// itself, a truth value for its name, and a number for its digits.
pub proof fn file_values_read_like_variables(t: Seq<char>, i: i64, b: bool)
    ensures
        scalar_text(ScalarView::Text(t)) == Some(t),
        i >= 0 ==> (scalar_text(ScalarView::Integer(i)) matches Some(d) && text::natural(d) == Some(
            i as nat,
        )),
        i < 0 ==> (scalar_text(ScalarView::Integer(i)) matches Some(d) && (text::after(d, "-"@)
            matches Some(n) && text::natural(n) == Some((-i) as nat))),
        boolean_of(scalar_text(ScalarView::Boolean(b)), !b) == Some(b),
        scalar_text(ScalarView::Other) is None,
{
    if i >= 0 {
        text::decimal_is_read_back(i as nat);
    } else {
        text::decimal_is_read_back((-i) as nat);
        crate::laws::text::prefix_comes_off("-"@, text::decimal((-i) as nat));
    }
    let word = if b {
        "true"@
    } else {
        "false"@
    };
    reveal_strlit("true");
    reveal_strlit("false");
    assert(lower_case_of(word, word));
    truth_values_are_spelled_so(word, word, !b);
}

/// A configuration file is refused exactly if it holds a value that can be no setting, and the
/// key that is named is that of the first such value.
pub proof fn unsupported_values_are_found(entries: Seq<(Seq<char>, ScalarView)>)
    ensures
        unsupported_key(entries) is None <==> forall|i: int|
            0 <= i < entries.len() ==> !((#[trigger] entries[i]).1 is Other),
        unsupported_key(entries) matches Some(key) ==> exists|i: int|
            #![trigger entries[i]]
            0 <= i < entries.len() && entries[i].1 is Other && entries[i].0 == key && forall|j: int|
                0 <= j < i ==> !((#[trigger] entries[j]).1 is Other),
    decreases entries.len(),
{
    if entries.len() > 0 && !(entries[0].1 is Other) {
        let rest = entries.drop_first();
        unsupported_values_are_found(rest);
        if let Some(key) = unsupported_key(rest) {
            let i = choose|i: int|
                #![trigger rest[i]]
                0 <= i < rest.len() && rest[i].1 is Other && rest[i].0 == key && forall|j: int|
                    0 <= j < i ==> !((#[trigger] rest[j]).1 is Other);
            assert(entries[i + 1] == rest[i]);
            assert forall|j: int| 0 <= j < i + 1 implies !((#[trigger] entries[j]).1 is Other) by {
                if j > 0 {
                    assert(entries[j] == rest[j - 1]);
                }
            }
        } else {
            assert forall|i: int| 0 <= i < entries.len() implies !((
            #[trigger] entries[i]).1 is Other) by {
                if i > 0 {
                    assert(entries[i] == rest[i - 1]);
                }
            }
        }
    } else if entries.len() > 0 {
        assert(entries[0].1 is Other);
    }
}

/// `a` is `b` but for the case of ASCII letters, where `b` is in upper case.
pub open spec fn upper_case_of(a: Seq<char>, b: Seq<char>) -> bool {
    a.len() == b.len() && forall|i: int|
        #![trigger a[i]]
        0 <= i < a.len() ==> if 'a' <= a[i] && a[i] <= 'z' {
            b[i] as int == a[i] as int - 32
        } else {
            b[i] == a[i]
        }
}

proof fn upper_case_is_upper(s: Seq<char>, t: Seq<char>)
    ensures
        upper_case_of(s, t) <==> text::upper(s) == t,
{
    if upper_case_of(s, t) {
        assert forall|i: int| 0 <= i < s.len() implies text::upper(s)[i] == t[i] by {
            assert(text::upper(s)[i] == text::upper_char(s[i]));
        }
        assert(text::upper(s) =~= t);
    }
    if text::upper(s) == t {
        assert forall|i: int| #![trigger s[i]] 0 <= i < s.len() implies if 'a' <= s[i] && s[i]
            <= 'z' {
            t[i] as int == s[i] as int - 32
        } else {
            t[i] == s[i]
        } by {
            assert(text::upper(s)[i] == text::upper_char(s[i]));
        }
    }
}

/// A key of a configuration file names its variable in upper or lower case; of several that
/// name one variable, the last counts, and a variable that no key names is not set.
pub proof fn last_key_counts(
    front: Seq<(Seq<char>, ScalarView)>,
    key: Seq<char>,
    value: ScalarView,
    rest: Seq<(Seq<char>, ScalarView)>,
    variable: Seq<char>,
)
    requires
        forall|i: int| 0 <= i < rest.len() ==> !upper_case_of((#[trigger] rest[i]).0, variable),
    ensures
        upper_case_of(key, variable) ==> file_value(front.push((key, value)) + rest, variable)
            == scalar_text(value),
        file_value(rest, variable) is None,
    decreases rest.len(),
{
    let all = front.push((key, value)) + rest;
    if rest.len() == 0 {
        assert(all =~= front.push((key, value)));
        assert(all.last() == (key, value));
        upper_case_is_upper(key, variable);
    } else {
        let less = rest.drop_last();
        assert forall|i: int| 0 <= i < less.len() implies !upper_case_of(
            (#[trigger] less[i]).0,
            variable,
        ) by {
            assert(less[i] == rest[i]);
        }
        last_key_counts(front, key, value, less, variable);
        assert(all.drop_last() =~= front.push((key, value)) + less);
        assert(all.last() == rest[rest.len() - 1]);
        upper_case_is_upper(rest[rest.len() - 1].0, variable);
    }
}

/// A variable that is set to a text wins over the file; one that is not set, or set to
/// nothing, leaves its setting to the key of its own name in the file.
pub proof fn variables_win_over_the_file(
    env: SettingsView,
    entries: Seq<(Seq<char>, ScalarView)>,
)
    ensures
        env.over(entries).home == wins(env.home, file_value(entries, "DAEMON_HOME"@)),
        env.over(entries).name == wins(env.name, file_value(entries, "DAEMON_NAME"@)),
        env.over(entries).rpc_url == wins(env.rpc_url, file_value(entries, "DAEMON_RPC_URL"@)),
        env.over(entries).poll_interval == wins(
            env.poll_interval,
            file_value(entries, "DAEMON_POLL_INTERVAL"@),
        ),
        env.over(entries).finality == wins(
            env.finality,
            file_value(entries, "DAEMON_UPGRADE_FINALITY"@),
        ),
        env.over(entries).allow_download == wins(
            env.allow_download,
            file_value(entries, "DAEMON_ALLOW_DOWNLOAD_BINARIES"@),
        ),
        env.over(entries).must_have_checksum == wins(
            env.must_have_checksum,
            file_value(entries, "DAEMON_DOWNLOAD_MUST_HAVE_CHECKSUM"@),
        ),
        env.over(entries).restart_after_upgrade == wins(
            env.restart_after_upgrade,
            file_value(entries, "DAEMON_RESTART_AFTER_UPGRADE"@),
        ),
        env.over(entries).restart_delay == wins(
            env.restart_delay,
            file_value(entries, "DAEMON_RESTART_DELAY"@),
        ),
        env.over(entries).shutdown_grace == wins(
            env.shutdown_grace,
            file_value(entries, "DAEMON_SHUTDOWN_GRACE"@),
        ),
        env.over(entries).data_dir == wins(env.data_dir, file_value(entries, "DAEMON_DATA_DIR"@)),
        env.over(entries).backup_dir == wins(
            env.backup_dir,
            file_value(entries, "DAEMON_DATA_BACKUP_DIR"@),
        ),
        env.over(entries).skip_backup == wins(
            env.skip_backup,
            file_value(entries, "UNSAFE_SKIP_BACKUP"@),
        ),
        env.over(entries).preupgrade_script == wins(
            env.preupgrade_script,
            file_value(entries, "DAEMON_PREUPGRADE_SCRIPT"@),
        ),
        env.over(entries).disable_logs == wins(
            env.disable_logs,
            file_value(entries, "MIDNIGHT_NODE_UPDATER_DISABLE_LOGS"@),
        ),
{
}

/// `first`, unless it is missing or empty; then `second`.
pub open spec fn wins(first: Option<Seq<char>>, second: Option<Seq<char>>) -> Option<Seq<char>> {
    if first matches Some(t) && t.len() > 0 {
        first
    } else {
        second
    }
}

/// The decimal number with `s` read behind what was read of it.
spec fn read_on(d: Decimal, s: Seq<char>) -> Decimal
    decreases s.len(),
{
    if s.len() == 0 {
        d
    } else {
        read_on(d, s.drop_last()).with(s.last())
    }
}

proof fn read_on_one(d: Decimal, s: Seq<char>)
    requires
        s.len() > 0,
    ensures
        read_on(d, s) == read_on(d.with(s[0]), s.drop_first()),
    decreases s.len(),
{
    if s.len() == 1 {
        assert(s.drop_last() =~= Seq::<char>::empty());
        assert(s.drop_first() =~= Seq::<char>::empty());
        assert(read_on(d, s.drop_last()) == d);
    } else {
        read_on_one(d, s.drop_last());
        assert(s.drop_last().drop_first() =~= s.drop_first().drop_last());
    }
}

proof fn all_digits(s: Seq<char>, i: int)
    requires
        text::digits_value(s) is Some,
        0 <= i < s.len(),
    ensures
        '0' <= s[i] && s[i] <= '9',
    decreases s.len(),
{
    if i < s.len() - 1 {
        all_digits(s.drop_last(), i);
        assert(s.drop_last()[i] == s[i]);
    }
}

proof fn spelled_reads_on(s: Seq<char>, unit: Seq<char>, d: Decimal)
    requires
        forall|i: int| 0 <= i < s.len() ==> '0' <= #[trigger] s[i] && s[i] <= '9',
        unit.len() > 0,
        unit_letter(unit[0]),
    ensures
        spelled_from(s + unit, d) == read_on(d, s).times(unit_length(unit)) + spelled_from(
            unit.drop_first(),
            Decimal::zero(),
        ),
    decreases s.len(),
{
    if s.len() == 0 {
        assert(s + unit =~= unit);
    } else {
        let rest = s.drop_first();
        assert forall|i: int| 0 <= i < rest.len() implies '0' <= #[trigger] rest[i] && rest[i]
            <= '9' by {
            assert(rest[i] == s[i + 1]);
        }
        spelled_reads_on(rest, unit, d.with(s[0]));
        read_on_one(d, s);
        assert((s + unit)[0] == s[0]);
        assert((s + unit).drop_first() =~= rest + unit);
        assert(!unit_letter(s[0]));
    }
}

proof fn whole_is_read(s: Seq<char>)
    requires
        text::digits_value(s) is Some,
    ensures
        read_on(Decimal::zero(), s) == (Decimal {
            whole: text::digits_value(s)->0,
            num: 0,
            den: 1,
            point: false,
        }),
    decreases s.len(),
{
    if s.len() > 0 {
        whole_is_read(s.drop_last());
    }
}

proof fn letters_alone_spell_nothing(s: Seq<char>)
    requires
        forall|i: int| 0 <= i < s.len() ==> unit_letter(#[trigger] s[i]),
    ensures
        spelled_from(s, Decimal::zero()) == 0,
    decreases s.len(),
{
    if s.len() > 0 {
        let rest = s.drop_first();
        assert forall|i: int| 0 <= i < rest.len() implies unit_letter(#[trigger] rest[i]) by {
            assert(rest[i] == s[i + 1]);
        }
        letters_alone_spell_nothing(rest);
        number_times_unit(0, unit_length(s));
    }
}

proof fn number_times_unit(n: nat, unit: nat)
    ensures
        (Decimal { whole: n, num: 0, den: 1, point: false }).times(unit) == n * unit,
{
    assert(0 * unit == 0) by (nonlinear_arith);
}

proof fn number_with_unit(n: nat, unit: Seq<char>)
    requires
        unit.len() > 0,
        forall|i: int| 0 <= i < unit.len() ==> unit_letter(#[trigger] unit[i]),
    ensures
        spelled(text::decimal(n) + unit) == n * unit_length(unit),
{
    let s = text::decimal(n);
    text::decimal_is_read_back(n);
    assert forall|i: int| 0 <= i < s.len() implies '0' <= #[trigger] s[i] && s[i] <= '9' by {
        all_digits(s, i);
    }
    assert(unit_letter(unit[0]));
    spelled_reads_on(s, unit, Decimal::zero());
    whole_is_read(s);
    number_times_unit(n, unit_length(unit));
    let rest = unit.drop_first();
    assert forall|i: int| 0 <= i < rest.len() implies unit_letter(#[trigger] rest[i]) by {
        assert(rest[i] == unit[i + 1]);
    }
    letters_alone_spell_nothing(rest);
}

/// A span is spelled as a number and a unit, from nanoseconds to weeks.
pub proof fn spans_are_spelled_in_units(n: nat)
    ensures
        spelled(text::decimal(n) + "ns"@) == n,
        spelled(text::decimal(n) + "us"@) == n * 1_000,
        spelled(text::decimal(n) + "ms"@) == n * 1_000_000,
        spelled(text::decimal(n) + "s"@) == n * 1_000_000_000,
        spelled(text::decimal(n) + "sec"@) == n * 1_000_000_000,
        spelled(text::decimal(n) + "m"@) == n * 60_000_000_000,
        spelled(text::decimal(n) + "min"@) == n * 60_000_000_000,
        spelled(text::decimal(n) + "h"@) == n * 3_600_000_000_000,
        spelled(text::decimal(n) + "d"@) == n * 86_400_000_000_000,
        spelled(text::decimal(n) + "w"@) == n * 604_800_000_000_000,
{
    reveal_strlit("ns");
    reveal_strlit("us");
    reveal_strlit("ms");
    reveal_strlit("s");
    reveal_strlit("sec");
    reveal_strlit("m");
    reveal_strlit("min");
    reveal_strlit("h");
    reveal_strlit("d");
    reveal_strlit("w");
    number_with_unit(n, "ns"@);
    number_with_unit(n, "us"@);
    number_with_unit(n, "ms"@);
    number_with_unit(n, "s"@);
    number_with_unit(n, "sec"@);
    number_with_unit(n, "m"@);
    number_with_unit(n, "min"@);
    number_with_unit(n, "h"@);
    number_with_unit(n, "d"@);
    number_with_unit(n, "w"@);
}

/// Of several settings that cannot be read, the first is blamed: the home, the name, the
/// finality, and then the rest; a polling interval of zero comes last.
pub proof fn first_fault_of_the_settings_is_told(s: SettingsView, spans: Spans)
    ensures
        ({
            let fault = s.fault_with(spans);
            let home = s.home matches Some(h) && h.len() > 0 && h[0] == '/';
            let name = home && (s.name matches Some(n) ==> n.len() > 0 && !n.contains('/'));
            let finality = name && finality_of(s.finality) is Some;
            let poll = finality && spans.poll is Some;
            let download = poll && boolean_of(s.allow_download, false) is Some;
            let checksum = download && boolean_of(s.must_have_checksum, true) is Some;
            let restart = checksum && boolean_of(s.restart_after_upgrade, true) is Some;
            let delay = restart && spans.delay is Some;
            let grace = delay && spans.grace is Some;
            let skip = grace && boolean_of(s.skip_backup, false) is Some;
            let logs = skip && boolean_of(s.disable_logs, false) is Some;
            &&& s.home is None <==> fault == Some(ConfigError::HomeNotSet)
            &&& s.home is Some && !home <==> fault == Some(ConfigError::HomeNotAbsolute)
            &&& home && !name <==> fault == Some(ConfigError::BadName)
            &&& name && !finality <==> fault == Some(ConfigError::BadFinality)
            &&& finality && !poll <==> fault == Some(
                ConfigError::BadDuration(Setting::PollInterval),
            )
            &&& poll && !download <==> fault == Some(
                ConfigError::BadBoolean(Setting::AllowDownload),
            )
            &&& download && !checksum <==> fault == Some(
                ConfigError::BadBoolean(Setting::MustHaveChecksum),
            )
            &&& checksum && !restart <==> fault == Some(
                ConfigError::BadBoolean(Setting::RestartAfterUpgrade),
            )
            &&& restart && !delay <==> fault == Some(
                ConfigError::BadDuration(Setting::RestartDelay),
            )
            &&& delay && !grace <==> fault == Some(ConfigError::BadDuration(Setting::ShutdownGrace))
            &&& grace && !skip <==> fault == Some(ConfigError::BadBoolean(Setting::SkipBackup))
            &&& skip && !logs <==> fault == Some(ConfigError::BadBoolean(Setting::DisableLogs))
            &&& logs && spans.poll == Some(Duration { secs: 0, nanos: 0 }) <==> fault == Some(
                ConfigError::ZeroPollInterval,
            )
        }),
{
    reveal_strlit("midnight-node");
    assert(!"midnight-node"@.contains('/'));
}

} // verus!
