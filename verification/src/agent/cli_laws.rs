//! What the command line of the agent means.

use crate::agent::cli::{
    add_options, agent_command, any_asks_help, asks_help, bool_value, config_command, config_split,
    csv_parts, hba_options, init_options, integer_value, no_agent_set, no_hba_set, no_smartctl_set,
    persistent_command, positive, remove_options, run_target, set_options, smartctl_options,
    split_args, AgentCommandView, AgentSetView, CliFault, ConfigCommandView, HbaSetView, OptionsOf,
    PersistentCommandView, SmartctlSetView,
};
use crate::ctl::qm::{comma_free, law_joined_parts};
use crate::number::{
    decimal, law_printed_number_reads_back, law_printed_reading_reads_back, signed_decimal,
};
use crate::text::{joined, non_empty, pieces, trimmed, Separator};
use vstd::prelude::*;

verus! {

// ── Values ───────────────────────────────────────────────────────────────────

/// A number is read as what it says, unless it is zero or too large. A text that
/// is no number is told back.
pub proof fn law_numbers_are_read(n: nat, max: nat, v: i64)
    ensures
        1 <= n <= max ==> positive(decimal(n), max) == Ok::<nat, CliFault>(n),
        n > max ==> positive(decimal(n), max) == Err::<nat, CliFault>(
            CliFault::InvalidNumber(decimal(n)),
        ),
        positive(decimal(0), max) == Err::<nat, CliFault>(CliFault::Zero),
        integer_value(signed_decimal(v as int)) == Ok::<int, CliFault>(v as int),
{
    law_printed_number_reads_back(n);
    law_printed_number_reads_back(0);
    law_printed_reading_reads_back(v, Seq::empty());
}

/// The words for truth and for falsehood; no other word is either.
pub proof fn law_truth_is_read(s: Seq<char>)
    ensures
        bool_value(s) == Ok::<bool, CliFault>(true) <==> s == "true"@ || s == "1"@ || s == "yes"@
            || s == "on"@,
        bool_value(s) == Ok::<bool, CliFault>(false) <==> s == "false"@ || s == "0"@ || s == "no"@
            || s == "off"@,
        bool_value(s) is Err ==> bool_value(s) == Err::<bool, CliFault>(CliFault::InvalidBool(s)),
{
    reveal_strlit("true");
    reveal_strlit("1");
    reveal_strlit("yes");
    reveal_strlit("on");
    reveal_strlit("false");
    reveal_strlit("0");
    reveal_strlit("no");
    reveal_strlit("off");
    assert("true"@.len() == 4 && "1"@.len() == 1 && "yes"@.len() == 3 && "on"@.len() == 2);
    assert("false"@.len() == 5 && "0"@.len() == 1 && "no"@.len() == 2 && "off"@.len() == 3);
    assert("1"@[0] == '1' && "0"@[0] == '0' && "yes"@[0] == 'y' && "off"@[0] == 'o');
    assert("on"@[0] == 'o' && "no"@[0] == 'n');
}

/// A list that is written with commas is read as the list.
pub proof fn law_lists_are_read(parts: Seq<Seq<char>>)
    requires
        parts.len() > 0,
        forall|i: int|
            0 <= i < parts.len() ==> comma_free(#[trigger] parts[i]) && parts[i].len() > 0
                && trimmed(parts[i]) == parts[i],
    ensures
        csv_parts(joined(parts, ","@)) == parts,
{
    law_joined_parts(parts);
    let all = pieces(joined(parts, ","@), Separator::Char(','));
    assert(all.map_values(|part: Seq<char>| trimmed(part)) =~= parts);
    lemma_all_kept(parts);
}

proof fn lemma_all_kept(parts: Seq<Seq<char>>)
    requires
        forall|i: int| 0 <= i < parts.len() ==> (#[trigger] parts[i]).len() > 0,
    ensures
        non_empty(parts) == parts,
    decreases parts.len(),
{
    if parts.len() > 0 {
        let before = parts.drop_last();
        assert forall|i: int| 0 <= i < before.len() implies (#[trigger] before[i]).len() > 0 by {
            assert(before[i] == parts[i]);
        }
        lemma_all_kept(before);
        assert(parts[parts.len() - 1].len() > 0);
        assert(before.push(parts.last()) =~= parts);
    } else {
        assert(non_empty(parts) =~= parts);
    }
}

// ── The configuration ────────────────────────────────────────────────────────

/// Whether none of some arguments is `--config`.
pub open spec fn names_no_config(args: Seq<Seq<char>>) -> bool {
    forall|i: int| 0 <= i < args.len() ==> (#[trigger] args[i]) != "--config"@
}

/// Arguments that name no configuration leave it at the default, and stay. The
/// last configuration that is named counts, and the other arguments stay, in
/// order. A `--config` without a path is refused.
pub proof fn law_last_config_counts(
    before: Seq<Seq<char>>,
    path: Seq<char>,
    behind: Seq<Seq<char>>,
)
    requires
        names_no_config(behind),
    ensures
        split_args(behind) == Ok::<(Seq<char>, Seq<Seq<char>>), CliFault>(
            ("/etc/vfio-sensor-bridge/agent.toml"@, behind),
        ),
        split_args(before) matches Ok((_, rest)) ==> split_args(
            before + seq!["--config"@, path] + behind,
        ) == Ok::<(Seq<char>, Seq<Seq<char>>), CliFault>((path, rest + behind)),
        split_args(before) is Ok ==> split_args(before + seq!["--config"@]) == Err::<
            (Seq<char>, Seq<Seq<char>>),
            CliFault,
        >(CliFault::ConfigRequiresPath),
{
    let default = "/etc/vfio-sensor-bridge/agent.toml"@;
    lemma_config_plain(behind, default, Seq::empty());
    assert(Seq::<Seq<char>>::empty() + behind =~= behind);
    if let Ok((named, rest)) = split_args(before) {
        let more = seq!["--config"@, path] + behind;
        lemma_config_concat(before, more, default, Seq::empty());
        assert(before + seq!["--config"@, path] + behind =~= before + more);
        assert(more.skip(2) =~= behind);
        lemma_config_plain(behind, path, rest);
        lemma_config_concat(before, seq!["--config"@], default, Seq::empty());
    }
}

proof fn lemma_config_plain(args: Seq<Seq<char>>, path: Seq<char>, rest: Seq<Seq<char>>)
    requires
        names_no_config(args),
    ensures
        config_split(args, path, rest) == Ok::<(Seq<char>, Seq<Seq<char>>), CliFault>(
            (path, rest + args),
        ),
    decreases args.len(),
{
    if args.len() == 0 {
        assert(rest + args =~= rest);
    } else {
        let less = args.skip(1);
        assert forall|i: int| 0 <= i < less.len() implies (#[trigger] less[i]) != "--config"@ by {
            assert(less[i] == args[i + 1]);
        }
        lemma_config_plain(less, path, rest.push(args[0]));
        assert(args[0] != "--config"@);
        assert(rest.push(args[0]) + less =~= rest + args);
    }
}

proof fn lemma_config_concat(
    a: Seq<Seq<char>>,
    b: Seq<Seq<char>>,
    path: Seq<char>,
    rest: Seq<Seq<char>>,
)
    ensures
        config_split(a, path, rest) matches Ok((p, r)) ==> config_split(a + b, path, rest)
            == config_split(b, p, r),
    decreases a.len(),
{
    if a.len() == 0 {
        assert(a + b =~= b);
    } else if a[0] == "--config"@ {
        if a.len() >= 2 {
            lemma_config_concat(a.skip(2), b, a[1], rest);
            assert((a + b).skip(2) =~= a.skip(2) + b);
        }
    } else {
        lemma_config_concat(a.skip(1), b, path, rest.push(a[0]));
        assert((a + b).skip(1) =~= a.skip(1) + b);
    }
}

// ── Options ──────────────────────────────────────────────────────────────────

/// Each option of `set` sets its own value and leaves the others as the
/// arguments before it came to. An option without its value is refused, and so is
/// one that nobody knows; a request for help is one for help.
pub proof fn law_options_of_set(
    args: Seq<Seq<char>>,
    set: AgentSetView,
    text: Seq<char>,
    n: nat,
)
    requires
        set_options(args, no_agent_set()) == Ok::<Option<AgentSetView>, CliFault>(Some(set)),
    ensures
        set_options(Seq::empty(), no_agent_set()) == Ok::<Option<AgentSetView>, CliFault>(Some(no_agent_set())),
        set_options(
            args + seq!["--scan-root"@, text],
            no_agent_set(),
        ) == Ok::<Option<AgentSetView>, CliFault>(
            Some(AgentSetView { scan_root: Some(text), ..set }),
        ),
        set_options(args + seq!["--scan-root"@], no_agent_set()) == Err::<Option<AgentSetView>, CliFault>(
            CliFault::RequiresValue("--scan-root"@),
        ),
        1 <= n <= u64::MAX ==> set_options(
            args + seq!["--sample-seconds"@, decimal(n)],
            no_agent_set(),
        ) == Ok::<Option<AgentSetView>, CliFault>(
            Some(AgentSetView { sample_seconds: Some(n), ..set }),
        ),
        set_options(args + seq!["--sample-seconds"@, decimal(0)], no_agent_set()) == Err::<Option<AgentSetView>, CliFault>(
            CliFault::Zero,
        ),
        set_options(args + seq!["--sample-seconds"@], no_agent_set()) == Err::<Option<AgentSetView>, CliFault>(
            CliFault::RequiresValue("--sample-seconds"@),
        ),
        1 <= n <= u64::MAX ==> set_options(
            args + seq!["--heartbeat-seconds"@, decimal(n)],
            no_agent_set(),
        ) == Ok::<Option<AgentSetView>, CliFault>(
            Some(AgentSetView { heartbeat_seconds: Some(n), ..set }),
        ),
        set_options(args + seq!["--heartbeat-seconds"@, decimal(0)], no_agent_set()) == Err::<Option<AgentSetView>, CliFault>(
            CliFault::Zero,
        ),
        set_options(args + seq!["--heartbeat-seconds"@], no_agent_set()) == Err::<Option<AgentSetView>, CliFault>(
            CliFault::RequiresValue("--heartbeat-seconds"@),
        ),
        1 <= n <= u64::MAX ==> set_options(
            args + seq!["--rescan-seconds"@, decimal(n)],
            no_agent_set(),
        ) == Ok::<Option<AgentSetView>, CliFault>(
            Some(AgentSetView { rescan_seconds: Some(n), ..set }),
        ),
        set_options(args + seq!["--rescan-seconds"@, decimal(0)], no_agent_set()) == Err::<Option<AgentSetView>, CliFault>(
            CliFault::Zero,
        ),
        set_options(args + seq!["--rescan-seconds"@], no_agent_set()) == Err::<Option<AgentSetView>, CliFault>(
            CliFault::RequiresValue("--rescan-seconds"@),
        ),
        asks_help(text) ==> set_options(args + seq![text], no_agent_set()) == Ok::<Option<AgentSetView>, CliFault>(None),
        !asks_help(text) && text != "--scan-root"@ && text != "--sample-seconds"@ && text != "--heartbeat-seconds"@ && text != "--rescan-seconds"@ ==> set_options(
            args + seq![text],
            no_agent_set(),
        ) == Err::<Option<AgentSetView>, CliFault>(CliFault::UnknownOption(OptionsOf::Agent, text)),
{
    lemma_command_words();
    law_numbers_are_read(n, u64::MAX as nat, 0);
    law_numbers_are_read(n, u32::MAX as nat, 0);
    reveal_with_fuel(set_options, 2);
    let none = no_agent_set();
    lemma_set_options_concat(args, seq!["--scan-root"@, text], none);
    assert(seq!["--scan-root"@, text].skip(2) =~= Seq::<Seq<char>>::empty());
    lemma_set_options_concat(args, seq!["--scan-root"@], none);
    lemma_set_options_concat(args, seq!["--sample-seconds"@, decimal(n)], none);
    assert(seq!["--sample-seconds"@, decimal(n)].skip(2) =~= Seq::<Seq<char>>::empty());
    lemma_set_options_concat(args, seq!["--sample-seconds"@, decimal(0)], none);
    assert(seq!["--sample-seconds"@, decimal(0)].skip(2) =~= Seq::<Seq<char>>::empty());
    lemma_set_options_concat(args, seq!["--sample-seconds"@], none);
    lemma_set_options_concat(args, seq!["--heartbeat-seconds"@, decimal(n)], none);
    assert(seq!["--heartbeat-seconds"@, decimal(n)].skip(2) =~= Seq::<Seq<char>>::empty());
    lemma_set_options_concat(args, seq!["--heartbeat-seconds"@, decimal(0)], none);
    assert(seq!["--heartbeat-seconds"@, decimal(0)].skip(2) =~= Seq::<Seq<char>>::empty());
    lemma_set_options_concat(args, seq!["--heartbeat-seconds"@], none);
    lemma_set_options_concat(args, seq!["--rescan-seconds"@, decimal(n)], none);
    assert(seq!["--rescan-seconds"@, decimal(n)].skip(2) =~= Seq::<Seq<char>>::empty());
    lemma_set_options_concat(args, seq!["--rescan-seconds"@, decimal(0)], none);
    assert(seq!["--rescan-seconds"@, decimal(0)].skip(2) =~= Seq::<Seq<char>>::empty());
    lemma_set_options_concat(args, seq!["--rescan-seconds"@], none);
    lemma_set_options_concat(args, seq![text], none);
    lemma_help_words();
}

proof fn lemma_set_options_concat(a: Seq<Seq<char>>, b: Seq<Seq<char>>, set: AgentSetView)
    ensures
        set_options(a, set) matches Ok(Some(t)) ==> set_options(a + b, set) == set_options(b, t),
    decreases a.len(),
{
    if a.len() == 0 {
        assert(a + b =~= b);
    } else if a.len() >= 2 {
        assert((a + b).skip(2) =~= a.skip(2) + b);
        if a[0] == "--scan-root"@ {
            lemma_set_options_concat(a.skip(2), b, AgentSetView { scan_root: Some(a[1]), ..set });
        }
        if a[0] == "--sample-seconds"@ {
            if let Ok(v) = positive(a[1], u64::MAX as nat) {
                lemma_set_options_concat(a.skip(2), b, AgentSetView { sample_seconds: Some(v), ..set });
            }
        }
        if a[0] == "--heartbeat-seconds"@ {
            if let Ok(v) = positive(a[1], u64::MAX as nat) {
                lemma_set_options_concat(a.skip(2), b, AgentSetView { heartbeat_seconds: Some(v), ..set });
            }
        }
        if a[0] == "--rescan-seconds"@ {
            if let Ok(v) = positive(a[1], u64::MAX as nat) {
                lemma_set_options_concat(a.skip(2), b, AgentSetView { rescan_seconds: Some(v), ..set });
            }
        }
    }
}

/// Each option of `hba` sets its own value and leaves the others as the
/// arguments before it came to. An option without its value is refused, and so is
/// one that nobody knows; a request for help is one for help.
pub proof fn law_options_of_hba(
    args: Seq<Seq<char>>,
    set: HbaSetView,
    text: Seq<char>,
    n: nat,
)
    requires
        hba_options(args, no_hba_set()) == Ok::<Option<HbaSetView>, CliFault>(Some(set)),
    ensures
        hba_options(Seq::empty(), no_hba_set()) == Ok::<Option<HbaSetView>, CliFault>(Some(no_hba_set())),
        bool_value(text) matches Ok(b) ==> hba_options(
            args + seq!["--enabled"@, text],
            no_hba_set(),
        ) == Ok::<Option<HbaSetView>, CliFault>(
            Some(HbaSetView { enabled: Some(b), ..set }),
        ),
        bool_value(text) is Err ==> hba_options(
            args + seq!["--enabled"@, text],
            no_hba_set(),
        ) == Err::<Option<HbaSetView>, CliFault>(CliFault::InvalidBool(text)),
        hba_options(args + seq!["--enabled"@], no_hba_set()) == Err::<Option<HbaSetView>, CliFault>(
            CliFault::RequiresValue("--enabled"@),
        ),
        hba_options(
            args + seq!["--devices"@, text],
            no_hba_set(),
        ) == Ok::<Option<HbaSetView>, CliFault>(
            Some(HbaSetView { devices: Some(csv_parts(text)), ..set }),
        ),
        hba_options(args + seq!["--devices"@], no_hba_set()) == Err::<Option<HbaSetView>, CliFault>(
            CliFault::RequiresValue("--devices"@),
        ),
        1 <= n <= u32::MAX ==> hba_options(
            args + seq!["--max-ioc"@, decimal(n)],
            no_hba_set(),
        ) == Ok::<Option<HbaSetView>, CliFault>(
            Some(HbaSetView { max_ioc: Some(n), ..set }),
        ),
        hba_options(args + seq!["--max-ioc"@, decimal(0)], no_hba_set()) == Err::<Option<HbaSetView>, CliFault>(
            CliFault::Zero,
        ),
        hba_options(args + seq!["--max-ioc"@], no_hba_set()) == Err::<Option<HbaSetView>, CliFault>(
            CliFault::RequiresValue("--max-ioc"@),
        ),
        asks_help(text) ==> hba_options(args + seq![text], no_hba_set()) == Ok::<Option<HbaSetView>, CliFault>(None),
        !asks_help(text) && text != "--enabled"@ && text != "--devices"@ && text != "--max-ioc"@ ==> hba_options(
            args + seq![text],
            no_hba_set(),
        ) == Err::<Option<HbaSetView>, CliFault>(CliFault::UnknownOption(OptionsOf::Hba, text)),
{
    lemma_command_words();
    law_numbers_are_read(n, u64::MAX as nat, 0);
    law_numbers_are_read(n, u32::MAX as nat, 0);
    reveal_with_fuel(hba_options, 2);
    let none = no_hba_set();
    lemma_hba_options_concat(args, seq!["--enabled"@, text], none);
    assert(seq!["--enabled"@, text].skip(2) =~= Seq::<Seq<char>>::empty());
    lemma_hba_options_concat(args, seq!["--enabled"@], none);
    lemma_hba_options_concat(args, seq!["--devices"@, text], none);
    assert(seq!["--devices"@, text].skip(2) =~= Seq::<Seq<char>>::empty());
    lemma_hba_options_concat(args, seq!["--devices"@], none);
    lemma_hba_options_concat(args, seq!["--max-ioc"@, decimal(n)], none);
    assert(seq!["--max-ioc"@, decimal(n)].skip(2) =~= Seq::<Seq<char>>::empty());
    lemma_hba_options_concat(args, seq!["--max-ioc"@, decimal(0)], none);
    assert(seq!["--max-ioc"@, decimal(0)].skip(2) =~= Seq::<Seq<char>>::empty());
    lemma_hba_options_concat(args, seq!["--max-ioc"@], none);
    lemma_hba_options_concat(args, seq![text], none);
    lemma_help_words();
}

proof fn lemma_hba_options_concat(a: Seq<Seq<char>>, b: Seq<Seq<char>>, set: HbaSetView)
    ensures
        hba_options(a, set) matches Ok(Some(t)) ==> hba_options(a + b, set) == hba_options(b, t),
    decreases a.len(),
{
    if a.len() == 0 {
        assert(a + b =~= b);
    } else if a.len() >= 2 {
        assert((a + b).skip(2) =~= a.skip(2) + b);
        if a[0] == "--enabled"@ {
            if let Ok(v) = bool_value(a[1]) {
                lemma_hba_options_concat(a.skip(2), b, HbaSetView { enabled: Some(v), ..set });
            }
        }
        if a[0] == "--devices"@ {
            lemma_hba_options_concat(a.skip(2), b, HbaSetView { devices: Some(csv_parts(a[1])), ..set });
        }
        if a[0] == "--max-ioc"@ {
            if let Ok(v) = positive(a[1], u32::MAX as nat) {
                lemma_hba_options_concat(a.skip(2), b, HbaSetView { max_ioc: Some(v), ..set });
            }
        }
    }
}

/// Each option of `smartctl` sets its own value and leaves the others as the
/// arguments before it came to. An option without its value is refused, and so is
/// one that nobody knows; a request for help is one for help.
pub proof fn law_options_of_smartctl(
    args: Seq<Seq<char>>,
    set: SmartctlSetView,
    text: Seq<char>,
    n: nat,
)
    requires
        smartctl_options(args, no_smartctl_set()) == Ok::<Option<SmartctlSetView>, CliFault>(Some(set)),
    ensures
        smartctl_options(Seq::empty(), no_smartctl_set()) == Ok::<Option<SmartctlSetView>, CliFault>(Some(no_smartctl_set())),
        bool_value(text) matches Ok(b) ==> smartctl_options(
            args + seq!["--enabled"@, text],
            no_smartctl_set(),
        ) == Ok::<Option<SmartctlSetView>, CliFault>(
            Some(SmartctlSetView { enabled: Some(b), ..set }),
        ),
        bool_value(text) is Err ==> smartctl_options(
            args + seq!["--enabled"@, text],
            no_smartctl_set(),
        ) == Err::<Option<SmartctlSetView>, CliFault>(CliFault::InvalidBool(text)),
        smartctl_options(args + seq!["--enabled"@], no_smartctl_set()) == Err::<Option<SmartctlSetView>, CliFault>(
            CliFault::RequiresValue("--enabled"@),
        ),
        smartctl_options(
            args + seq!["--device-globs"@, text],
            no_smartctl_set(),
        ) == Ok::<Option<SmartctlSetView>, CliFault>(
            Some(SmartctlSetView { device_globs: Some(csv_parts(text)), ..set }),
        ),
        smartctl_options(args + seq!["--device-globs"@], no_smartctl_set()) == Err::<Option<SmartctlSetView>, CliFault>(
            CliFault::RequiresValue("--device-globs"@),
        ),
        1 <= n <= u64::MAX ==> smartctl_options(
            args + seq!["--timeout-seconds"@, decimal(n)],
            no_smartctl_set(),
        ) == Ok::<Option<SmartctlSetView>, CliFault>(
            Some(SmartctlSetView { timeout_seconds: Some(n), ..set }),
        ),
        smartctl_options(args + seq!["--timeout-seconds"@, decimal(0)], no_smartctl_set()) == Err::<Option<SmartctlSetView>, CliFault>(
            CliFault::Zero,
        ),
        smartctl_options(args + seq!["--timeout-seconds"@], no_smartctl_set()) == Err::<Option<SmartctlSetView>, CliFault>(
            CliFault::RequiresValue("--timeout-seconds"@),
        ),
        1 <= n <= u64::MAX ==> smartctl_options(
            args + seq!["--poll-seconds"@, decimal(n)],
            no_smartctl_set(),
        ) == Ok::<Option<SmartctlSetView>, CliFault>(
            Some(SmartctlSetView { poll_seconds: Some(n), ..set }),
        ),
        smartctl_options(args + seq!["--poll-seconds"@, decimal(0)], no_smartctl_set()) == Err::<Option<SmartctlSetView>, CliFault>(
            CliFault::Zero,
        ),
        smartctl_options(args + seq!["--poll-seconds"@], no_smartctl_set()) == Err::<Option<SmartctlSetView>, CliFault>(
            CliFault::RequiresValue("--poll-seconds"@),
        ),
        asks_help(text) ==> smartctl_options(args + seq![text], no_smartctl_set()) == Ok::<Option<SmartctlSetView>, CliFault>(None),
        !asks_help(text) && text != "--enabled"@ && text != "--device-globs"@ && text != "--timeout-seconds"@ && text != "--poll-seconds"@ ==> smartctl_options(
            args + seq![text],
            no_smartctl_set(),
        ) == Err::<Option<SmartctlSetView>, CliFault>(CliFault::UnknownOption(OptionsOf::Smartctl, text)),
{
    lemma_command_words();
    law_numbers_are_read(n, u64::MAX as nat, 0);
    law_numbers_are_read(n, u32::MAX as nat, 0);
    reveal_with_fuel(smartctl_options, 2);
    let none = no_smartctl_set();
    lemma_smartctl_options_concat(args, seq!["--enabled"@, text], none);
    assert(seq!["--enabled"@, text].skip(2) =~= Seq::<Seq<char>>::empty());
    lemma_smartctl_options_concat(args, seq!["--enabled"@], none);
    lemma_smartctl_options_concat(args, seq!["--device-globs"@, text], none);
    assert(seq!["--device-globs"@, text].skip(2) =~= Seq::<Seq<char>>::empty());
    lemma_smartctl_options_concat(args, seq!["--device-globs"@], none);
    lemma_smartctl_options_concat(args, seq!["--timeout-seconds"@, decimal(n)], none);
    assert(seq!["--timeout-seconds"@, decimal(n)].skip(2) =~= Seq::<Seq<char>>::empty());
    lemma_smartctl_options_concat(args, seq!["--timeout-seconds"@, decimal(0)], none);
    assert(seq!["--timeout-seconds"@, decimal(0)].skip(2) =~= Seq::<Seq<char>>::empty());
    lemma_smartctl_options_concat(args, seq!["--timeout-seconds"@], none);
    lemma_smartctl_options_concat(args, seq!["--poll-seconds"@, decimal(n)], none);
    assert(seq!["--poll-seconds"@, decimal(n)].skip(2) =~= Seq::<Seq<char>>::empty());
    lemma_smartctl_options_concat(args, seq!["--poll-seconds"@, decimal(0)], none);
    assert(seq!["--poll-seconds"@, decimal(0)].skip(2) =~= Seq::<Seq<char>>::empty());
    lemma_smartctl_options_concat(args, seq!["--poll-seconds"@], none);
    lemma_smartctl_options_concat(args, seq![text], none);
    lemma_help_words();
}

proof fn lemma_smartctl_options_concat(a: Seq<Seq<char>>, b: Seq<Seq<char>>, set: SmartctlSetView)
    ensures
        smartctl_options(a, set) matches Ok(Some(t)) ==> smartctl_options(a + b, set) == smartctl_options(b, t),
    decreases a.len(),
{
    if a.len() == 0 {
        assert(a + b =~= b);
    } else if a.len() >= 2 {
        assert((a + b).skip(2) =~= a.skip(2) + b);
        if a[0] == "--enabled"@ {
            if let Ok(v) = bool_value(a[1]) {
                lemma_smartctl_options_concat(a.skip(2), b, SmartctlSetView { enabled: Some(v), ..set });
            }
        }
        if a[0] == "--device-globs"@ {
            lemma_smartctl_options_concat(a.skip(2), b, SmartctlSetView { device_globs: Some(csv_parts(a[1])), ..set });
        }
        if a[0] == "--timeout-seconds"@ {
            if let Ok(v) = positive(a[1], u64::MAX as nat) {
                lemma_smartctl_options_concat(a.skip(2), b, SmartctlSetView { timeout_seconds: Some(v), ..set });
            }
        }
        if a[0] == "--poll-seconds"@ {
            if let Ok(v) = positive(a[1], u64::MAX as nat) {
                lemma_smartctl_options_concat(a.skip(2), b, SmartctlSetView { poll_seconds: Some(v), ..set });
            }
        }
    }
}

/// Nothing is changed that no option asks to change.
pub proof fn law_nothing_is_set()
    ensures
        no_agent_set().scan_root is None && no_agent_set().sample_seconds is None
            && no_agent_set().heartbeat_seconds is None && no_agent_set().rescan_seconds is None,
        no_hba_set().enabled is None && no_hba_set().devices is None && no_hba_set().max_ioc
            is None,
        no_smartctl_set().enabled is None && no_smartctl_set().device_globs is None
            && no_smartctl_set().timeout_seconds is None && no_smartctl_set().poll_seconds is None,
{
}

/// A sensor is made persistent by its place in the list and its default value,
/// in either order; both are needed. It is removed by its identifier.
pub proof fn law_options_of_persistent(n: nat, v: i64, id: Seq<char>)
    requires
        1 <= n <= usize::MAX,
    ensures
        add_options(
            seq!["--from"@, decimal(n), "--default-value"@, signed_decimal(v as int)],
            None,
            None,
        ) == Ok::<Option<(nat, int)>, CliFault>(Some((n, v as int))),
        add_options(
            seq!["--default-value"@, signed_decimal(v as int), "--from"@, decimal(n)],
            None,
            None,
        ) == Ok::<Option<(nat, int)>, CliFault>(Some((n, v as int))),
        add_options(seq!["--from"@, decimal(n)], None, None) == Err::<
            Option<(nat, int)>,
            CliFault,
        >(CliFault::RequiresDefaultValue),
        add_options(seq!["--default-value"@, signed_decimal(v as int)], None, None) == Err::<
            Option<(nat, int)>,
            CliFault,
        >(CliFault::RequiresFrom),
        add_options(seq!["--from"@, decimal(0)], None, None) == Err::<
            Option<(nat, int)>,
            CliFault,
        >(CliFault::Zero),
        remove_options(seq!["--id"@, id], None) == Ok::<Option<Seq<char>>, CliFault>(Some(id)),
        remove_options(Seq::empty(), None) == Err::<Option<Seq<char>>, CliFault>(
            CliFault::RequiresId,
        ),
{
    lemma_command_words();
    law_numbers_are_read(n, usize::MAX as nat, v);
    let from = seq!["--from"@, decimal(n)];
    let value = seq!["--default-value"@, signed_decimal(v as int)];
    let zero = seq!["--from"@, decimal(0)];
    let a = seq!["--from"@, decimal(n), "--default-value"@, signed_decimal(v as int)];
    let b = seq!["--default-value"@, signed_decimal(v as int), "--from"@, decimal(n)];
    let none = Seq::<Seq<char>>::empty();
    assert(from.skip(2) =~= none);
    assert(value.skip(2) =~= none);
    assert(a.skip(2) =~= value);
    assert(b.skip(2) =~= from);
    assert(add_options(none, Some(n), Some(v as int)) == Ok::<Option<(nat, int)>, CliFault>(
        Some((n, v as int)),
    ));
    assert(add_options(none, Some(n), None) is Err);
    assert(add_options(none, None, Some(v as int)) is Err);
    assert(add_options(value, Some(n), None) == add_options(none, Some(n), Some(v as int)));
    assert(add_options(from, None, Some(v as int)) == add_options(none, Some(n), Some(v as int)));
    assert(add_options(zero, None, None) is Err);
    let named = seq!["--id"@, id];
    assert(named.skip(2) =~= none);
    assert(remove_options(none, Some(id)) == Ok::<Option<Seq<char>>, CliFault>(Some(id)));
}

// ── Commands ─────────────────────────────────────────────────────────────────

/// What the commands on the configuration ask for.
pub proof fn law_config_commands(args: Seq<Seq<char>>)
    ensures
        config_command(Seq::empty()) == Ok::<ConfigCommandView, CliFault>(ConfigCommandView::Usage),
        config_command(seq!["show"@] + args) == Ok::<ConfigCommandView, CliFault>(
            ConfigCommandView::Show,
        ),
        config_command(seq!["validate"@] + args) == Ok::<ConfigCommandView, CliFault>(
            ConfigCommandView::Validate,
        ),
        config_command(seq!["init"@]) == Ok::<ConfigCommandView, CliFault>(
            ConfigCommandView::Init(false),
        ),
        config_command(seq!["init"@, "--force"@]) == Ok::<ConfigCommandView, CliFault>(
            ConfigCommandView::Init(true),
        ),
        set_options(args, no_agent_set()) matches Ok(Some(set)) ==> config_command(
            seq!["set"@] + args,
        ) == Ok::<ConfigCommandView, CliFault>(ConfigCommandView::SetAgent(set)),
        hba_options(args, no_hba_set()) matches Ok(Some(set)) ==> config_command(
            seq!["hba"@] + args,
        ) == Ok::<ConfigCommandView, CliFault>(ConfigCommandView::Hba(set)),
        smartctl_options(args, no_smartctl_set()) matches Ok(Some(set)) ==> config_command(
            seq!["smartctl"@] + args,
        ) == Ok::<ConfigCommandView, CliFault>(ConfigCommandView::Smartctl(set)),
        persistent_command(args) matches Ok(command) ==> config_command(seq!["persistent"@] + args)
            == Ok::<ConfigCommandView, CliFault>(ConfigCommandView::Persistent(command)),
        persistent_command(Seq::empty()) == Ok::<PersistentCommandView, CliFault>(
            PersistentCommandView::Usage,
        ),
        persistent_command(seq!["list"@] + args) == Ok::<PersistentCommandView, CliFault>(
            PersistentCommandView::List,
        ),
        persistent_command(seq!["discover"@] + args) == Ok::<PersistentCommandView, CliFault>(
            PersistentCommandView::Discover,
        ),
        add_options(args, None, None) matches Ok(Some((from, value))) ==> persistent_command(
            seq!["add"@] + args,
        ) == Ok::<PersistentCommandView, CliFault>(PersistentCommandView::Add(from, value)),
        remove_options(args, None) matches Ok(Some(id)) ==> persistent_command(
            seq!["remove"@] + args,
        ) == Ok::<PersistentCommandView, CliFault>(PersistentCommandView::Remove(id)),
{
    lemma_command_words();
    lemma_help_words();
    let forced = seq!["init"@, "--force"@];
    let force = seq!["--force"@];
    let none = Seq::<Seq<char>>::empty();
    assert(forced.skip(1) =~= force);
    assert(force.skip(1) =~= none);
    assert(seq!["init"@].skip(1) =~= none);
    assert(init_options(none, true) == Ok::<Option<bool>, CliFault>(Some(true)));
    assert(init_options(force, false) == init_options(none, true));
    assert(init_options(none, false) == Ok::<Option<bool>, CliFault>(Some(false)));
    assert((seq!["show"@] + args).skip(1) =~= args);
    assert((seq!["validate"@] + args).skip(1) =~= args);
    assert((seq!["set"@] + args).skip(1) =~= args);
    assert((seq!["hba"@] + args).skip(1) =~= args);
    assert((seq!["smartctl"@] + args).skip(1) =~= args);
    assert((seq!["persistent"@] + args).skip(1) =~= args);
    assert((seq!["list"@] + args).skip(1) =~= args);
    assert((seq!["discover"@] + args).skip(1) =~= args);
    assert((seq!["add"@] + args).skip(1) =~= args);
    assert((seq!["remove"@] + args).skip(1) =~= args);
}

/// What the commands of the agent ask for: without arguments it runs with the
/// default configuration, and with a single path with that one.
pub proof fn law_agent_commands(args: Seq<Seq<char>>, path: Seq<char>)
    ensures
        agent_command(Seq::empty()) == Ok::<AgentCommandView, CliFault>(
            AgentCommandView::Run("/etc/vfio-sensor-bridge/agent.toml"@),
        ),
        path != "run"@ && path != "config"@ && path != "--probe-hba"@ && path
            != "--probe-smartctl"@ && path != "-h"@ && path != "--help"@ ==> agent_command(
            seq![path] + args,
        ) == Ok::<AgentCommandView, CliFault>(AgentCommandView::Run(path)),
        agent_command(seq!["-h"@] + args) == Ok::<AgentCommandView, CliFault>(
            AgentCommandView::Usage,
        ),
        agent_command(seq!["--help"@] + args) == Ok::<AgentCommandView, CliFault>(
            AgentCommandView::Usage,
        ),
        agent_command(seq!["run"@]) == Ok::<AgentCommandView, CliFault>(
            AgentCommandView::Run("/etc/vfio-sensor-bridge/agent.toml"@),
        ),
        agent_command(seq!["run"@, "--config"@, path]) == Ok::<AgentCommandView, CliFault>(
            AgentCommandView::Run(path),
        ),
        path != "--config"@ && path != "-h"@ && path != "--help"@ ==> agent_command(
            seq!["run"@, path],
        ) == Err::<AgentCommandView, CliFault>(CliFault::UnexpectedRunArgument(path)),
        agent_command(seq!["--probe-hba"@]) == Ok::<AgentCommandView, CliFault>(
            AgentCommandView::ProbeHba("/etc/vfio-sensor-bridge/agent.toml"@),
        ),
        agent_command(seq!["--probe-hba"@, path]) == Ok::<AgentCommandView, CliFault>(
            AgentCommandView::ProbeHba(path),
        ),
        agent_command(seq!["--probe-smartctl"@]) == Ok::<AgentCommandView, CliFault>(
            AgentCommandView::ProbeSmartctl("/etc/vfio-sensor-bridge/agent.toml"@),
        ),
        agent_command(seq!["--probe-smartctl"@, path]) == Ok::<AgentCommandView, CliFault>(
            AgentCommandView::ProbeSmartctl(path),
        ),
        split_args(args) matches Ok((named, rest)) ==> (config_command(rest) matches Ok(command)
            ==> agent_command(seq!["config"@] + args) == Ok::<AgentCommandView, CliFault>(
            AgentCommandView::Config(named, command),
        )),
{
    lemma_command_words();
    lemma_help_words();
    let none = Seq::<Seq<char>>::empty();
    law_last_config_counts(none, path, none);
    assert(seq!["run"@].skip(1) =~= none);
    let named = seq!["run"@, "--config"@, path];
    assert(named.skip(1) =~= none + seq!["--config"@, path] + none);
    assert(none + none =~= none);
    assert((seq!["config"@] + args).skip(1) =~= args);
    assert(run_target(none) == Ok::<Option<Seq<char>>, CliFault>(
        Some("/etc/vfio-sensor-bridge/agent.toml"@),
    ));
    if path != "--config"@ {
        let one = seq![path];
        law_last_config_counts(none, path, one);
        assert(seq!["run"@, path].skip(1) =~= one);
        if path != "-h"@ && path != "--help"@ {
            assert(!any_asks_help(one));
        }
    }
}

/// Only these two words ask for help.
pub proof fn law_help_is_asked_for(arg: Seq<char>)
    ensures
        asks_help(arg) <==> arg == "-h"@ || arg == "--help"@,
{
}

proof fn lemma_help_words()
    ensures
        !asks_help("run"@),
        !asks_help("config"@),
        !asks_help("--probe-hba"@),
        !asks_help("--probe-smartctl"@),
        !asks_help("show"@),
        !asks_help("validate"@),
        !asks_help("init"@),
        !asks_help("set"@),
        !asks_help("hba"@),
        !asks_help("smartctl"@),
        !asks_help("persistent"@),
        !asks_help("list"@),
        !asks_help("discover"@),
        !asks_help("add"@),
        !asks_help("remove"@),
        !asks_help("--config"@),
        !asks_help("--force"@),
        !asks_help("--scan-root"@),
        !asks_help("--sample-seconds"@),
        !asks_help("--heartbeat-seconds"@),
        !asks_help("--rescan-seconds"@),
        !asks_help("--enabled"@),
        !asks_help("--devices"@),
        !asks_help("--max-ioc"@),
        !asks_help("--device-globs"@),
        !asks_help("--timeout-seconds"@),
        !asks_help("--poll-seconds"@),
        !asks_help("--from"@),
        !asks_help("--default-value"@),
        !asks_help("--id"@),
{
    lemma_command_words();
}

/// The words of the command line are told apart by their lengths and letters.
proof fn lemma_command_words()
    ensures
        "-h"@.len() == 2 && "-h"@[0] == '-' && "-h"@[1] == 'h',
        "--help"@.len() == 6 && "--help"@[0] == '-' && "--help"@[1] == '-' && "--help"@[2] == 'h',
        "run"@.len() == 3 && "run"@[0] == 'r' && "run"@[1] == 'u' && "run"@[2] == 'n',
        "config"@.len() == 6 && "config"@[0] == 'c' && "config"@[1] == 'o' && "config"@[2] == 'n',
        "--probe-hba"@.len() == 11 && "--probe-hba"@[0] == '-' && "--probe-hba"@[1] == '-'
            && "--probe-hba"@[2] == 'p',
        "--probe-smartctl"@.len() == 16 && "--probe-smartctl"@[0] == '-'
            && "--probe-smartctl"@[1] == '-' && "--probe-smartctl"@[2] == 'p',
        "show"@.len() == 4 && "show"@[0] == 's' && "show"@[1] == 'h' && "show"@[2] == 'o',
        "validate"@.len() == 8 && "validate"@[0] == 'v' && "validate"@[1] == 'a'
            && "validate"@[2] == 'l',
        "init"@.len() == 4 && "init"@[0] == 'i' && "init"@[1] == 'n' && "init"@[2] == 'i',
        "set"@.len() == 3 && "set"@[0] == 's' && "set"@[1] == 'e' && "set"@[2] == 't',
        "hba"@.len() == 3 && "hba"@[0] == 'h' && "hba"@[1] == 'b' && "hba"@[2] == 'a',
        "smartctl"@.len() == 8 && "smartctl"@[0] == 's' && "smartctl"@[1] == 'm'
            && "smartctl"@[2] == 'a',
        "persistent"@.len() == 10 && "persistent"@[0] == 'p' && "persistent"@[1] == 'e'
            && "persistent"@[2] == 'r',
        "list"@.len() == 4 && "list"@[0] == 'l' && "list"@[1] == 'i' && "list"@[2] == 's',
        "discover"@.len() == 8 && "discover"@[0] == 'd' && "discover"@[1] == 'i'
            && "discover"@[2] == 's',
        "add"@.len() == 3 && "add"@[0] == 'a' && "add"@[1] == 'd' && "add"@[2] == 'd',
        "remove"@.len() == 6 && "remove"@[0] == 'r' && "remove"@[1] == 'e' && "remove"@[2] == 'm',
        "--config"@.len() == 8 && "--config"@[0] == '-' && "--config"@[1] == '-'
            && "--config"@[2] == 'c',
        "--force"@.len() == 7 && "--force"@[0] == '-' && "--force"@[1] == '-'
            && "--force"@[2] == 'f',
        "--scan-root"@.len() == 11 && "--scan-root"@[0] == '-' && "--scan-root"@[1] == '-'
            && "--scan-root"@[2] == 's',
        "--sample-seconds"@.len() == 16 && "--sample-seconds"@[0] == '-'
            && "--sample-seconds"@[1] == '-' && "--sample-seconds"@[2] == 's',
        "--heartbeat-seconds"@.len() == 19 && "--heartbeat-seconds"@[0] == '-'
            && "--heartbeat-seconds"@[1] == '-' && "--heartbeat-seconds"@[2] == 'h',
        "--rescan-seconds"@.len() == 16 && "--rescan-seconds"@[0] == '-'
            && "--rescan-seconds"@[1] == '-' && "--rescan-seconds"@[2] == 'r',
        "--enabled"@.len() == 9 && "--enabled"@[0] == '-' && "--enabled"@[1] == '-'
            && "--enabled"@[2] == 'e',
        "--devices"@.len() == 9 && "--devices"@[0] == '-' && "--devices"@[1] == '-'
            && "--devices"@[2] == 'd',
        "--max-ioc"@.len() == 9 && "--max-ioc"@[0] == '-' && "--max-ioc"@[1] == '-'
            && "--max-ioc"@[2] == 'm',
        "--device-globs"@.len() == 14 && "--device-globs"@[0] == '-' && "--device-globs"@[1] == '-'
            && "--device-globs"@[2] == 'd',
        "--timeout-seconds"@.len() == 17 && "--timeout-seconds"@[0] == '-'
            && "--timeout-seconds"@[1] == '-' && "--timeout-seconds"@[2] == 't',
        "--poll-seconds"@.len() == 14 && "--poll-seconds"@[0] == '-' && "--poll-seconds"@[1] == '-'
            && "--poll-seconds"@[2] == 'p',
        "--from"@.len() == 6 && "--from"@[0] == '-' && "--from"@[1] == '-' && "--from"@[2] == 'f',
        "--default-value"@.len() == 15 && "--default-value"@[0] == '-'
            && "--default-value"@[1] == '-' && "--default-value"@[2] == 'd',
        "--id"@.len() == 4 && "--id"@[0] == '-' && "--id"@[1] == '-' && "--id"@[2] == 'i',
{
    reveal_strlit("-h");
    reveal_strlit("--help");
    reveal_strlit("run");
    reveal_strlit("config");
    reveal_strlit("--probe-hba");
    reveal_strlit("--probe-smartctl");
    reveal_strlit("show");
    reveal_strlit("validate");
    reveal_strlit("init");
    reveal_strlit("set");
    reveal_strlit("hba");
    reveal_strlit("smartctl");
    reveal_strlit("persistent");
    reveal_strlit("list");
    reveal_strlit("discover");
    reveal_strlit("add");
    reveal_strlit("remove");
    reveal_strlit("--config");
    reveal_strlit("--force");
    reveal_strlit("--scan-root");
    reveal_strlit("--sample-seconds");
    reveal_strlit("--heartbeat-seconds");
    reveal_strlit("--rescan-seconds");
    reveal_strlit("--enabled");
    reveal_strlit("--devices");
    reveal_strlit("--max-ioc");
    reveal_strlit("--device-globs");
    reveal_strlit("--timeout-seconds");
    reveal_strlit("--poll-seconds");
    reveal_strlit("--from");
    reveal_strlit("--default-value");
    reveal_strlit("--id");
}

} // verus!
