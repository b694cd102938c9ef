//! The command line of the agent.

use crate::agent::config::DEFAULT_CONFIG;
use crate::agent::config_edit::{AgentSet, HbaSet, SmartctlSet};
use crate::number::{
    at_most, fits_i64, parse_i64, parse_u32, parse_u64, parse_usize, parsed_int, parsed_nat,
};
use crate::text::{
    chars_of, concat, non_empty, optional_text, pieces, same, split, string_of, texts, trim_chars,
    trimmed, views, Separator,
};
use vstd::prelude::*;

verus! {

/// Whether an argument asks for help.
pub open spec fn asks_help(arg: Seq<char>) -> bool {
    arg == "-h"@ || arg == "--help"@
}

/// Whether an argument asks for help.
pub fn is_help_arg(arg: &str) -> (yes: bool)
    ensures
        yes == asks_help(arg@),
{
    same(arg, "-h") || same(arg, "--help")
}

// ── Errors ───────────────────────────────────────────────────────────────────

/// The commands that take options.
#[derive(Clone, Copy, Debug, PartialEq, Eq, Structural)]
pub enum OptionsOf {
    Init,
    Agent,
    Hba,
    Smartctl,
    PersistentAdd,
    PersistentRemove,
}

/// Why a command line is refused.
#[derive(Debug)]
pub enum CliError {
    /// `--config` stands last.
    ConfigRequiresPath,
    UnexpectedRunArgument(String),
    UnknownConfigCommand(String),
    UnknownPersistentCommand(String),
    UnknownOption(OptionsOf, String),
    /// An option stands last that takes a value.
    RequiresValue(String),
    InvalidBool(String),
    InvalidNumber(String),
    /// A number is zero that must not be.
    Zero,
    RequiresFrom,
    RequiresDefaultValue,
    RequiresId,
}

/// Why a command line is refused, with texts as sequences of characters.
#[verifier::ext_equal]
pub enum CliFault {
    ConfigRequiresPath,
    UnexpectedRunArgument(Seq<char>),
    UnknownConfigCommand(Seq<char>),
    UnknownPersistentCommand(Seq<char>),
    UnknownOption(OptionsOf, Seq<char>),
    RequiresValue(Seq<char>),
    InvalidBool(Seq<char>),
    InvalidNumber(Seq<char>),
    Zero,
    RequiresFrom,
    RequiresDefaultValue,
    RequiresId,
}

impl View for CliError {
    type V = CliFault;

    open spec fn view(&self) -> CliFault {
        match *self {
            CliError::ConfigRequiresPath => CliFault::ConfigRequiresPath,
            CliError::UnexpectedRunArgument(arg) => CliFault::UnexpectedRunArgument(arg@),
            CliError::UnknownConfigCommand(arg) => CliFault::UnknownConfigCommand(arg@),
            CliError::UnknownPersistentCommand(arg) => CliFault::UnknownPersistentCommand(arg@),
            CliError::UnknownOption(of, arg) => CliFault::UnknownOption(of, arg@),
            CliError::RequiresValue(arg) => CliFault::RequiresValue(arg@),
            CliError::InvalidBool(arg) => CliFault::InvalidBool(arg@),
            CliError::InvalidNumber(arg) => CliFault::InvalidNumber(arg@),
            CliError::Zero => CliFault::Zero,
            CliError::RequiresFrom => CliFault::RequiresFrom,
            CliError::RequiresDefaultValue => CliFault::RequiresDefaultValue,
            CliError::RequiresId => CliFault::RequiresId,
        }
    }
}

impl OptionsOf {
    /// How an unknown option of a command is called.
    pub open spec fn text(self) -> Seq<char> {
        match self {
            OptionsOf::Init => "unknown init option: "@,
            OptionsOf::Agent => "unknown set option: "@,
            OptionsOf::Hba => "unknown hba option: "@,
            OptionsOf::Smartctl => "unknown smartctl option: "@,
            OptionsOf::PersistentAdd => "unknown persistent add option: "@,
            OptionsOf::PersistentRemove => "unknown persistent remove option: "@,
        }
    }

    fn complaint(&self) -> (text: &'static str)
        ensures
            text@ == self.text(),
    {
        match self {
            OptionsOf::Init => "unknown init option: ",
            OptionsOf::Agent => "unknown set option: ",
            OptionsOf::Hba => "unknown hba option: ",
            OptionsOf::Smartctl => "unknown smartctl option: ",
            OptionsOf::PersistentAdd => "unknown persistent add option: ",
            OptionsOf::PersistentRemove => "unknown persistent remove option: ",
        }
    }
}

impl CliFault {
    /// What the error says to a reader.
    pub open spec fn text(self) -> Seq<char> {
        match self {
            CliFault::ConfigRequiresPath => "--config requires PATH"@,
            CliFault::UnexpectedRunArgument(arg) => "unexpected run argument: "@ + arg,
            CliFault::UnknownConfigCommand(arg) => "unknown config command: "@ + arg,
            CliFault::UnknownPersistentCommand(arg) => "unknown persistent command: "@ + arg,
            CliFault::UnknownOption(of, arg) => of.text() + arg,
            CliFault::RequiresValue(arg) => arg + " requires a value"@,
            CliFault::InvalidBool(arg) => "invalid bool: "@ + arg,
            CliFault::InvalidNumber(arg) => "invalid number: "@ + arg,
            CliFault::Zero => "value must be greater than zero"@,
            CliFault::RequiresFrom => "persistent add requires --from N"@,
            CliFault::RequiresDefaultValue => "persistent add requires --default-value VALUE"@,
            CliFault::RequiresId => "persistent remove requires --id ID"@,
        }
    }
}

impl CliError {
    /// What the error says to a reader.
    pub fn message(&self) -> (message: String)
        ensures
            message@ == self@.text(),
    {
        match self {
            CliError::ConfigRequiresPath => "--config requires PATH".to_string(),
            CliError::UnexpectedRunArgument(arg) => concat("unexpected run argument: ", arg),
            CliError::UnknownConfigCommand(arg) => concat("unknown config command: ", arg),
            CliError::UnknownPersistentCommand(arg) => concat("unknown persistent command: ", arg),
            CliError::UnknownOption(of, arg) => concat(of.complaint(), arg),
            CliError::RequiresValue(arg) => concat(arg, " requires a value"),
            CliError::InvalidBool(arg) => concat("invalid bool: ", arg),
            CliError::InvalidNumber(arg) => concat("invalid number: ", arg),
            CliError::Zero => "value must be greater than zero".to_string(),
            CliError::RequiresFrom => "persistent add requires --from N".to_string(),
            CliError::RequiresDefaultValue => {
                "persistent add requires --default-value VALUE".to_string()
            },
            CliError::RequiresId => "persistent remove requires --id ID".to_string(),
        }
    }
}

// ── Values ───────────────────────────────────────────────────────────────────

/// The truth value that a text spells.
pub open spec fn bool_value(s: Seq<char>) -> Result<bool, CliFault> {
    if s == "true"@ || s == "1"@ || s == "yes"@ || s == "on"@ {
        Ok(true)
    } else if s == "false"@ || s == "0"@ || s == "no"@ || s == "off"@ {
        Ok(false)
    } else {
        Err(CliFault::InvalidBool(s))
    }
}

/// The view of a value or an error.
pub open spec fn value_view<T>(result: Result<T, CliError>) -> Result<T, CliFault> {
    match result {
        Ok(value) => Ok(value),
        Err(error) => Err(error@),
    }
}

/// Reads a truth value.
pub fn parse_bool(value: &str) -> (result: Result<bool, CliError>)
    ensures
        value_view(result) == bool_value(value@),
{
    if same(value, "true") || same(value, "1") || same(value, "yes") || same(value, "on") {
        Ok(true)
    } else if same(value, "false") || same(value, "0") || same(value, "no") || same(value, "off") {
        Ok(false)
    } else {
        Err(CliError::InvalidBool(value.to_string()))
    }
}

/// A number that must not be zero.
pub open spec fn positive(s: Seq<char>, max: nat) -> Result<nat, CliFault> {
    match at_most(parsed_nat(s), max) {
        None => Err(CliFault::InvalidNumber(s)),
        Some(n) => if n == 0 {
            Err(CliFault::Zero)
        } else {
            Ok(n)
        },
    }
}

/// The view of a number or an error.
pub open spec fn number_view(result: Result<u64, CliError>) -> Result<nat, CliFault> {
    match result {
        Ok(n) => Ok(n as nat),
        Err(error) => Err(error@),
    }
}

/// Reads a number of seconds, which must not be zero.
pub fn parse_seconds(value: &str) -> (result: Result<u64, CliError>)
    ensures
        number_view(result) == positive(value@, u64::MAX as nat),
{
    match parse_u64(value) {
        None => Err(CliError::InvalidNumber(value.to_string())),
        Some(n) => {
            if n == 0 {
                Err(CliError::Zero)
            } else {
                Ok(n)
            }
        },
    }
}

/// Reads a number of ports, which must not be zero.
pub fn parse_count(value: &str) -> (result: Result<u32, CliError>)
    ensures
        (match result {
            Ok(n) => Ok::<nat, CliFault>(n as nat),
            Err(error) => Err(error@),
        }) == positive(value@, u32::MAX as nat),
{
    match parse_u32(value) {
        None => Err(CliError::InvalidNumber(value.to_string())),
        Some(n) => {
            if n == 0 {
                Err(CliError::Zero)
            } else {
                Ok(n)
            }
        },
    }
}

/// Reads a place in a list, which must not be zero.
pub fn parse_place(value: &str) -> (result: Result<usize, CliError>)
    ensures
        (match result {
            Ok(n) => Ok::<nat, CliFault>(n as nat),
            Err(error) => Err(error@),
        }) == positive(value@, usize::MAX as nat),
{
    match parse_usize(value) {
        None => Err(CliError::InvalidNumber(value.to_string())),
        Some(n) => {
            if n == 0 {
                Err(CliError::Zero)
            } else {
                Ok(n)
            }
        },
    }
}

/// The integer that a text spells.
pub open spec fn integer_value(s: Seq<char>) -> Result<int, CliFault> {
    match fits_i64(parsed_int(s)) {
        Some(n) => Ok(n),
        None => Err(CliFault::InvalidNumber(s)),
    }
}

/// Reads an integer.
pub fn parse_integer(value: &str) -> (result: Result<i64, CliError>)
    ensures
        (match result {
            Ok(n) => Ok::<int, CliFault>(n as int),
            Err(error) => Err(error@),
        }) == integer_value(value@),
{
    match parse_i64(value) {
        Some(n) => Ok(n),
        None => Err(CliError::InvalidNumber(value.to_string())),
    }
}

/// The texts between the commas, trimmed, without the empty ones.
pub open spec fn csv_parts(value: Seq<char>) -> Seq<Seq<char>> {
    non_empty(
        pieces(value, Separator::Char(',')).map_values(|part: Seq<char>| trimmed(part)),
    )
}

/// Splits a text at its commas.
pub fn split_csv(value: &str) -> (parts: Vec<String>)
    ensures
        texts(parts@) == csv_parts(value@),
{
    let chars = chars_of(value);
    let all = split(&chars, Separator::Char(','));
    let ghost cut = views(all@).map_values(|part: Seq<char>| trimmed(part));
    let mut parts: Vec<String> = Vec::new();
    assert(texts(parts@) =~= non_empty(cut.take(0)));
    for i in 0..all.len()
        invariant
            cut == views(all@).map_values(|part: Seq<char>| trimmed(part)),
            texts(parts@) == non_empty(cut.take(i as int)),
    {
        let ghost before = texts(parts@);
        assert(cut.take(i as int + 1).drop_last() =~= cut.take(i as int));
        let part = trim_chars(&all[i]);
        if part.len() > 0 {
            parts.push(string_of(&part));
            assert(texts(parts@) =~= before.push(part@));
        }
    }
    assert(cut.take(cut.len() as int) =~= cut);
    parts
}

// ── Paths of configurations ──────────────────────────────────────────────────

/// The configuration that arguments name, and the other arguments.
pub open spec fn config_split(
    args: Seq<Seq<char>>,
    path: Seq<char>,
    rest: Seq<Seq<char>>,
) -> Result<(Seq<char>, Seq<Seq<char>>), CliFault>
    decreases args.len(),
{
    if args.len() == 0 {
        Ok((path, rest))
    } else if args[0] == "--config"@ {
        if args.len() < 2 {
            Err(CliFault::ConfigRequiresPath)
        } else {
            config_split(args.skip(2), args[1], rest)
        }
    } else {
        config_split(args.skip(1), path, rest.push(args[0]))
    }
}

/// What arguments come to: the last configuration they name, or the default,
/// and the arguments that name none.
pub open spec fn split_args(args: Seq<Seq<char>>) -> Result<
    (Seq<char>, Seq<Seq<char>>),
    CliFault,
> {
    config_split(args, DEFAULT_CONFIG@, Seq::empty())
}

/// The view of a path and arguments.
pub open spec fn split_view(result: Result<(String, Vec<String>), CliError>) -> Result<
    (Seq<char>, Seq<Seq<char>>),
    CliFault,
> {
    match result {
        Ok((path, rest)) => Ok((path@, texts(rest@))),
        Err(error) => Err(error@),
    }
}

/// Takes the configuration that arguments name out of them.
pub fn split_config_path(args: &[String]) -> (result: Result<(String, Vec<String>), CliError>)
    ensures
        split_view(result) == split_args(texts(args@)),
{
    let ghost all = texts(args@);
    let mut path = DEFAULT_CONFIG.to_string();
    let mut rest: Vec<String> = Vec::new();
    let mut i: usize = 0;
    assert(all.skip(0) =~= all);
    assert(texts(rest@) =~= Seq::<Seq<char>>::empty());
    while i < args.len()
        invariant
            i <= args@.len(),
            all == texts(args@),
            split_args(all) == config_split(all.skip(i as int), path@, texts(rest@)),
        decreases args@.len() - i,
    {
        let ghost tail = all.skip(i as int);
        assert(tail[0] == args@[i as int]@);
        if same(&args[i], "--config") {
            if i + 1 >= args.len() {
                return Err(CliError::ConfigRequiresPath);
            }
            assert(tail[1] == args@[i as int + 1]@);
            assert(tail.skip(2) =~= all.skip(i as int + 2));
            path = args[i + 1].clone();
            i = i + 2;
        } else {
            let ghost before = texts(rest@);
            rest.push(args[i].clone());
            assert(texts(rest@) =~= before.push(tail[0]));
            assert(tail.skip(1) =~= all.skip(i as int + 1));
            i = i + 1;
        }
    }
    Ok((path, rest))
}

// ── Options ──────────────────────────────────────────────────────────────────

/// What the options of a command come to.
pub enum Options<T> {
    /// Help is asked for.
    Help,
    /// These are the options.
    Given(T),
}

/// The options of `init`: whether to overwrite. `None` where help is asked for.
pub open spec fn init_options(args: Seq<Seq<char>>, force: bool) -> Result<Option<bool>, CliFault>
    decreases args.len(),
{
    if args.len() == 0 {
        Ok(Some(force))
    } else if args[0] == "--force"@ {
        init_options(args.skip(1), true)
    } else if asks_help(args[0]) {
        Ok(None)
    } else {
        Err(CliFault::UnknownOption(OptionsOf::Init, args[0]))
    }
}

/// Reads the options of `init`.
pub fn parse_init_options(args: &[String]) -> (result: Result<Options<bool>, CliError>)
    ensures
        (match result {
            Ok(Options::Given(force)) => Ok::<Option<bool>, CliFault>(Some(force)),
            Ok(Options::Help) => Ok(None),
            Err(error) => Err(error@),
        }) == init_options(texts(args@), false),
{
    let ghost all = texts(args@);
    let mut force = false;
    assert(all.skip(0) =~= all);
    for i in 0..args.len()
        invariant
            all == texts(args@),
            init_options(all, false) == init_options(all.skip(i as int), force),
    {
        assert(all.skip(i as int)[0] == args@[i as int]@);
        assert(all.skip(i as int).skip(1) =~= all.skip(i as int + 1));
        if same(&args[i], "--force") {
            force = true;
        } else if is_help_arg(&args[i]) {
            return Ok(Options::Help);
        } else {
            return Err(CliError::UnknownOption(OptionsOf::Init, args[i].clone()));
        }
    }
    Ok(Options::Given(force))
}

/// What to change in the section of the agent, with texts as sequences of
/// characters.
#[verifier::ext_equal]
pub struct AgentSetView {
    pub scan_root: Option<Seq<char>>,
    pub sample_seconds: Option<nat>,
    pub heartbeat_seconds: Option<nat>,
    pub rescan_seconds: Option<nat>,
}

/// A number that may be missing.
pub open spec fn optional_number(n: Option<u64>) -> Option<nat> {
    match n {
        Some(n) => Some(n as nat),
        None => None,
    }
}

impl View for AgentSet {
    type V = AgentSetView;

    open spec fn view(&self) -> AgentSetView {
        AgentSetView {
            scan_root: optional_text(self.scan_root),
            sample_seconds: optional_number(self.sample_seconds),
            heartbeat_seconds: optional_number(self.heartbeat_seconds),
            rescan_seconds: optional_number(self.rescan_seconds),
        }
    }
}

/// The options of `set`. `None` where help is asked for.
pub open spec fn set_options(args: Seq<Seq<char>>, set: AgentSetView) -> Result<
    Option<AgentSetView>,
    CliFault,
>
    decreases args.len(),
{
    if args.len() == 0 {
        Ok(Some(set))
    } else if args[0] == "--scan-root"@ {
        if args.len() < 2 {
            Err(CliFault::RequiresValue(args[0]))
        } else {
            set_options(args.skip(2), AgentSetView { scan_root: Some(args[1]), ..set })
        }
    } else if args[0] == "--sample-seconds"@ || args[0] == "--heartbeat-seconds"@ || args[0]
        == "--rescan-seconds"@ {
        if args.len() < 2 {
            Err(CliFault::RequiresValue(args[0]))
        } else {
            match positive(args[1], u64::MAX as nat) {
                Err(fault) => Err(fault),
                Ok(n) => if args[0] == "--sample-seconds"@ {
                    set_options(args.skip(2), AgentSetView { sample_seconds: Some(n), ..set })
                } else if args[0] == "--heartbeat-seconds"@ {
                    set_options(args.skip(2), AgentSetView { heartbeat_seconds: Some(n), ..set })
                } else {
                    set_options(args.skip(2), AgentSetView { rescan_seconds: Some(n), ..set })
                },
            }
        }
    } else if asks_help(args[0]) {
        Ok(None)
    } else {
        Err(CliFault::UnknownOption(OptionsOf::Agent, args[0]))
    }
}

/// Nothing to change in the section of the agent.
pub open spec fn no_agent_set() -> AgentSetView {
    AgentSetView {
        scan_root: None,
        sample_seconds: None,
        heartbeat_seconds: None,
        rescan_seconds: None,
    }
}

/// The view of options or an error.
pub open spec fn options_view<T: View>(result: Result<Options<T>, CliError>) -> Result<
    Option<T::V>,
    CliFault,
> {
    match result {
        Ok(Options::Given(set)) => Ok(Some(set@)),
        Ok(Options::Help) => Ok(None),
        Err(error) => Err(error@),
    }
}

/// Reads the options of `set`.
pub fn parse_set_options(args: &[String]) -> (result: Result<Options<AgentSet>, CliError>)
    ensures
        options_view(result) == set_options(texts(args@), no_agent_set()),
{
    let ghost all = texts(args@);
    let mut set = AgentSet {
        scan_root: None,
        sample_seconds: None,
        heartbeat_seconds: None,
        rescan_seconds: None,
    };
    let mut i: usize = 0;
    assert(all.skip(0) =~= all);
    while i < args.len()
        invariant
            i <= args@.len(),
            all == texts(args@),
            set_options(all, no_agent_set()) == set_options(all.skip(i as int), set@),
        decreases args@.len() - i,
    {
        let ghost tail = all.skip(i as int);
        assert(tail[0] == args@[i as int]@);
        let root = same(&args[i], "--scan-root");
        let sample = same(&args[i], "--sample-seconds");
        let heartbeat = same(&args[i], "--heartbeat-seconds");
        let rescan = same(&args[i], "--rescan-seconds");
        if root || sample || heartbeat || rescan {
            if i + 1 >= args.len() {
                return Err(CliError::RequiresValue(args[i].clone()));
            }
            assert(tail[1] == args@[i as int + 1]@);
            assert(tail.skip(2) =~= all.skip(i as int + 2));
            if root {
                set.scan_root = Some(args[i + 1].clone());
            } else {
                let n = match parse_seconds(&args[i + 1]) {
                    Ok(n) => n,
                    Err(error) => {
                        return Err(error);
                    },
                };
                if sample {
                    set.sample_seconds = Some(n);
                } else if heartbeat {
                    set.heartbeat_seconds = Some(n);
                } else {
                    set.rescan_seconds = Some(n);
                }
            }
            i = i + 2;
        } else if is_help_arg(&args[i]) {
            return Ok(Options::Help);
        } else {
            return Err(CliError::UnknownOption(OptionsOf::Agent, args[i].clone()));
        }
    }
    Ok(Options::Given(set))
}

/// What to change in the section of the controllers, with texts as sequences
/// of characters.
#[verifier::ext_equal]
pub struct HbaSetView {
    pub enabled: Option<bool>,
    pub devices: Option<Seq<Seq<char>>>,
    pub max_ioc: Option<nat>,
}

/// The texts of a list that may be missing.
pub open spec fn optional_texts(list: Option<Vec<String>>) -> Option<Seq<Seq<char>>> {
    match list {
        Some(list) => Some(texts(list@)),
        None => None,
    }
}

impl View for HbaSet {
    type V = HbaSetView;

    open spec fn view(&self) -> HbaSetView {
        HbaSetView {
            enabled: self.enabled,
            devices: optional_texts(self.devices),
            max_ioc: match self.max_ioc {
                Some(n) => Some(n as nat),
                None => None,
            },
        }
    }
}

/// Nothing to change in the section of the controllers.
pub open spec fn no_hba_set() -> HbaSetView {
    HbaSetView { enabled: None, devices: None, max_ioc: None }
}

/// The options of `hba`. `None` where help is asked for.
pub open spec fn hba_options(args: Seq<Seq<char>>, set: HbaSetView) -> Result<
    Option<HbaSetView>,
    CliFault,
>
    decreases args.len(),
{
    if args.len() == 0 {
        Ok(Some(set))
    } else if args[0] == "--enabled"@ || args[0] == "--devices"@ || args[0] == "--max-ioc"@ {
        if args.len() < 2 {
            Err(CliFault::RequiresValue(args[0]))
        } else if args[0] == "--enabled"@ {
            match bool_value(args[1]) {
                Err(fault) => Err(fault),
                Ok(b) => hba_options(args.skip(2), HbaSetView { enabled: Some(b), ..set }),
            }
        } else if args[0] == "--devices"@ {
            hba_options(args.skip(2), HbaSetView { devices: Some(csv_parts(args[1])), ..set })
        } else {
            match positive(args[1], u32::MAX as nat) {
                Err(fault) => Err(fault),
                Ok(n) => hba_options(args.skip(2), HbaSetView { max_ioc: Some(n), ..set }),
            }
        }
    } else if asks_help(args[0]) {
        Ok(None)
    } else {
        Err(CliFault::UnknownOption(OptionsOf::Hba, args[0]))
    }
}

/// Reads the options of `hba`.
pub fn parse_hba_options(args: &[String]) -> (result: Result<Options<HbaSet>, CliError>)
    ensures
        options_view(result) == hba_options(texts(args@), no_hba_set()),
{
    let ghost all = texts(args@);
    let mut set = HbaSet { enabled: None, devices: None, max_ioc: None };
    let mut i: usize = 0;
    assert(all.skip(0) =~= all);
    while i < args.len()
        invariant
            i <= args@.len(),
            all == texts(args@),
            hba_options(all, no_hba_set()) == hba_options(all.skip(i as int), set@),
        decreases args@.len() - i,
    {
        let ghost tail = all.skip(i as int);
        assert(tail[0] == args@[i as int]@);
        let enabled = same(&args[i], "--enabled");
        let devices = same(&args[i], "--devices");
        let max_ioc = same(&args[i], "--max-ioc");
        if enabled || devices || max_ioc {
            if i + 1 >= args.len() {
                return Err(CliError::RequiresValue(args[i].clone()));
            }
            assert(tail[1] == args@[i as int + 1]@);
            assert(tail.skip(2) =~= all.skip(i as int + 2));
            if enabled {
                match parse_bool(&args[i + 1]) {
                    Ok(b) => {
                        set.enabled = Some(b);
                    },
                    Err(error) => {
                        return Err(error);
                    },
                }
            } else if devices {
                set.devices = Some(split_csv(&args[i + 1]));
            } else {
                match parse_count(&args[i + 1]) {
                    Ok(n) => {
                        set.max_ioc = Some(n);
                    },
                    Err(error) => {
                        return Err(error);
                    },
                }
            }
            i = i + 2;
        } else if is_help_arg(&args[i]) {
            return Ok(Options::Help);
        } else {
            return Err(CliError::UnknownOption(OptionsOf::Hba, args[i].clone()));
        }
    }
    Ok(Options::Given(set))
}

/// What to change in the section of the disks, with texts as sequences of
/// characters.
#[verifier::ext_equal]
pub struct SmartctlSetView {
    pub enabled: Option<bool>,
    pub device_globs: Option<Seq<Seq<char>>>,
    pub timeout_seconds: Option<nat>,
    pub poll_seconds: Option<nat>,
}

impl View for SmartctlSet {
    type V = SmartctlSetView;

    open spec fn view(&self) -> SmartctlSetView {
        SmartctlSetView {
            enabled: self.enabled,
            device_globs: optional_texts(self.device_globs),
            timeout_seconds: optional_number(self.timeout_seconds),
            poll_seconds: optional_number(self.poll_seconds),
        }
    }
}

/// Nothing to change in the section of the disks.
pub open spec fn no_smartctl_set() -> SmartctlSetView {
    SmartctlSetView { enabled: None, device_globs: None, timeout_seconds: None, poll_seconds: None }
}

/// The options of `smartctl`. `None` where help is asked for.
pub open spec fn smartctl_options(args: Seq<Seq<char>>, set: SmartctlSetView) -> Result<
    Option<SmartctlSetView>,
    CliFault,
>
    decreases args.len(),
{
    if args.len() == 0 {
        Ok(Some(set))
    } else if args[0] == "--enabled"@ || args[0] == "--device-globs"@ || args[0]
        == "--timeout-seconds"@ || args[0] == "--poll-seconds"@ {
        if args.len() < 2 {
            Err(CliFault::RequiresValue(args[0]))
        } else if args[0] == "--enabled"@ {
            match bool_value(args[1]) {
                Err(fault) => Err(fault),
                Ok(b) => smartctl_options(
                    args.skip(2),
                    SmartctlSetView { enabled: Some(b), ..set },
                ),
            }
        } else if args[0] == "--device-globs"@ {
            smartctl_options(
                args.skip(2),
                SmartctlSetView { device_globs: Some(csv_parts(args[1])), ..set },
            )
        } else {
            match positive(args[1], u64::MAX as nat) {
                Err(fault) => Err(fault),
                Ok(n) => if args[0] == "--timeout-seconds"@ {
                    smartctl_options(
                        args.skip(2),
                        SmartctlSetView { timeout_seconds: Some(n), ..set },
                    )
                } else {
                    smartctl_options(
                        args.skip(2),
                        SmartctlSetView { poll_seconds: Some(n), ..set },
                    )
                },
            }
        }
    } else if asks_help(args[0]) {
        Ok(None)
    } else {
        Err(CliFault::UnknownOption(OptionsOf::Smartctl, args[0]))
    }
}

/// Reads the options of `smartctl`.
pub fn parse_smartctl_options(args: &[String]) -> (result: Result<Options<SmartctlSet>, CliError>)
    ensures
        options_view(result) == smartctl_options(texts(args@), no_smartctl_set()),
{
    let ghost all = texts(args@);
    let mut set = SmartctlSet {
        enabled: None,
        device_globs: None,
        timeout_seconds: None,
        poll_seconds: None,
    };
    let mut i: usize = 0;
    assert(all.skip(0) =~= all);
    while i < args.len()
        invariant
            i <= args@.len(),
            all == texts(args@),
            smartctl_options(all, no_smartctl_set()) == smartctl_options(all.skip(i as int), set@),
        decreases args@.len() - i,
    {
        let ghost tail = all.skip(i as int);
        assert(tail[0] == args@[i as int]@);
        let enabled = same(&args[i], "--enabled");
        let globs = same(&args[i], "--device-globs");
        let timeout = same(&args[i], "--timeout-seconds");
        let poll = same(&args[i], "--poll-seconds");
        if enabled || globs || timeout || poll {
            if i + 1 >= args.len() {
                return Err(CliError::RequiresValue(args[i].clone()));
            }
            assert(tail[1] == args@[i as int + 1]@);
            assert(tail.skip(2) =~= all.skip(i as int + 2));
            if enabled {
                match parse_bool(&args[i + 1]) {
                    Ok(b) => {
                        set.enabled = Some(b);
                    },
                    Err(error) => {
                        return Err(error);
                    },
                }
            } else if globs {
                set.device_globs = Some(split_csv(&args[i + 1]));
            } else {
                let n = match parse_seconds(&args[i + 1]) {
                    Ok(n) => n,
                    Err(error) => {
                        return Err(error);
                    },
                };
                if timeout {
                    set.timeout_seconds = Some(n);
                } else {
                    set.poll_seconds = Some(n);
                }
            }
            i = i + 2;
        } else if is_help_arg(&args[i]) {
            return Ok(Options::Help);
        } else {
            return Err(CliError::UnknownOption(OptionsOf::Smartctl, args[i].clone()));
        }
    }
    Ok(Options::Given(set))
}

/// What to make persistent: a place in the list of discoveries, and a default
/// value.
#[derive(Clone, Copy, Debug, PartialEq, Eq, Structural)]
pub struct PersistentAdd {
    pub from: usize,
    pub default_value: i64,
}

/// The options of `persistent add`, where `from` and `value` were read before.
/// `None` where help is asked for.
pub open spec fn add_options(
    args: Seq<Seq<char>>,
    from: Option<nat>,
    value: Option<int>,
) -> Result<Option<(nat, int)>, CliFault>
    decreases args.len(),
{
    if args.len() == 0 {
        match (from, value) {
            (None, _) => Err(CliFault::RequiresFrom),
            (Some(_), None) => Err(CliFault::RequiresDefaultValue),
            (Some(from), Some(value)) => Ok(Some((from, value))),
        }
    } else if args[0] == "--from"@ || args[0] == "--default-value"@ {
        if args.len() < 2 {
            Err(CliFault::RequiresValue(args[0]))
        } else if args[0] == "--from"@ {
            match positive(args[1], usize::MAX as nat) {
                Err(fault) => Err(fault),
                Ok(n) => add_options(args.skip(2), Some(n), value),
            }
        } else {
            match integer_value(args[1]) {
                Err(fault) => Err(fault),
                Ok(n) => add_options(args.skip(2), from, Some(n)),
            }
        }
    } else if asks_help(args[0]) {
        Ok(None)
    } else {
        Err(CliFault::UnknownOption(OptionsOf::PersistentAdd, args[0]))
    }
}

/// Reads the options of `persistent add`.
pub fn parse_add_options(args: &[String]) -> (result: Result<Options<PersistentAdd>, CliError>)
    ensures
        (match result {
            Ok(Options::Given(add)) => Ok::<Option<(nat, int)>, CliFault>(
                Some((add.from as nat, add.default_value as int)),
            ),
            Ok(Options::Help) => Ok(None),
            Err(error) => Err(error@),
        }) == add_options(texts(args@), None, None),
{
    let ghost all = texts(args@);
    let mut from: Option<usize> = None;
    let mut value: Option<i64> = None;
    let mut i: usize = 0;
    assert(all.skip(0) =~= all);
    while i < args.len()
        invariant
            i <= args@.len(),
            all == texts(args@),
            add_options(all, None, None) == add_options(
                all.skip(i as int),
                match from {
                    Some(n) => Some(n as nat),
                    None => None,
                },
                match value {
                    Some(n) => Some(n as int),
                    None => None,
                },
            ),
        decreases args@.len() - i,
    {
        let ghost tail = all.skip(i as int);
        assert(tail[0] == args@[i as int]@);
        let is_from = same(&args[i], "--from");
        let is_value = same(&args[i], "--default-value");
        if is_from || is_value {
            if i + 1 >= args.len() {
                return Err(CliError::RequiresValue(args[i].clone()));
            }
            assert(tail[1] == args@[i as int + 1]@);
            assert(tail.skip(2) =~= all.skip(i as int + 2));
            if is_from {
                match parse_place(&args[i + 1]) {
                    Ok(n) => {
                        from = Some(n);
                    },
                    Err(error) => {
                        return Err(error);
                    },
                }
            } else {
                match parse_integer(&args[i + 1]) {
                    Ok(n) => {
                        value = Some(n);
                    },
                    Err(error) => {
                        return Err(error);
                    },
                }
            }
            i = i + 2;
        } else if is_help_arg(&args[i]) {
            return Ok(Options::Help);
        } else {
            return Err(CliError::UnknownOption(OptionsOf::PersistentAdd, args[i].clone()));
        }
    }
    match (from, value) {
        (None, _) => Err(CliError::RequiresFrom),
        (Some(_), None) => Err(CliError::RequiresDefaultValue),
        (Some(from), Some(value)) => Ok(Options::Given(PersistentAdd { from, default_value: value })),
    }
}

/// The options of `persistent remove`, where `id` was read before. `None` where
/// help is asked for.
pub open spec fn remove_options(args: Seq<Seq<char>>, id: Option<Seq<char>>) -> Result<
    Option<Seq<char>>,
    CliFault,
>
    decreases args.len(),
{
    if args.len() == 0 {
        match id {
            None => Err(CliFault::RequiresId),
            Some(id) => Ok(Some(id)),
        }
    } else if args[0] == "--id"@ {
        if args.len() < 2 {
            Err(CliFault::RequiresValue(args[0]))
        } else {
            remove_options(args.skip(2), Some(args[1]))
        }
    } else if asks_help(args[0]) {
        Ok(None)
    } else {
        Err(CliFault::UnknownOption(OptionsOf::PersistentRemove, args[0]))
    }
}

/// Reads the options of `persistent remove`.
pub fn parse_remove_options(args: &[String]) -> (result: Result<Options<String>, CliError>)
    ensures
        options_view(result) == remove_options(texts(args@), None),
{
    let ghost all = texts(args@);
    let mut id: Option<String> = None;
    let mut i: usize = 0;
    assert(all.skip(0) =~= all);
    while i < args.len()
        invariant
            i <= args@.len(),
            all == texts(args@),
            remove_options(all, None) == remove_options(all.skip(i as int), optional_text(id)),
        decreases args@.len() - i,
    {
        let ghost tail = all.skip(i as int);
        assert(tail[0] == args@[i as int]@);
        if same(&args[i], "--id") {
            if i + 1 >= args.len() {
                return Err(CliError::RequiresValue(args[i].clone()));
            }
            assert(tail[1] == args@[i as int + 1]@);
            assert(tail.skip(2) =~= all.skip(i as int + 2));
            id = Some(args[i + 1].clone());
            i = i + 2;
        } else if is_help_arg(&args[i]) {
            return Ok(Options::Help);
        } else {
            return Err(CliError::UnknownOption(OptionsOf::PersistentRemove, args[i].clone()));
        }
    }
    match id {
        Some(id) => Ok(Options::Given(id)),
        None => Err(CliError::RequiresId),
    }
}

// ── Commands ─────────────────────────────────────────────────────────────────

/// What to do with the persistent sensors.
pub enum PersistentCommand {
    Usage,
    List,
    Discover,
    Add(PersistentAdd),
    Remove(String),
}

/// What to do with a configuration.
pub enum ConfigCommand {
    Usage,
    Show,
    Validate,
    Init { force: bool },
    SetAgent(AgentSet),
    Hba(HbaSet),
    Smartctl(SmartctlSet),
    Persistent(PersistentCommand),
}

/// What to do with the persistent sensors, with texts as sequences of
/// characters.
#[verifier::ext_equal]
pub enum PersistentCommandView {
    Usage,
    List,
    Discover,
    Add(nat, int),
    Remove(Seq<char>),
}

/// What to do with a configuration, with texts as sequences of characters.
#[verifier::ext_equal]
pub enum ConfigCommandView {
    Usage,
    Show,
    Validate,
    Init(bool),
    SetAgent(AgentSetView),
    Hba(HbaSetView),
    Smartctl(SmartctlSetView),
    Persistent(PersistentCommandView),
}

impl View for PersistentCommand {
    type V = PersistentCommandView;

    open spec fn view(&self) -> PersistentCommandView {
        match *self {
            PersistentCommand::Usage => PersistentCommandView::Usage,
            PersistentCommand::List => PersistentCommandView::List,
            PersistentCommand::Discover => PersistentCommandView::Discover,
            PersistentCommand::Add(add) => PersistentCommandView::Add(
                add.from as nat,
                add.default_value as int,
            ),
            PersistentCommand::Remove(id) => PersistentCommandView::Remove(id@),
        }
    }
}

impl View for ConfigCommand {
    type V = ConfigCommandView;

    open spec fn view(&self) -> ConfigCommandView {
        match *self {
            ConfigCommand::Usage => ConfigCommandView::Usage,
            ConfigCommand::Show => ConfigCommandView::Show,
            ConfigCommand::Validate => ConfigCommandView::Validate,
            ConfigCommand::Init { force } => ConfigCommandView::Init(force),
            ConfigCommand::SetAgent(set) => ConfigCommandView::SetAgent(set@),
            ConfigCommand::Hba(set) => ConfigCommandView::Hba(set@),
            ConfigCommand::Smartctl(set) => ConfigCommandView::Smartctl(set@),
            ConfigCommand::Persistent(command) => ConfigCommandView::Persistent(command@),
        }
    }
}

/// What arguments ask to do with the persistent sensors.
pub open spec fn persistent_command(args: Seq<Seq<char>>) -> Result<
    PersistentCommandView,
    CliFault,
> {
    if args.len() == 0 {
        Ok(PersistentCommandView::Usage)
    } else if args[0] == "list"@ {
        Ok(PersistentCommandView::List)
    } else if args[0] == "discover"@ {
        Ok(PersistentCommandView::Discover)
    } else if args[0] == "add"@ {
        match add_options(args.skip(1), None, None) {
            Ok(Some((from, value))) => Ok(PersistentCommandView::Add(from, value)),
            Ok(None) => Ok(PersistentCommandView::Usage),
            Err(fault) => Err(fault),
        }
    } else if args[0] == "remove"@ {
        match remove_options(args.skip(1), None) {
            Ok(Some(id)) => Ok(PersistentCommandView::Remove(id)),
            Ok(None) => Ok(PersistentCommandView::Usage),
            Err(fault) => Err(fault),
        }
    } else if asks_help(args[0]) {
        Ok(PersistentCommandView::Usage)
    } else {
        Err(CliFault::UnknownPersistentCommand(args[0]))
    }
}

/// What arguments ask to do with a configuration.
pub open spec fn config_command(args: Seq<Seq<char>>) -> Result<ConfigCommandView, CliFault> {
    if args.len() == 0 || asks_help(args[0]) {
        Ok(ConfigCommandView::Usage)
    } else if args[0] == "show"@ {
        Ok(ConfigCommandView::Show)
    } else if args[0] == "validate"@ {
        Ok(ConfigCommandView::Validate)
    } else if args[0] == "init"@ {
        match init_options(args.skip(1), false) {
            Ok(Some(force)) => Ok(ConfigCommandView::Init(force)),
            Ok(None) => Ok(ConfigCommandView::Usage),
            Err(fault) => Err(fault),
        }
    } else if args[0] == "set"@ {
        match set_options(args.skip(1), no_agent_set()) {
            Ok(Some(set)) => Ok(ConfigCommandView::SetAgent(set)),
            Ok(None) => Ok(ConfigCommandView::Usage),
            Err(fault) => Err(fault),
        }
    } else if args[0] == "hba"@ {
        match hba_options(args.skip(1), no_hba_set()) {
            Ok(Some(set)) => Ok(ConfigCommandView::Hba(set)),
            Ok(None) => Ok(ConfigCommandView::Usage),
            Err(fault) => Err(fault),
        }
    } else if args[0] == "smartctl"@ {
        match smartctl_options(args.skip(1), no_smartctl_set()) {
            Ok(Some(set)) => Ok(ConfigCommandView::Smartctl(set)),
            Ok(None) => Ok(ConfigCommandView::Usage),
            Err(fault) => Err(fault),
        }
    } else if args[0] == "persistent"@ {
        match persistent_command(args.skip(1)) {
            Ok(command) => Ok(ConfigCommandView::Persistent(command)),
            Err(fault) => Err(fault),
        }
    } else {
        Err(CliFault::UnknownConfigCommand(args[0]))
    }
}

/// Copies of all arguments but the first.
pub fn behind_first(args: &[String]) -> (rest: Vec<String>)
    requires
        args@.len() > 0,
    ensures
        texts(rest@) == texts(args@).skip(1),
{
    let mut rest: Vec<String> = Vec::new();
    assert(texts(args@).subrange(1, 1) =~= texts(rest@));
    for i in 1..args.len()
        invariant
            args@.len() > 0,
            texts(rest@) == texts(args@).subrange(1, i as int),
    {
        let ghost before = texts(rest@);
        rest.push(args[i].clone());
        assert(texts(rest@) =~= before.push(args@[i as int]@));
        assert(texts(rest@) =~= texts(args@).subrange(1, i as int + 1));
    }
    assert(texts(rest@) =~= texts(args@).skip(1));
    rest
}

/// The view of a command or an error.
pub open spec fn command_view<T: View>(result: Result<T, CliError>) -> Result<T::V, CliFault> {
    match result {
        Ok(command) => Ok(command@),
        Err(error) => Err(error@),
    }
}

/// What arguments ask to do with the persistent sensors.
pub fn parse_persistent_command(args: &[String]) -> (result: Result<PersistentCommand, CliError>)
    ensures
        command_view(result) == persistent_command(texts(args@)),
{
    if args.len() == 0 {
        return Ok(PersistentCommand::Usage);
    }
    assert(texts(args@)[0] == args@[0]@);
    let first = &args[0];
    if same(first, "list") {
        Ok(PersistentCommand::List)
    } else if same(first, "discover") {
        Ok(PersistentCommand::Discover)
    } else if same(first, "add") {
        let rest = behind_first(args);
        match parse_add_options(&rest) {
            Ok(Options::Given(add)) => Ok(PersistentCommand::Add(add)),
            Ok(Options::Help) => Ok(PersistentCommand::Usage),
            Err(error) => Err(error),
        }
    } else if same(first, "remove") {
        let rest = behind_first(args);
        match parse_remove_options(&rest) {
            Ok(Options::Given(id)) => Ok(PersistentCommand::Remove(id)),
            Ok(Options::Help) => Ok(PersistentCommand::Usage),
            Err(error) => Err(error),
        }
    } else if is_help_arg(first) {
        Ok(PersistentCommand::Usage)
    } else {
        Err(CliError::UnknownPersistentCommand(first.clone()))
    }
}

fn parse_config_command(args: &[String]) -> (result: Result<ConfigCommand, CliError>)
    ensures
        command_view(result) == config_command(texts(args@)),
{
    if args.len() == 0 {
        return Ok(ConfigCommand::Usage);
    }
    assert(texts(args@)[0] == args@[0]@);
    let first = &args[0];
    if is_help_arg(first) {
        return Ok(ConfigCommand::Usage);
    }
    let rest = behind_first(args);
    if same(first, "show") {
        Ok(ConfigCommand::Show)
    } else if same(first, "validate") {
        Ok(ConfigCommand::Validate)
    } else if same(first, "init") {
        match parse_init_options(&rest) {
            Ok(Options::Given(force)) => Ok(ConfigCommand::Init { force }),
            Ok(Options::Help) => Ok(ConfigCommand::Usage),
            Err(error) => Err(error),
        }
    } else if same(first, "set") {
        match parse_set_options(&rest) {
            Ok(Options::Given(set)) => Ok(ConfigCommand::SetAgent(set)),
            Ok(Options::Help) => Ok(ConfigCommand::Usage),
            Err(error) => Err(error),
        }
    } else if same(first, "hba") {
        match parse_hba_options(&rest) {
            Ok(Options::Given(set)) => Ok(ConfigCommand::Hba(set)),
            Ok(Options::Help) => Ok(ConfigCommand::Usage),
            Err(error) => Err(error),
        }
    } else if same(first, "smartctl") {
        match parse_smartctl_options(&rest) {
            Ok(Options::Given(set)) => Ok(ConfigCommand::Smartctl(set)),
            Ok(Options::Help) => Ok(ConfigCommand::Usage),
            Err(error) => Err(error),
        }
    } else if same(first, "persistent") {
        match parse_persistent_command(&rest) {
            Ok(command) => Ok(ConfigCommand::Persistent(command)),
            Err(error) => Err(error),
        }
    } else {
        Err(CliError::UnknownConfigCommand(first.clone()))
    }
}

/// What arguments behind `config` ask for, and of which configuration.
pub fn run_config(args: &[String]) -> (result: Result<(String, ConfigCommand), CliError>)
    ensures
        (match result {
            Ok((path, command)) => Ok::<(Seq<char>, ConfigCommandView), CliFault>(
                (path@, command@),
            ),
            Err(error) => Err(error@),
        }) == (match split_args(texts(args@)) {
            Err(fault) => Err(fault),
            Ok((path, rest)) => match config_command(rest) {
                Err(fault) => Err(fault),
                Ok(command) => Ok((path, command)),
            },
        }),
{
    match split_config_path(args) {
        Err(error) => Err(error),
        Ok((path, rest)) => match parse_config_command(&rest) {
            Err(error) => Err(error),
            Ok(command) => Ok((path, command)),
        },
    }
}

/// Whether one of some arguments asks for help.
pub open spec fn any_asks_help(args: Seq<Seq<char>>) -> bool {
    exists|i: int| 0 <= i < args.len() && asks_help(#[trigger] args[i])
}

/// What arguments behind `run` ask for: the configuration to run with, or help
/// where the path is missing.
pub open spec fn run_target(args: Seq<Seq<char>>) -> Result<Option<Seq<char>>, CliFault> {
    match split_args(args) {
        Err(fault) => Err(fault),
        Ok((path, rest)) => if any_asks_help(rest) {
            Ok(None)
        } else if rest.len() > 0 {
            Err(CliFault::UnexpectedRunArgument(rest[0]))
        } else {
            Ok(Some(path))
        },
    }
}

/// What arguments behind `run` ask for.
pub fn parse_run_config(args: &[String]) -> (result: Result<Options<String>, CliError>)
    ensures
        options_view(result) == run_target(texts(args@)),
{
    let (path, rest) = match split_config_path(args) {
        Ok(parts) => parts,
        Err(error) => {
            return Err(error);
        },
    };
    let ghost all = texts(rest@);
    for i in 0..rest.len()
        invariant
            all == texts(rest@),
            split_args(texts(args@)) == Ok::<(Seq<char>, Seq<Seq<char>>), CliFault>((path@, all)),
            forall|j: int| 0 <= j < i ==> !asks_help(#[trigger] all[j]),
    {
        assert(all[i as int] == rest@[i as int]@);
        if is_help_arg(&rest[i]) {
            return Ok(Options::Help);
        }
    }
    if rest.len() > 0 {
        assert(all[0] == rest@[0]@);
        return Err(CliError::UnexpectedRunArgument(rest[0].clone()));
    }
    Ok(Options::Given(path))
}

/// What the command line of the agent asks for.
pub enum AgentCommand {
    Usage,
    RunUsage,
    Run(String),
    Config(String, ConfigCommand),
    ProbeHba(String),
    ProbeSmartctl(String),
}

/// What the command line of the agent asks for, with texts as sequences of
/// characters.
#[verifier::ext_equal]
pub enum AgentCommandView {
    Usage,
    RunUsage,
    Run(Seq<char>),
    Config(Seq<char>, ConfigCommandView),
    ProbeHba(Seq<char>),
    ProbeSmartctl(Seq<char>),
}

impl View for AgentCommand {
    type V = AgentCommandView;

    open spec fn view(&self) -> AgentCommandView {
        match *self {
            AgentCommand::Usage => AgentCommandView::Usage,
            AgentCommand::RunUsage => AgentCommandView::RunUsage,
            AgentCommand::Run(path) => AgentCommandView::Run(path@),
            AgentCommand::Config(path, command) => AgentCommandView::Config(path@, command@),
            AgentCommand::ProbeHba(path) => AgentCommandView::ProbeHba(path@),
            AgentCommand::ProbeSmartctl(path) => AgentCommandView::ProbeSmartctl(path@),
        }
    }
}

/// The configuration that a probe uses.
pub open spec fn probe_path(args: Seq<Seq<char>>) -> Seq<char> {
    if args.len() > 1 {
        args[1]
    } else {
        DEFAULT_CONFIG@
    }
}

/// What the command line of the agent asks for. A single path runs the agent
/// with that configuration.
pub open spec fn agent_command(args: Seq<Seq<char>>) -> Result<AgentCommandView, CliFault> {
    if args.len() == 0 {
        Ok(AgentCommandView::Run(DEFAULT_CONFIG@))
    } else if asks_help(args[0]) {
        Ok(AgentCommandView::Usage)
    } else if args[0] == "run"@ {
        match run_target(args.skip(1)) {
            Ok(Some(path)) => Ok(AgentCommandView::Run(path)),
            Ok(None) => Ok(AgentCommandView::RunUsage),
            Err(fault) => Err(fault),
        }
    } else if args[0] == "config"@ {
        match split_args(args.skip(1)) {
            Err(fault) => Err(fault),
            Ok((path, rest)) => match config_command(rest) {
                Err(fault) => Err(fault),
                Ok(command) => Ok(AgentCommandView::Config(path, command)),
            },
        }
    } else if args[0] == "--probe-hba"@ {
        Ok(AgentCommandView::ProbeHba(probe_path(args)))
    } else if args[0] == "--probe-smartctl"@ {
        Ok(AgentCommandView::ProbeSmartctl(probe_path(args)))
    } else {
        Ok(AgentCommandView::Run(args[0]))
    }
}

/// What the command line of the agent asks for.
pub fn parse_agent_command(args: &[String]) -> (result: Result<AgentCommand, CliError>)
    ensures
        command_view(result) == agent_command(texts(args@)),
{
    if args.len() == 0 {
        return Ok(AgentCommand::Run(DEFAULT_CONFIG.to_string()));
    }
    assert(texts(args@)[0] == args@[0]@);
    let first = &args[0];
    if is_help_arg(first) {
        return Ok(AgentCommand::Usage);
    }
    let probed = if args.len() > 1 {
        assert(texts(args@)[1] == args@[1]@);
        args[1].clone()
    } else {
        DEFAULT_CONFIG.to_string()
    };
    if same(first, "run") {
        let rest = behind_first(args);
        match parse_run_config(&rest) {
            Ok(Options::Given(path)) => Ok(AgentCommand::Run(path)),
            Ok(Options::Help) => Ok(AgentCommand::RunUsage),
            Err(error) => Err(error),
        }
    } else if same(first, "config") {
        let rest = behind_first(args);
        match run_config(&rest) {
            Ok((path, command)) => Ok(AgentCommand::Config(path, command)),
            Err(error) => Err(error),
        }
    } else if same(first, "--probe-hba") {
        Ok(AgentCommand::ProbeHba(probed))
    } else if same(first, "--probe-smartctl") {
        Ok(AgentCommand::ProbeSmartctl(probed))
    } else {
        Ok(AgentCommand::Run(first.clone()))
    }
}

} // verus!
