//! The command line of the management tool.

use crate::agent::cli::{asks_help, is_help_arg};
use crate::ctl::qm::{is_vmid, valid_vmid};
use crate::ctl::smoke::{default_smoke, smoke_options, SmokePlan, SmokeView};
use crate::ctl::status::{request_for, status_options, StatusPlan, DEFAULT_CTL_SOCKET};
use crate::protocol::CtlRequest;
use crate::text::{concat, concat3, has_prefix, optional_text, same, starts_with, texts};
use vstd::prelude::*;

verus! {

/// The two commands that change a VM.
#[derive(Clone, Copy, Debug, PartialEq, Eq, Structural)]
pub enum VmVerb {
    Attach,
    Detach,
}

impl VmVerb {
    /// The name of a command.
    pub open spec fn text(self) -> Seq<char> {
        match self {
            VmVerb::Attach => "attach"@,
            VmVerb::Detach => "detach"@,
        }
    }

    fn name(&self) -> (name: &'static str)
        ensures
            name@ == self.text(),
    {
        match self {
            VmVerb::Attach => "attach",
            VmVerb::Detach => "detach",
        }
    }
}

/// Why a command line is refused.
#[derive(Debug)]
pub enum CtlError {
    UnknownCommand(String),
    UnknownHelpTopic(String),
    UnknownOption(VmVerb, String),
    UnexpectedArgument(VmVerb, String),
    MissingVmid(VmVerb),
    InvalidVmid,
    MissingSmokeVmid,
    InvalidSmokeVmid,
    MissingSmokeDevice,
    UnknownSmokeArgument(String),
    MissingStatusVmid,
    InvalidStatusVmid,
    MissingStatusSocket,
    UnknownStatusArgument(String),
}

/// Why a command line is refused, with texts as sequences of characters.
#[verifier::ext_equal]
pub enum CtlFault {
    UnknownCommand(Seq<char>),
    UnknownHelpTopic(Seq<char>),
    UnknownOption(VmVerb, Seq<char>),
    UnexpectedArgument(VmVerb, Seq<char>),
    MissingVmid(VmVerb),
    InvalidVmid,
    MissingSmokeVmid,
    InvalidSmokeVmid,
    MissingSmokeDevice,
    UnknownSmokeArgument(Seq<char>),
    MissingStatusVmid,
    InvalidStatusVmid,
    MissingStatusSocket,
    UnknownStatusArgument(Seq<char>),
}

impl View for CtlError {
    type V = CtlFault;

    open spec fn view(&self) -> CtlFault {
        match *self {
            CtlError::UnknownCommand(arg) => CtlFault::UnknownCommand(arg@),
            CtlError::UnknownHelpTopic(arg) => CtlFault::UnknownHelpTopic(arg@),
            CtlError::UnknownOption(verb, arg) => CtlFault::UnknownOption(verb, arg@),
            CtlError::UnexpectedArgument(verb, arg) => CtlFault::UnexpectedArgument(verb, arg@),
            CtlError::MissingVmid(verb) => CtlFault::MissingVmid(verb),
            CtlError::InvalidVmid => CtlFault::InvalidVmid,
            CtlError::MissingSmokeVmid => CtlFault::MissingSmokeVmid,
            CtlError::InvalidSmokeVmid => CtlFault::InvalidSmokeVmid,
            CtlError::MissingSmokeDevice => CtlFault::MissingSmokeDevice,
            CtlError::UnknownSmokeArgument(arg) => CtlFault::UnknownSmokeArgument(arg@),
            CtlError::MissingStatusVmid => CtlFault::MissingStatusVmid,
            CtlError::InvalidStatusVmid => CtlFault::InvalidStatusVmid,
            CtlError::MissingStatusSocket => CtlFault::MissingStatusSocket,
            CtlError::UnknownStatusArgument(arg) => CtlFault::UnknownStatusArgument(arg@),
        }
    }
}

impl CtlFault {
    /// What the error says to a reader.
    pub open spec fn text(self) -> Seq<char> {
        match self {
            CtlFault::UnknownCommand(arg) => "unknown command: "@ + arg,
            CtlFault::UnknownHelpTopic(arg) => "unknown help topic: "@ + arg,
            CtlFault::UnknownOption(verb, arg) => "unknown "@ + verb.text() + " option: "@ + arg,
            CtlFault::UnexpectedArgument(verb, arg) => "unexpected "@ + verb.text()
                + " argument: "@ + arg,
            CtlFault::MissingVmid(verb) => "missing VMID for "@ + verb.text(),
            CtlFault::InvalidVmid => "VMID must be an unsigned integer"@,
            CtlFault::MissingSmokeVmid => "missing --vmid value"@,
            CtlFault::InvalidSmokeVmid => "invalid --vmid value"@,
            CtlFault::MissingSmokeDevice => "missing --device value"@,
            CtlFault::UnknownSmokeArgument(arg) => "unknown smoke argument: "@ + arg,
            CtlFault::MissingStatusVmid => "--vmid requires a value"@,
            CtlFault::InvalidStatusVmid => "--vmid value must be an unsigned integer"@,
            CtlFault::MissingStatusSocket => "--socket requires a value"@,
            CtlFault::UnknownStatusArgument(arg) => "unknown status argument: "@ + arg,
        }
    }
}

impl CtlError {
    /// What the error says to a reader.
    pub fn message(&self) -> (message: String)
        ensures
            message@ == self@.text(),
    {
        match self {
            CtlError::UnknownCommand(arg) => concat("unknown command: ", arg),
            CtlError::UnknownHelpTopic(arg) => concat("unknown help topic: ", arg),
            CtlError::UnknownOption(verb, arg) => {
                let mut message = concat3("unknown ", verb.name(), " option: ");
                message.append(arg);
                message
            },
            CtlError::UnexpectedArgument(verb, arg) => {
                let mut message = concat3("unexpected ", verb.name(), " argument: ");
                message.append(arg);
                message
            },
            CtlError::MissingVmid(verb) => concat("missing VMID for ", verb.name()),
            CtlError::InvalidVmid => "VMID must be an unsigned integer".to_string(),
            CtlError::MissingSmokeVmid => "missing --vmid value".to_string(),
            CtlError::InvalidSmokeVmid => "invalid --vmid value".to_string(),
            CtlError::MissingSmokeDevice => "missing --device value".to_string(),
            CtlError::UnknownSmokeArgument(arg) => concat("unknown smoke argument: ", arg),
            CtlError::MissingStatusVmid => "--vmid requires a value".to_string(),
            CtlError::InvalidStatusVmid => "--vmid value must be an unsigned integer".to_string(),
            CtlError::MissingStatusSocket => "--socket requires a value".to_string(),
            CtlError::UnknownStatusArgument(arg) => concat("unknown status argument: ", arg),
        }
    }
}

// ── Commands on VMs ──────────────────────────────────────────────────────────

/// The VM that arguments name and whether they ask for a dry run, where `vmid`
/// and `dry_run` are what the arguments before them came to.
pub open spec fn vm_options(
    verb: VmVerb,
    args: Seq<Seq<char>>,
    vmid: Option<Seq<char>>,
    dry_run: bool,
) -> Result<(Seq<char>, bool), CtlFault>
    decreases args.len(),
{
    if args.len() == 0 {
        match vmid {
            Some(vmid) => Ok((vmid, dry_run)),
            None => Err(CtlFault::MissingVmid(verb)),
        }
    } else if args[0] == "--dry-run"@ {
        vm_options(verb, args.skip(1), vmid, true)
    } else if has_prefix(args[0], "-"@) {
        Err(CtlFault::UnknownOption(verb, args[0]))
    } else if vmid is Some {
        Err(CtlFault::UnexpectedArgument(verb, args[0]))
    } else {
        vm_options(verb, args.skip(1), Some(args[0]), dry_run)
    }
}

/// The VM that arguments name, and whether they ask for a dry run.
pub fn parse_vm_command(verb: VmVerb, args: &[String]) -> (result: Result<
    (String, bool),
    CtlError,
>)
    ensures
        (match result {
            Ok((vmid, dry_run)) => Ok::<(Seq<char>, bool), CtlFault>((vmid@, dry_run)),
            Err(error) => Err(error@),
        }) == vm_options(verb, texts(args@), None, false),
{
    let ghost all = texts(args@);
    let mut vmid: Option<String> = None;
    let mut dry_run = false;
    assert(all.skip(0) =~= all);
    for i in 0..args.len()
        invariant
            all == texts(args@),
            vm_options(verb, all, None, false) == vm_options(
                verb,
                all.skip(i as int),
                optional_text(vmid),
                dry_run,
            ),
    {
        assert(all.skip(i as int)[0] == args@[i as int]@);
        assert(all.skip(i as int).skip(1) =~= all.skip(i as int + 1));
        if same(&args[i], "--dry-run") {
            dry_run = true;
        } else if starts_with(&args[i], "-") {
            return Err(CtlError::UnknownOption(verb, args[i].clone()));
        } else if vmid.is_some() {
            return Err(CtlError::UnexpectedArgument(verb, args[i].clone()));
        } else {
            vmid = Some(args[i].clone());
        }
    }
    match vmid {
        Some(vmid) => Ok((vmid, dry_run)),
        None => Err(CtlError::MissingVmid(verb)),
    }
}

// ── Commands ─────────────────────────────────────────────────────────────────

/// What usage is shown of.
#[derive(Clone, Copy, Debug, PartialEq, Eq, Structural)]
pub enum HelpTopic {
    General,
    Attach,
    Detach,
    Smoke,
    Status,
}

/// What the command line asks for.
#[derive(Debug)]
pub enum CtlCommand {
    Help(HelpTopic),
    Vm { verb: VmVerb, vmid: String, dry_run: bool },
    Smoke(SmokePlan),
    Status(StatusPlan),
}

/// What the command line asks for, with texts as sequences of characters.
#[verifier::ext_equal]
pub enum CtlCommandView {
    Help(HelpTopic),
    Vm(VmVerb, Seq<char>, bool),
    Smoke(SmokeView),
    Status(CtlRequest, Seq<char>),
}

impl View for CtlCommand {
    type V = CtlCommandView;

    open spec fn view(&self) -> CtlCommandView {
        match *self {
            CtlCommand::Help(topic) => CtlCommandView::Help(topic),
            CtlCommand::Vm { verb, vmid, dry_run } => CtlCommandView::Vm(verb, vmid@, dry_run),
            CtlCommand::Smoke(plan) => CtlCommandView::Smoke(plan@),
            CtlCommand::Status(plan) => CtlCommandView::Status(plan.request, plan.socket_path@),
        }
    }
}

/// What `help` shows.
pub open spec fn help_topic(args: Seq<Seq<char>>) -> Result<HelpTopic, CtlFault> {
    if args.len() == 0 {
        Ok(HelpTopic::General)
    } else if args[0] == "attach"@ {
        Ok(HelpTopic::Attach)
    } else if args[0] == "detach"@ {
        Ok(HelpTopic::Detach)
    } else if args[0] == "smoke"@ {
        Ok(HelpTopic::Smoke)
    } else if args[0] == "status"@ {
        Ok(HelpTopic::Status)
    } else if args[0] == "help"@ {
        Ok(HelpTopic::General)
    } else {
        Err(CtlFault::UnknownHelpTopic(args[0]))
    }
}

/// Whether one of some arguments asks for help.
pub open spec fn wants_help(args: Seq<Seq<char>>) -> bool {
    exists|i: int| 0 <= i < args.len() && asks_help(#[trigger] args[i])
}

fn has_help_arg(args: &[String]) -> (yes: bool)
    ensures
        yes == wants_help(texts(args@)),
{
    let ghost all = texts(args@);
    for i in 0..args.len()
        invariant
            all == texts(args@),
            forall|j: int| 0 <= j < i ==> !asks_help(#[trigger] all[j]),
    {
        assert(all[i as int] == args@[i as int]@);
        if is_help_arg(&args[i]) {
            return true;
        }
    }
    false
}

/// The usage of a command on a VM.
pub open spec fn verb_topic(verb: VmVerb) -> HelpTopic {
    match verb {
        VmVerb::Attach => HelpTopic::Attach,
        VmVerb::Detach => HelpTopic::Detach,
    }
}

/// What arguments behind `attach` or `detach` ask for.
pub open spec fn vm_command(verb: VmVerb, args: Seq<Seq<char>>) -> Result<
    CtlCommandView,
    CtlFault,
> {
    if wants_help(args) {
        Ok(CtlCommandView::Help(verb_topic(verb)))
    } else {
        match vm_options(verb, args, None, false) {
            Err(fault) => Err(fault),
            Ok((vmid, dry_run)) => if is_vmid(vmid) {
                Ok(CtlCommandView::Vm(verb, vmid, dry_run))
            } else {
                Err(CtlFault::InvalidVmid)
            },
        }
    }
}

/// What the command line asks for.
pub open spec fn ctl_command(args: Seq<Seq<char>>) -> Result<CtlCommandView, CtlFault> {
    if args.len() == 0 || asks_help(args[0]) {
        Ok(CtlCommandView::Help(HelpTopic::General))
    } else if args[0] == "help"@ {
        match help_topic(args.skip(1)) {
            Ok(topic) => Ok(CtlCommandView::Help(topic)),
            Err(fault) => Err(fault),
        }
    } else if args[0] == "attach"@ {
        vm_command(VmVerb::Attach, args.skip(1))
    } else if args[0] == "detach"@ {
        vm_command(VmVerb::Detach, args.skip(1))
    } else if args[0] == "smoke"@ {
        if wants_help(args.skip(1)) {
            Ok(CtlCommandView::Help(HelpTopic::Smoke))
        } else {
            match smoke_options(args.skip(1), default_smoke()) {
                Ok(plan) => Ok(CtlCommandView::Smoke(plan)),
                Err(fault) => Err(fault),
            }
        }
    } else if args[0] == "status"@ {
        if wants_help(args.skip(1)) {
            Ok(CtlCommandView::Help(HelpTopic::Status))
        } else {
            match status_options(args.skip(1), None, DEFAULT_CTL_SOCKET@) {
                Ok((filter, socket)) => Ok(CtlCommandView::Status(request_for(filter), socket)),
                Err(fault) => Err(fault),
            }
        }
    } else {
        Err(CtlFault::UnknownCommand(args[0]))
    }
}

/// The view of a command or an error.
pub open spec fn ctl_view(result: Result<CtlCommand, CtlError>) -> Result<
    CtlCommandView,
    CtlFault,
> {
    match result {
        Ok(command) => Ok(command@),
        Err(error) => Err(error@),
    }
}

/// The topic that `help` shows.
pub fn parse_help_topic(args: &[String]) -> (result: Result<HelpTopic, CtlError>)
    ensures
        (match result {
            Ok(topic) => Ok::<HelpTopic, CtlFault>(topic),
            Err(error) => Err(error@),
        }) == help_topic(texts(args@)),
{
    if args.len() == 0 {
        return Ok(HelpTopic::General);
    }
    assert(texts(args@)[0] == args@[0]@);
    let topic = &args[0];
    if same(topic, "attach") {
        Ok(HelpTopic::Attach)
    } else if same(topic, "detach") {
        Ok(HelpTopic::Detach)
    } else if same(topic, "smoke") {
        Ok(HelpTopic::Smoke)
    } else if same(topic, "status") {
        Ok(HelpTopic::Status)
    } else if same(topic, "help") {
        Ok(HelpTopic::General)
    } else {
        Err(CtlError::UnknownHelpTopic(topic.clone()))
    }
}

fn run_vm_command(verb: VmVerb, args: &[String]) -> (result: Result<CtlCommand, CtlError>)
    ensures
        ctl_view(result) == vm_command(verb, texts(args@)),
{
    if has_help_arg(args) {
        return match verb {
            VmVerb::Attach => Ok(CtlCommand::Help(HelpTopic::Attach)),
            VmVerb::Detach => Ok(CtlCommand::Help(HelpTopic::Detach)),
        };
    }
    match parse_vm_command(verb, args) {
        Err(error) => Err(error),
        Ok((vmid, dry_run)) => {
            if valid_vmid(&vmid) {
                Ok(CtlCommand::Vm { verb, vmid, dry_run })
            } else {
                Err(CtlError::InvalidVmid)
            }
        },
    }
}

/// What the command line asks for.
pub fn parse_ctl_command(args: &[String]) -> (result: Result<CtlCommand, CtlError>)
    ensures
        ctl_view(result) == ctl_command(texts(args@)),
{
    if args.len() == 0 {
        return Ok(CtlCommand::Help(HelpTopic::General));
    }
    assert(texts(args@)[0] == args@[0]@);
    let first = &args[0];
    if is_help_arg(first) {
        return Ok(CtlCommand::Help(HelpTopic::General));
    }
    let rest = crate::agent::cli::behind_first(args);
    if same(first, "help") {
        match parse_help_topic(&rest) {
            Ok(topic) => Ok(CtlCommand::Help(topic)),
            Err(error) => Err(error),
        }
    } else if same(first, "attach") {
        run_vm_command(VmVerb::Attach, &rest)
    } else if same(first, "detach") {
        run_vm_command(VmVerb::Detach, &rest)
    } else if same(first, "smoke") {
        if has_help_arg(&rest) {
            return Ok(CtlCommand::Help(HelpTopic::Smoke));
        }
        match crate::ctl::smoke::run(&rest) {
            Ok(plan) => Ok(CtlCommand::Smoke(plan)),
            Err(error) => Err(error),
        }
    } else if same(first, "status") {
        if has_help_arg(&rest) {
            return Ok(CtlCommand::Help(HelpTopic::Status));
        }
        match crate::ctl::status::run(&rest) {
            Ok(plan) => Ok(CtlCommand::Status(plan)),
            Err(error) => Err(error),
        }
    } else {
        Err(CtlError::UnknownCommand(first.clone()))
    }
}

} // verus!
