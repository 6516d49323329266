//! The `cargo apple` command line: its subcommands, the steps each one takes, and
//! how a failed step is reported.
//!
//! Running a subcommand is a sequence of steps of outside work (loading the
//! environment and the configuration, calling Xcode, the toolchain or a device).
//! [`Exec`] decides which step comes next and what the outcome of each step means;
//! the caller performs the steps and hands back their outcomes.
use vstd::prelude::*;

use crate::report::{Report, ReportView};

verus! {

/// How much the tools say while they work.
#[derive(Debug, Clone, Copy, PartialEq, Eq, Structural)]
pub enum NoiseLevel {
    Polite,
    LoudAndProud,
    FranklyQuitePedantic,
}

/// Whether the tools may ask questions.
#[derive(Debug, Clone, Copy, PartialEq, Eq, Structural)]
pub enum Interactivity {
    Full,
    NonInteractive,
}

/// Whether existing files may be overwritten.
#[derive(Debug, Clone, Copy, PartialEq, Eq, Structural)]
pub enum Clobbering {
    Forbid,
    Allow,
}

/// What to open once a project has been created.
#[derive(Debug, Clone, Copy, PartialEq, Eq, Structural)]
pub enum OpenIn {
    Nothing,
    Editor,
}

impl OpenIn {
    /// Whether the project is to be opened in an editor.
    pub fn editor(&self) -> (r: bool)
        ensures
            r == (*self == OpenIn::Editor),
    {
        match self {
            OpenIn::Nothing => false,
            OpenIn::Editor => true,
        }
    }
}

/// Which build profile to use.
#[derive(Debug, Clone, Copy, PartialEq, Eq, Structural)]
pub enum Profile {
    Debug,
    Release,
}

/// The flags that every subcommand takes.
#[derive(Debug, Clone, Copy, PartialEq, Eq, Structural)]
pub struct GlobalFlags {
    pub noise_level: NoiseLevel,
    pub interactivity: Interactivity,
}

/// A subcommand of `cargo apple`.
#[derive(Debug)]
pub enum Subcommand {
    /// Creates a new project in the current working directory.
    Init { clobbering: Clobbering, open: OpenIn },
    /// Opens the project in Xcode.
    Open,
    /// Checks whether the code compiles for the given targets.
    Check { targets: Vec<String> },
    /// Builds static libraries for the given targets.
    Build { targets: Vec<String>, profile: Profile },
    /// Deploys to a connected device.
    Run { profile: Profile },
    /// Lists connected devices.
    List,
    /// Compiles the static library for one architecture, as Xcode asks.
    CompileLib { macos: bool, arch: String, profile: Profile },
}

/// A parsed `cargo apple` command line.
#[derive(Debug)]
pub struct Input {
    pub flags: GlobalFlags,
    pub command: Subcommand,
}

impl Input {
    /// The flags given before the subcommand.
    pub fn global_flags(&self) -> (r: GlobalFlags)
        ensures
            r == self.flags,
    {
        self.flags
    }
}

/// One piece of outside work that a subcommand needs done, with the settings it is
/// to be done with; the target names and the architecture are read from the
/// subcommand.
#[derive(Debug, Clone, Copy, PartialEq, Eq, Structural)]
pub enum Step {
    /// Read the environment the tools run in.
    LoadEnv,
    /// Create the project in the current directory (`.`), for the Apple platform
    /// only, with no template pack given and without opening anything.
    InitProject { interactivity: Interactivity, clobbering: Clobbering },
    /// Load (or generate) the project configuration in the current directory.
    LoadConfig { interactivity: Interactivity },
    /// Load the build metadata from the app's root directory.
    LoadMetadata,
    /// Open the project directory with the application "Xcode"
    /// (see [`crate::macos::xcode_project_command`]).
    OpenInXcode,
    /// Turn the target names into targets, detecting one when none is named.
    ResolveTargets,
    /// Check the code for each target.
    CheckTargets { noise_level: NoiseLevel },
    /// Build the static library for each target.
    BuildTargets { profile: Profile },
    /// Choose a connected device.
    PromptDevice,
    /// Deploy to and run on the chosen device.
    RunOnDevice { profile: Profile },
    /// List the connected devices.
    ListDevices,
    /// Find the target for the architecture that Xcode named.
    ResolveArch,
    /// Compile the static library, for macOS or for the target that was found.
    CompileLib { macos: bool, noise_level: NoiseLevel, interactivity: Interactivity, profile: Profile },
}

/// The steps that a subcommand takes with the global flags `flags`, in order.
pub open spec fn plan(flags: GlobalFlags, command: Subcommand) -> Seq<Step> {
    let interactivity = flags.interactivity;
    let noise_level = flags.noise_level;
    match command {
        Subcommand::Init { clobbering, open } => if open == OpenIn::Editor {
            seq![
                Step::LoadEnv,
                Step::InitProject { interactivity, clobbering },
                Step::OpenInXcode,
            ]
        } else {
            seq![Step::LoadEnv, Step::InitProject { interactivity, clobbering }]
        },
        Subcommand::Open => seq![
            Step::LoadEnv,
            Step::LoadConfig { interactivity },
            Step::OpenInXcode,
        ],
        Subcommand::Check { .. } => seq![
            Step::LoadEnv,
            Step::LoadConfig { interactivity },
            Step::LoadMetadata,
            Step::ResolveTargets,
            Step::CheckTargets { noise_level },
        ],
        Subcommand::Build { profile, .. } => seq![
            Step::LoadEnv,
            Step::LoadConfig { interactivity },
            Step::ResolveTargets,
            Step::BuildTargets { profile },
        ],
        Subcommand::Run { profile } => seq![
            Step::LoadEnv,
            Step::LoadConfig { interactivity },
            Step::PromptDevice,
            Step::RunOnDevice { profile },
        ],
        Subcommand::List => seq![Step::LoadEnv, Step::ListDevices],
        Subcommand::CompileLib { macos, profile, .. } => if macos {
            seq![
                Step::LoadEnv,
                Step::LoadConfig { interactivity },
                Step::LoadMetadata,
                Step::CompileLib { macos, noise_level, interactivity, profile },
            ]
        } else {
            seq![
                Step::LoadEnv,
                Step::LoadConfig { interactivity },
                Step::LoadMetadata,
                Step::ResolveArch,
                Step::CompileLib { macos, noise_level, interactivity, profile },
            ]
        },
    }
}

/// Whether the settings a step carries are those of the command line: the global
/// flags for noise level and interactivity, and the subcommand's own clobbering,
/// target choice (macOS or not) and profile.
pub open spec fn step_follows_command_line(step: Step, flags: GlobalFlags, command: Subcommand) -> bool {
    match step {
        Step::InitProject { interactivity, clobbering } => interactivity == flags.interactivity
            && (command matches Subcommand::Init { clobbering: c, .. } && c == clobbering),
        Step::LoadConfig { interactivity } => interactivity == flags.interactivity,
        Step::CheckTargets { noise_level } => noise_level == flags.noise_level,
        Step::BuildTargets { profile } => command matches Subcommand::Build { profile: p, .. } && p
            == profile,
        Step::RunOnDevice { profile } => command matches Subcommand::Run { profile: p } && p
            == profile,
        Step::CompileLib { macos, noise_level, interactivity, profile } => noise_level
            == flags.noise_level && interactivity == flags.interactivity && (command matches
            Subcommand::CompileLib { macos: m, profile: p, .. } && m == macos && p == profile),
        _ => true,
    }
}

/// Every step of a plan carries the settings of the command line, and each
/// subcommand's plan ends with its own work, done with those settings.
pub proof fn lemma_plan_follows_command_line(flags: GlobalFlags, command: Subcommand)
    ensures
        plan(flags, command).len() >= 2,
        plan(flags, command)[0] == Step::LoadEnv,
        forall|k: int|
            0 <= k < plan(flags, command).len() ==> step_follows_command_line(
                #[trigger] plan(flags, command)[k],
                flags,
                command,
            ),
        (command matches Subcommand::Build { profile, .. } ==> plan(flags, command).last()
            == (Step::BuildTargets { profile })),
        (command matches Subcommand::Run { profile } ==> plan(flags, command).last()
            == (Step::RunOnDevice { profile })),
        (command matches Subcommand::CompileLib { macos, profile, .. } ==> plan(
            flags,
            command,
        ).last() == (Step::CompileLib {
            macos,
            noise_level: flags.noise_level,
            interactivity: flags.interactivity,
            profile,
        })),
        (command matches Subcommand::Check { .. } ==> plan(flags, command).last()
            == (Step::CheckTargets { noise_level: flags.noise_level })),
        (command matches Subcommand::Init { clobbering, .. } ==> plan(flags, command)[1]
            == (Step::InitProject { interactivity: flags.interactivity, clobbering })),
        (command is List ==> plan(flags, command).last() == Step::ListDevices),
        (command is Open ==> plan(flags, command).last() == Step::OpenInXcode),
{
}

/// Why a subcommand failed; each variant but `ArchInvalid` holds the report of the
/// failed step as the outside work gave it.
#[derive(Debug)]
pub enum Error {
    EnvInitFailed(Report),
    DevicePromptFailed(Report),
    TargetInvalid(Report),
    ConfigFailed(Report),
    MetadataFailed(Report),
    InitFailed(Report),
    OpenFailed(Report),
    CheckFailed(Report),
    BuildFailed(Report),
    RunFailed(Report),
    ListFailed(Report),
    ArchInvalid { arch: String },
    CompileLibFailed(Report),
}

/// Why a subcommand failed, as plain values.
pub enum ExecFault {
    EnvInitFailed(ReportView),
    DevicePromptFailed(ReportView),
    TargetInvalid(ReportView),
    ConfigFailed(ReportView),
    MetadataFailed(ReportView),
    InitFailed(ReportView),
    OpenFailed(ReportView),
    CheckFailed(ReportView),
    BuildFailed(ReportView),
    RunFailed(ReportView),
    ListFailed(ReportView),
    ArchInvalid { arch: Seq<char> },
    CompileLibFailed(ReportView),
}

impl View for Error {
    type V = ExecFault;

    open spec fn view(&self) -> ExecFault {
        match self {
            Error::EnvInitFailed(r) => ExecFault::EnvInitFailed(r@),
            Error::DevicePromptFailed(r) => ExecFault::DevicePromptFailed(r@),
            Error::TargetInvalid(r) => ExecFault::TargetInvalid(r@),
            Error::ConfigFailed(r) => ExecFault::ConfigFailed(r@),
            Error::MetadataFailed(r) => ExecFault::MetadataFailed(r@),
            Error::InitFailed(r) => ExecFault::InitFailed(r@),
            Error::OpenFailed(r) => ExecFault::OpenFailed(r@),
            Error::CheckFailed(r) => ExecFault::CheckFailed(r@),
            Error::BuildFailed(r) => ExecFault::BuildFailed(r@),
            Error::RunFailed(r) => ExecFault::RunFailed(r@),
            Error::ListFailed(r) => ExecFault::ListFailed(r@),
            Error::ArchInvalid { arch } => ExecFault::ArchInvalid { arch: arch@ },
            Error::CompileLibFailed(r) => ExecFault::CompileLibFailed(r@),
        }
    }
}

/// The architecture that a subcommand names, if it names one.
pub open spec fn named_arch(command: Subcommand) -> Seq<char> {
    match command {
        Subcommand::CompileLib { arch, .. } => arch@,
        _ => Seq::<char>::empty(),
    }
}

/// The error that a failure of `step` turns into, given the report of the failure.
pub open spec fn step_fault(step: Step, report: ReportView, command: Subcommand) -> ExecFault {
    match step {
        Step::LoadEnv => ExecFault::EnvInitFailed(report),
        Step::InitProject { .. } => ExecFault::InitFailed(report),
        Step::LoadConfig { .. } => ExecFault::ConfigFailed(report),
        Step::LoadMetadata => ExecFault::MetadataFailed(report),
        Step::OpenInXcode => ExecFault::OpenFailed(report),
        Step::ResolveTargets => ExecFault::TargetInvalid(report),
        Step::CheckTargets { .. } => ExecFault::CheckFailed(report),
        Step::BuildTargets { .. } => ExecFault::BuildFailed(report),
        Step::PromptDevice => ExecFault::DevicePromptFailed(report),
        Step::RunOnDevice { .. } => ExecFault::RunFailed(report),
        Step::ListDevices => ExecFault::ListFailed(report),
        Step::ResolveArch => ExecFault::ArchInvalid { arch: named_arch(command) },
        Step::CompileLib { .. } => ExecFault::CompileLibFailed(report),
    }
}

/// Whether `command` can end with an error of the kind of `fault`: loading the
/// environment can fail for every subcommand, and each other failure only for the
/// subcommands that take the step it comes from.
pub open spec fn fault_possible(command: Subcommand, fault: ExecFault) -> bool {
    match fault {
        ExecFault::EnvInitFailed(_) => true,
        ExecFault::InitFailed(_) => command is Init,
        ExecFault::OpenFailed(_) => command is Open || (command matches Subcommand::Init { open, .. }
            && open == OpenIn::Editor),
        ExecFault::ConfigFailed(_) => !(command is Init) && !(command is List),
        ExecFault::MetadataFailed(_) => command is Check || command is CompileLib,
        ExecFault::TargetInvalid(_) => command is Check || command is Build,
        ExecFault::CheckFailed(_) => command is Check,
        ExecFault::BuildFailed(_) => command is Build,
        ExecFault::DevicePromptFailed(_) => command is Run,
        ExecFault::RunFailed(_) => command is Run,
        ExecFault::ListFailed(_) => command is List,
        ExecFault::ArchInvalid { .. } => command matches Subcommand::CompileLib { macos, .. }
            && !macos,
        ExecFault::CompileLibFailed(_) => command is CompileLib,
    }
}

/// Whichever step of its plan fails, a subcommand ends with an error that it can
/// fail with.
pub proof fn lemma_run_errors(flags: GlobalFlags, command: Subcommand, k: int, report: ReportView)
    requires
        0 <= k < plan(flags, command).len(),
    ensures
        fault_possible(command, step_fault(plan(flags, command)[k], report, command)),
{
}

/// How a step of outside work went.
#[derive(Debug)]
pub enum Outcome {
    Succeeded,
    Failed(Report),
}

/// The steps that the subcommand `command` takes with the global flags `flags`.
pub fn plan_steps(flags: GlobalFlags, command: &Subcommand) -> (steps: Vec<Step>)
    ensures
        steps@ == plan(flags, *command),
{
    let interactivity = flags.interactivity;
    let noise_level = flags.noise_level;
    match command {
        Subcommand::Init { clobbering, open } => {
            let clobbering = *clobbering;
            if open.editor() {
                vec![
                    Step::LoadEnv,
                    Step::InitProject { interactivity, clobbering },
                    Step::OpenInXcode,
                ]
            } else {
                vec![Step::LoadEnv, Step::InitProject { interactivity, clobbering }]
            }
        },
        Subcommand::Open => vec![
            Step::LoadEnv,
            Step::LoadConfig { interactivity },
            Step::OpenInXcode,
        ],
        Subcommand::Check { .. } => vec![
            Step::LoadEnv,
            Step::LoadConfig { interactivity },
            Step::LoadMetadata,
            Step::ResolveTargets,
            Step::CheckTargets { noise_level },
        ],
        Subcommand::Build { profile, .. } => vec![
            Step::LoadEnv,
            Step::LoadConfig { interactivity },
            Step::ResolveTargets,
            Step::BuildTargets { profile: *profile },
        ],
        Subcommand::Run { profile } => vec![
            Step::LoadEnv,
            Step::LoadConfig { interactivity },
            Step::PromptDevice,
            Step::RunOnDevice { profile: *profile },
        ],
        Subcommand::List => vec![Step::LoadEnv, Step::ListDevices],
        Subcommand::CompileLib { macos, profile, .. } => {
            let compile = Step::CompileLib {
                macos: *macos,
                noise_level,
                interactivity,
                profile: *profile,
            };
            if *macos {
                vec![Step::LoadEnv, Step::LoadConfig { interactivity }, Step::LoadMetadata, compile]
            } else {
                vec![
                    Step::LoadEnv,
                    Step::LoadConfig { interactivity },
                    Step::LoadMetadata,
                    Step::ResolveArch,
                    compile,
                ]
            }
        },
    }
}

fn step_error(step: Step, report: Report, command: &Subcommand) -> (e: Error)
    ensures
        e@ == step_fault(step, report@, *command),
{
    match step {
        Step::LoadEnv => Error::EnvInitFailed(report),
        Step::InitProject { .. } => Error::InitFailed(report),
        Step::LoadConfig { .. } => Error::ConfigFailed(report),
        Step::LoadMetadata => Error::MetadataFailed(report),
        Step::OpenInXcode => Error::OpenFailed(report),
        Step::ResolveTargets => Error::TargetInvalid(report),
        Step::CheckTargets { .. } => Error::CheckFailed(report),
        Step::BuildTargets { .. } => Error::BuildFailed(report),
        Step::PromptDevice => Error::DevicePromptFailed(report),
        Step::RunOnDevice { .. } => Error::RunFailed(report),
        Step::ListDevices => Error::ListFailed(report),
        Step::ResolveArch => {
            let arch = match command {
                Subcommand::CompileLib { arch, .. } => arch.clone(),
                _ => String::new(),
            };
            Error::ArchInvalid { arch }
        },
        Step::CompileLib { .. } => Error::CompileLibFailed(report),
    }
}

/// A subcommand on its way: the steps still to do, one at a time.
pub struct Exec {
    flags: GlobalFlags,
    command: Subcommand,
    steps: Vec<Step>,
    done: usize,
}

impl Exec {
    #[verifier::type_invariant]
    spec fn follows_plan(&self) -> bool {
        &&& self.done <= self.steps.len()
        &&& self.steps@ == plan(self.flags, self.command)
    }

    /// The global flags the subcommand runs with.
    pub closed spec fn flags(&self) -> GlobalFlags {
        self.flags
    }

    /// The subcommand being run.
    pub closed spec fn command(&self) -> Subcommand {
        self.command
    }

    /// The steps not yet done, in order.
    pub closed spec fn remaining(&self) -> Seq<Step> {
        self.steps@.skip(self.done as int)
    }

    /// Starts running the subcommand of `input`: every step of its plan is to do.
    pub fn new(input: Input) -> (exec: Exec)
        ensures
            exec.flags() == input.flags,
            exec.command() == input.command,
            exec.remaining() == plan(input.flags, input.command),
    {
        let steps = plan_steps(input.flags, &input.command);
        let exec = Exec { flags: input.flags, command: input.command, steps, done: 0 };
        assert(exec.steps@.skip(0) =~= exec.steps@);
        exec
    }

    /// The subcommand being run, for the outside work that needs its arguments.
    pub fn subcommand(&self) -> (r: &Subcommand)
        ensures
            *r == self.command(),
    {
        &self.command
    }

    /// The step to do next, or `None` when the run is over.
    pub fn next_step(&self) -> (step: Option<Step>)
        ensures
            step == (if self.remaining().len() > 0 {
                Some(self.remaining()[0])
            } else {
                None::<Step>
            }),
    {
        proof {
            use_type_invariant(self);
        }
        if self.done < self.steps.len() {
            Some(self.steps[self.done])
        } else {
            None
        }
    }

    /// Records how the next step went. A success moves on, and the run ends with `Ok`
    /// once no step is left; a failure ends the run at once with the error of the
    /// failed step, which is always one that the subcommand can fail with, and
    /// nothing is left to do.
    pub fn advance(&mut self, outcome: Outcome) -> (finished: Option<Result<(), Error>>)
        requires
            old(self).remaining().len() > 0,
        ensures
            final(self).flags() == old(self).flags(),
            final(self).command() == old(self).command(),
            match outcome {
                Outcome::Succeeded => {
                    &&& final(self).remaining() == old(self).remaining().drop_first()
                    &&& finished is Some <==> final(self).remaining().len() == 0
                    &&& finished is Some ==> finished->0 is Ok
                },
                Outcome::Failed(report) => {
                    &&& final(self).remaining().len() == 0
                    &&& finished matches Some(Err(e)) && e@ == step_fault(
                        old(self).remaining()[0],
                        report@,
                        old(self).command(),
                    ) && fault_possible(old(self).command(), e@)
                },
            },
    {
        proof {
            use_type_invariant(&*self);
            if let Outcome::Failed(report) = &outcome {
                lemma_run_errors(self.flags, self.command, self.done as int, report@);
            }
        }
        let n = self.steps.len();
        let ghost before = self.steps@.skip(self.done as int);
        assert(before[0] == self.steps@[self.done as int]);
        let step = self.steps[self.done];
        match outcome {
            Outcome::Succeeded => {
                self.done = self.done + 1;
                assert(self.steps@.skip(self.done as int) =~= before.drop_first());
                if self.done == n {
                    Some(Ok(()))
                } else {
                    None
                }
            },
            Outcome::Failed(report) => {
                self.done = n;
                assert(self.steps@.skip(n as int) =~= Seq::<Step>::empty());
                Some(Err(step_error(step, report, &self.command)))
            },
        }
    }
}

/// A name for what `format!("{:?}", text)` gives: `text` quoted, with the
/// characters that need it escaped.
pub uninterp spec fn debug_text(text: Seq<char>) -> Seq<char>;

/// Calls `format!` with `{:?}` on `text`, the `Debug` form of a string. The contract
/// claims only that the result is the same for the same text; the quoting and
/// escaping are std's.
#[verifier::external_body]
fn debug_string(text: &str) -> (r: String)
    ensures
        r@ == debug_text(text@),
{
    format!("{:?}", text)
}

/// The details shown for an architecture that no target has, given the architecture
/// in its quoted `Debug` form.
pub open spec fn arch_invalid_text(quoted: Seq<char>) -> Seq<char> {
    "Specified arch "@ + quoted + " was invalid"@
}

/// The details shown for an architecture that no target has, given the architecture
/// in its quoted `Debug` form.
pub fn arch_invalid_details(quoted: &str) -> (details: String)
    ensures
        details@ == arch_invalid_text(quoted@),
{
    let mut details = "Specified arch ".to_owned();
    details.append(quoted);
    details.append(" was invalid");
    details
}

/// The report that a failed subcommand shows.
pub open spec fn fault_report(fault: ExecFault) -> ReportView {
    match fault {
        ExecFault::TargetInvalid(r) => ReportView {
            msg: "Specified target was invalid"@,
            details: r.details,
        },
        ExecFault::OpenFailed(r) => ReportView {
            msg: "Failed to open project in Xcode"@,
            details: r.details,
        },
        ExecFault::ArchInvalid { arch } => ReportView {
            msg: "`cargo-xcode.sh` bug"@,
            details: arch_invalid_text(debug_text(arch)),
        },
        ExecFault::EnvInitFailed(r) => r,
        ExecFault::DevicePromptFailed(r) => r,
        ExecFault::ConfigFailed(r) => r,
        ExecFault::MetadataFailed(r) => r,
        ExecFault::InitFailed(r) => r,
        ExecFault::CheckFailed(r) => r,
        ExecFault::BuildFailed(r) => r,
        ExecFault::RunFailed(r) => r,
        ExecFault::ListFailed(r) => r,
        ExecFault::CompileLibFailed(r) => r,
    }
}

fn copy_report(r: &Report) -> (c: Report)
    ensures
        c@ == r@,
{
    Report { msg: r.msg.clone(), details: r.details.clone() }
}

impl Error {
    /// The report to show for this error: failures of the outside work keep their own
    /// report, and the invalid target, the failed launch of Xcode and the unknown
    /// architecture get a headline of their own.
    pub fn report(&self) -> (r: Report)
        ensures
            r@ == fault_report(self@),
    {
        match self {
            Error::TargetInvalid(r) => Report::error("Specified target was invalid", r.details.as_str()),
            Error::OpenFailed(r) => Report::error("Failed to open project in Xcode", r.details.as_str()),
            Error::ArchInvalid { arch } => {
                let quoted = debug_string(arch.as_str());
                let details = arch_invalid_details(quoted.as_str());
                Report { msg: "`cargo-xcode.sh` bug".to_owned(), details }
            },
            Error::EnvInitFailed(r) => copy_report(r),
            Error::DevicePromptFailed(r) => copy_report(r),
            Error::ConfigFailed(r) => copy_report(r),
            Error::MetadataFailed(r) => copy_report(r),
            Error::InitFailed(r) => copy_report(r),
            Error::CheckFailed(r) => copy_report(r),
            Error::BuildFailed(r) => copy_report(r),
            Error::RunFailed(r) => copy_report(r),
            Error::ListFailed(r) => copy_report(r),
            Error::CompileLibFailed(r) => copy_report(r),
        }
    }
}

} // verus!
