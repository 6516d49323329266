use cargo_mobile::report::Report;
use cargo_mobile::cli::{
    plan_steps, Clobbering, Error, Exec, GlobalFlags, Input, Interactivity, NoiseLevel, OpenIn, Outcome,
    Profile, Step, Subcommand,
};

fn flags() -> GlobalFlags {
    GlobalFlags { noise_level: NoiseLevel::Polite, interactivity: Interactivity::Full }
}

fn run(command: Subcommand, outcomes: Vec<Outcome>) -> (Vec<Step>, Option<Result<(), Error>>) {
    let mut exec = Exec::new(Input { flags: flags(), command });
    let mut seen = Vec::new();
    let mut finished = None;
    for outcome in outcomes {
        let step = exec.next_step().expect("a step is pending");
        seen.push(step);
        finished = exec.advance(outcome);
        if finished.is_some() {
            break;
        }
    }
    (seen, finished)
}

#[test]
fn plans_of_each_subcommand() {
    let loud = GlobalFlags { noise_level: NoiseLevel::LoudAndProud, interactivity: Interactivity::NonInteractive };
    let config = Step::LoadConfig { interactivity: Interactivity::NonInteractive };
    assert_eq!(
        plan_steps(loud, &Subcommand::Init { clobbering: Clobbering::Forbid, open: OpenIn::Nothing }),
        vec![
            Step::LoadEnv,
            Step::InitProject { interactivity: Interactivity::NonInteractive, clobbering: Clobbering::Forbid }
        ]
    );
    assert_eq!(
        plan_steps(flags(), &Subcommand::Init { clobbering: Clobbering::Allow, open: OpenIn::Editor }),
        vec![
            Step::LoadEnv,
            Step::InitProject { interactivity: Interactivity::Full, clobbering: Clobbering::Allow },
            Step::OpenInXcode
        ]
    );
    assert_eq!(plan_steps(loud, &Subcommand::Open), vec![Step::LoadEnv, config, Step::OpenInXcode]);
    assert_eq!(
        plan_steps(loud, &Subcommand::Check { targets: vec!["aarch64".to_string()] }),
        vec![
            Step::LoadEnv,
            config,
            Step::LoadMetadata,
            Step::ResolveTargets,
            Step::CheckTargets { noise_level: NoiseLevel::LoudAndProud }
        ]
    );
    assert_eq!(
        plan_steps(loud, &Subcommand::Build { targets: vec![], profile: Profile::Release }),
        vec![Step::LoadEnv, config, Step::ResolveTargets, Step::BuildTargets { profile: Profile::Release }]
    );
    assert_eq!(
        plan_steps(loud, &Subcommand::Run { profile: Profile::Debug }),
        vec![Step::LoadEnv, config, Step::PromptDevice, Step::RunOnDevice { profile: Profile::Debug }]
    );
    assert_eq!(plan_steps(loud, &Subcommand::List), vec![Step::LoadEnv, Step::ListDevices]);
    let compile = |macos| Step::CompileLib {
        macos,
        noise_level: NoiseLevel::LoudAndProud,
        interactivity: Interactivity::NonInteractive,
        profile: Profile::Release,
    };
    assert_eq!(
        plan_steps(loud, &Subcommand::CompileLib { macos: true, arch: String::new(), profile: Profile::Release }),
        vec![Step::LoadEnv, config, Step::LoadMetadata, compile(true)]
    );
    assert_eq!(
        plan_steps(loud, &Subcommand::CompileLib { macos: false, arch: "arm64".to_string(), profile: Profile::Release }),
        vec![Step::LoadEnv, config, Step::LoadMetadata, Step::ResolveArch, compile(false)]
    );
}

#[test]
fn all_steps_succeeding_ends_ok() {
    let (seen, finished) = run(Subcommand::List, vec![Outcome::Succeeded, Outcome::Succeeded]);
    assert_eq!(seen, vec![Step::LoadEnv, Step::ListDevices]);
    assert!(matches!(finished, Some(Ok(()))));
}

#[test]
fn open_failure_is_reported_with_its_headline() {
    let (seen, finished) = run(
        Subcommand::Open,
        vec![
            Outcome::Succeeded,
            Outcome::Succeeded,
            Outcome::Failed(Report::error("launch", "xed exited with 1")),
        ],
    );
    assert_eq!(seen.len(), 3);
    match finished {
        Some(Err(e)) => {
            assert!(matches!(e, Error::OpenFailed(_)));
            let report = e.report();
            assert_eq!(report.msg, "Failed to open project in Xcode");
            assert_eq!(report.details, "xed exited with 1");
        }
        other => panic!("unexpected {:?}", other),
    }
}

#[test]
fn config_failure_stops_the_run() {
    let mut exec = Exec::new(Input { flags: flags(), command: Subcommand::Run { profile: Profile::Debug } });
    assert!(exec.advance(Outcome::Succeeded).is_none());
    let finished = exec.advance(Outcome::Failed(Report::error("Config failed", "missing file")));
    match finished {
        Some(Err(Error::ConfigFailed(r))) => {
            assert_eq!(r.msg, "Config failed");
            assert_eq!(r.details, "missing file");
        }
        other => panic!("unexpected {:?}", other),
    }
    assert_eq!(exec.next_step(), None);
}

#[test]
fn unknown_arch_is_reported_as_script_bug() {
    let command = Subcommand::CompileLib { macos: false, arch: "sparc".to_string(), profile: Profile::Release };
    let (seen, finished) = run(
        command,
        vec![
            Outcome::Succeeded,
            Outcome::Succeeded,
            Outcome::Succeeded,
            Outcome::Failed(Report::error("", "")),
        ],
    );
    assert_eq!(seen.last(), Some(&Step::ResolveArch));
    match finished {
        Some(Err(e)) => {
            match &e {
                Error::ArchInvalid { arch } => assert_eq!(arch, "sparc"),
                other => panic!("unexpected {:?}", other),
            }
            let report = e.report();
            assert_eq!(report.msg, "`cargo-xcode.sh` bug");
            assert_eq!(report.details, "Specified arch \"sparc\" was invalid");
        }
        other => panic!("unexpected {:?}", other),
    }
}

#[test]
fn invalid_target_headline() {
    let (_, finished) = run(
        Subcommand::Build { targets: vec!["nope".to_string()], profile: Profile::Debug },
        vec![
            Outcome::Succeeded,
            Outcome::Succeeded,
            Outcome::Failed(Report::error("x", "`nope` isn't a target")),
        ],
    );
    match finished {
        Some(Err(e)) => {
            assert!(matches!(e, Error::TargetInvalid(_)));
            let report = e.report();
            assert_eq!(report.msg, "Specified target was invalid");
            assert_eq!(report.details, "`nope` isn't a target");
        }
        other => panic!("unexpected {:?}", other),
    }
}

#[test]
fn delegated_failures_keep_their_report() {
    let (_, finished) = run(
        Subcommand::Init { clobbering: Clobbering::Forbid, open: OpenIn::Editor },
        vec![Outcome::Succeeded, Outcome::Failed(Report::error("Init failed", "disk full"))],
    );
    match finished {
        Some(Err(e)) => {
            assert!(matches!(e, Error::InitFailed(_)));
            let report = e.report();
            assert_eq!(report.msg, "Init failed");
            assert_eq!(report.details, "disk full");
        }
        other => panic!("unexpected {:?}", other),
    }
}

#[test]
fn global_flags_are_handed_back() {
    let input = Input { flags: flags(), command: Subcommand::List };
    assert_eq!(input.global_flags(), flags());
    assert!(OpenIn::Editor.editor());
    assert!(!OpenIn::Nothing.editor());
}

fn fail_at(command: Subcommand, k: usize) -> Error {
    let mut outcomes: Vec<Outcome> = (0..k).map(|_| Outcome::Succeeded).collect();
    outcomes.push(Outcome::Failed(Report::error("headline", "details")));
    match run(command, outcomes).1 {
        Some(Err(e)) => e,
        other => panic!("unexpected {:?}", other),
    }
}

#[test]
fn each_step_failure_has_its_error() {
    assert!(matches!(fail_at(Subcommand::List, 0), Error::EnvInitFailed(_)));
    assert!(matches!(fail_at(Subcommand::List, 1), Error::ListFailed(_)));
    let check = || Subcommand::Check { targets: vec!["aarch64".to_string()] };
    assert!(matches!(fail_at(check(), 1), Error::ConfigFailed(_)));
    assert!(matches!(fail_at(check(), 2), Error::MetadataFailed(_)));
    assert!(matches!(fail_at(check(), 3), Error::TargetInvalid(_)));
    assert!(matches!(fail_at(check(), 4), Error::CheckFailed(_)));
    let build = || Subcommand::Build { targets: vec!["x86_64".to_string()], profile: Profile::Release };
    assert!(matches!(fail_at(build(), 3), Error::BuildFailed(_)));
    let run_cmd = || Subcommand::Run { profile: Profile::Release };
    assert!(matches!(fail_at(run_cmd(), 2), Error::DevicePromptFailed(_)));
    assert!(matches!(fail_at(run_cmd(), 3), Error::RunFailed(_)));
    let compile = || Subcommand::CompileLib { macos: true, arch: String::new(), profile: Profile::Debug };
    assert!(matches!(fail_at(compile(), 3), Error::CompileLibFailed(_)));
    let e = fail_at(Subcommand::List, 1);
    let report = e.report();
    assert_eq!(report.msg, "headline");
    assert_eq!(report.details, "details");
}

#[test]
fn arch_details_wrap_the_quoted_arch() {
    assert_eq!(
        cargo_mobile::cli::arch_invalid_details("\"arm64e\""),
        "Specified arch \"arm64e\" was invalid"
    );
}
