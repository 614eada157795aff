//! `gt compose` — the plan for managing the gt-app deploy stack.
//!
//! `up` clones (or fast-forwards) the `gt-app` deploy repo and brings the stack up (pull the
//! image, then `up -d`); `down` tears it down keeping the data volumes; `destroy` tears it
//! down AND drops the data volumes, only with `--yes`. The caller runs `git` and
//! `docker compose`; this module decides the directory, the checks and the commands.

use vstd::prelude::*;

use crate::project_config::{path_join, path_join_chars};
use crate::text::{chars_of, string_from_chars};

verus! {

/// Default deploy repo (public).
pub const DEFAULT_REPO: &'static str = "https://github.com/gt-core-labs/gt-app.git";

/// Default branch checked out.
pub const DEFAULT_BRANCH: &'static str = "main";

/// The directory name under `$HOME` used when no `--dir` is given.
pub const DEFAULT_DIR_NAME: &'static str = "gt-app";

/// The compose file a deploy checkout holds.
pub const COMPOSE_FILE: &'static str = "docker-compose.yml";

/// A compose subcommand.
#[derive(Debug, Clone, PartialEq, Eq)]
pub enum ComposeAction {
    /// Clone/update the deploy repo and bring the stack up.
    Up { dir: Option<String>, repo: String, branch: String, no_pull: bool },
    /// Stop and remove the stack's containers; data volumes are kept.
    Down { dir: Option<String> },
    /// Destroy the stack AND its data volumes; requires `yes`.
    Destroy { dir: Option<String>, yes: bool },
}

/// Why a compose action was refused.
#[derive(Debug, Clone, Copy, PartialEq, Eq)]
pub enum ComposeError {
    /// No `--dir` and `HOME` is not set.
    HomeNotSet,
    /// The deploy directory has no `docker-compose.yml` (run `compose up` first).
    NoComposeFile,
    /// `destroy` without `--yes`.
    DestroyNeedsYes,
}

/// The deploy directory: an explicit `--dir` wins; else `$HOME/gt-app`.
pub fn resolve_dir(dir: Option<&str>, home: Option<&str>) -> (r: Result<String, ComposeError>)
    ensures
        dir is Some ==> (r matches Ok(d) && d@ == dir->0@),
        dir is None && home is Some ==> (r matches Ok(d) && d@ == path_join(
            home->0@,
            DEFAULT_DIR_NAME@,
        )),
        dir is None && home is None ==> r == Err::<String, ComposeError>(ComposeError::HomeNotSet),
{
    match dir {
        Some(d) => Ok(d.to_owned()),
        None => match home {
            Some(h) => Ok(
                string_from_chars(
                    path_join_chars(&chars_of(h), &chars_of(DEFAULT_DIR_NAME)).as_slice(),
                ),
            ),
            None => Err(ComposeError::HomeNotSet),
        },
    }
}

/// `<dir>/docker-compose.yml`, the file whose presence [`require_compose_file`] checks.
pub fn compose_file_path(dir: &str) -> (r: String)
    ensures
        r@ == path_join(dir@, COMPOSE_FILE@),
{
    string_from_chars(path_join_chars(&chars_of(dir), &chars_of(COMPOSE_FILE)).as_slice())
}

/// `down`/`destroy` need an existing deploy checkout: `present` is whether
/// [`compose_file_path`] is a file.
pub fn require_compose_file(present: bool) -> (r: Result<(), ComposeError>)
    ensures
        present ==> r is Ok,
        !present ==> r == Err::<(), ComposeError>(ComposeError::NoComposeFile),
{
    if present {
        Ok(())
    } else {
        Err(ComposeError::NoComposeFile)
    }
}

/// One command of a compose plan.
#[derive(Debug, Clone, PartialEq, Eq)]
pub enum ComposeStep {
    /// `git pull --ff-only origin <branch>` inside `dir`.
    GitPull { dir: String, branch: String },
    /// `git clone --branch <branch> <repo> <dir>`.
    GitClone { repo: String, branch: String, dir: String },
    /// `docker compose <args>` inside the deploy directory.
    Compose { args: Vec<String> },
}

/// The view of a [`ComposeStep`].
pub enum StepView {
    GitPull(Seq<char>, Seq<char>),
    GitClone(Seq<char>, Seq<char>, Seq<char>),
    Compose(Seq<Seq<char>>),
}

impl View for ComposeStep {
    type V = StepView;

    open spec fn view(&self) -> StepView {
        match self {
            ComposeStep::GitPull { dir, branch } => StepView::GitPull(dir@, branch@),
            ComposeStep::GitClone { repo, branch, dir } => StepView::GitClone(
                repo@,
                branch@,
                dir@,
            ),
            ComposeStep::Compose { args } => StepView::Compose(args@.map_values(|a: String| a@)),
        }
    }
}

/// The views of a list of steps.
pub open spec fn step_views(s: Seq<ComposeStep>) -> Seq<StepView> {
    s.map_values(|x: ComposeStep| x@)
}

/// The commands an action runs in the deploy directory `dir`, where `has_git` is whether
/// `<dir>/.git` is a directory and `has_compose_file` whether [`compose_file_path`] is a file.
///
/// `up` clones the repo when there is no checkout, else fast-forwards it; then pulls the image
/// (unless `no_pull`) and brings the stack up detached. `down` and `destroy` need the compose
/// file; `destroy` also needs `yes` and drops the volumes.
pub open spec fn spec_plan(action: ComposeAction, dir: Seq<char>, has_git: bool, has_compose_file: bool) -> Result<
    Seq<StepView>,
    ComposeError,
> {
    match action {
        ComposeAction::Up { repo, branch, no_pull, .. } => {
            let sync = if has_git {
                StepView::GitPull(dir, branch@)
            } else {
                StepView::GitClone(repo@, branch@, dir)
            };
            let pull = if no_pull {
                Seq::empty()
            } else {
                seq![StepView::Compose(seq!["pull"@])]
            };
            Ok(seq![sync] + pull + seq![StepView::Compose(seq!["up"@, "-d"@])])
        },
        ComposeAction::Down { .. } => if !has_compose_file {
            Err(ComposeError::NoComposeFile)
        } else {
            Ok(seq![StepView::Compose(seq!["down"@])])
        },
        ComposeAction::Destroy { yes, .. } => if !has_compose_file {
            Err(ComposeError::NoComposeFile)
        } else if !yes {
            Err(ComposeError::DestroyNeedsYes)
        } else {
            Ok(seq![StepView::Compose(seq!["down"@, "--volumes"@])])
        },
    }
}

fn owned(s: &str) -> (r: String)
    ensures
        r@ == s@,
{
    s.to_owned()
}

fn compose_step(a: &str) -> (r: ComposeStep)
    ensures
        r@ == StepView::Compose(seq![a@]),
{
    let mut args: Vec<String> = Vec::new();
    args.push(owned(a));
    let r = ComposeStep::Compose { args };
    assert(r@ matches StepView::Compose(v) && v =~= seq![a@]);
    r
}

fn compose_step2(a: &str, b: &str) -> (r: ComposeStep)
    ensures
        r@ == StepView::Compose(seq![a@, b@]),
{
    let mut args: Vec<String> = Vec::new();
    args.push(owned(a));
    args.push(owned(b));
    let r = ComposeStep::Compose { args };
    assert(r@ matches StepView::Compose(v) && v =~= seq![a@, b@]);
    r
}

/// The commands `action` runs in `dir` (see [`spec_plan`]).
pub fn plan(action: &ComposeAction, dir: &str, has_git: bool, has_compose_file: bool) -> (r: Result<
    Vec<ComposeStep>,
    ComposeError,
>)
    ensures
        match spec_plan(*action, dir@, has_git, has_compose_file) {
            Ok(steps) => r matches Ok(v) && step_views(v@) == steps,
            Err(e) => r == Err::<Vec<ComposeStep>, ComposeError>(e),
        },
{
    let mut steps: Vec<ComposeStep> = Vec::new();
    match action {
        ComposeAction::Up { repo, branch, no_pull, .. } => {
            if has_git {
                steps.push(ComposeStep::GitPull { dir: owned(dir), branch: branch.clone() });
            } else {
                steps.push(
                    ComposeStep::GitClone { repo: repo.clone(), branch: branch.clone(), dir: owned(dir) },
                );
            }
            if !*no_pull {
                steps.push(compose_step("pull"));
            }
            steps.push(compose_step2("up", "-d"));
            proof {
                let sync = if has_git {
                    StepView::GitPull(dir@, branch@)
                } else {
                    StepView::GitClone(repo@, branch@, dir@)
                };
                let pull: Seq<StepView> = if *no_pull {
                    Seq::empty()
                } else {
                    seq![StepView::Compose(seq!["pull"@])]
                };
                assert(step_views(steps@) =~= seq![sync] + pull + seq![
                    StepView::Compose(seq!["up"@, "-d"@]),
                ]);
            }
            Ok(steps)
        },
        ComposeAction::Down { .. } => {
            if !has_compose_file {
                return Err(ComposeError::NoComposeFile);
            }
            steps.push(compose_step("down"));
            assert(step_views(steps@) =~= seq![StepView::Compose(seq!["down"@])]);
            Ok(steps)
        },
        ComposeAction::Destroy { yes, .. } => {
            if !has_compose_file {
                return Err(ComposeError::NoComposeFile);
            }
            if !*yes {
                return Err(ComposeError::DestroyNeedsYes);
            }
            steps.push(compose_step2("down", "--volumes"));
            assert(step_views(steps@) =~= seq![StepView::Compose(seq!["down"@, "--volumes"@])]);
            Ok(steps)
        },
    }
}

/// What follows a `docker compose` run.
#[derive(Debug, Clone, Copy, PartialEq, Eq)]
pub enum ComposeNext {
    /// It succeeded.
    Done,
    /// It ran and failed: surface that, do not fall back.
    Failed,
    /// `docker` could not be started: try the legacy `docker-compose` binary.
    TryLegacy,
}

/// `docker compose` falls back to `docker-compose` only when `docker` could not be started.
pub fn after_docker_compose(started: bool, success: bool) -> (r: ComposeNext)
    ensures
        !started ==> r == ComposeNext::TryLegacy,
        started && success ==> r == ComposeNext::Done,
        started && !success ==> r == ComposeNext::Failed,
{
    if !started {
        ComposeNext::TryLegacy
    } else if success {
        ComposeNext::Done
    } else {
        ComposeNext::Failed
    }
}

/// Destroying the data volumes always needs `--yes`: no destroy plan runs without it.
pub proof fn lemma_destroy_needs_yes(dir: Option<String>, deploy: Seq<char>, has_git: bool, has_compose_file: bool)
    ensures
        spec_plan(ComposeAction::Destroy { dir, yes: false }, deploy, has_git, has_compose_file) is Err,
{
}

/// Only `destroy` drops the data volumes: every other plan leaves `--volumes` out.
pub proof fn lemma_only_destroy_drops_volumes(action: ComposeAction, deploy: Seq<char>, has_git: bool, has_compose_file: bool)
    requires
        !(action is Destroy),
    ensures
        spec_plan(action, deploy, has_git, has_compose_file) matches Ok(steps) ==> forall|i: int|
            0 <= i < steps.len() ==> !(#[trigger] steps[i] matches StepView::Compose(args)
                && args.contains("--volumes"@)),
{
    reveal_strlit("--volumes");
    reveal_strlit("pull");
    reveal_strlit("up");
    reveal_strlit("-d");
    reveal_strlit("down");
    match spec_plan(action, deploy, has_git, has_compose_file) {
        Ok(steps) => {
            assert forall|i: int| 0 <= i < steps.len() implies !(#[trigger] steps[i] matches StepView::Compose(args)
                && args.contains("--volumes"@)) by {
                match steps[i] {
                    StepView::Compose(args) => {
                        assert forall|k: int| 0 <= k < args.len() implies args[k] != "--volumes"@ by {
                            assert(args[k].len() != "--volumes"@.len() || args[k][2] != "--volumes"@[2]);
                        }
                    },
                    _ => {},
                }
            }
        },
        Err(_) => {},
    }
}

/// `up` always succeeds: it fast-forwards an existing checkout and clones otherwise, pulls the
/// image unless told not to, and ends by bringing the stack up detached.
pub proof fn lemma_up_plan(
    dir: Option<String>,
    repo: String,
    branch: String,
    no_pull: bool,
    deploy: Seq<char>,
    has_git: bool,
    has_compose_file: bool,
)
    ensures
        spec_plan(ComposeAction::Up { dir, repo, branch, no_pull }, deploy, has_git, has_compose_file)
            matches Ok(steps) && {
            &&& steps.len() == (if no_pull { 2int } else { 3int })
            &&& has_git ==> steps[0] == StepView::GitPull(deploy, branch@)
            &&& !has_git ==> steps[0] == StepView::GitClone(repo@, branch@, deploy)
            &&& !no_pull ==> steps[1] == StepView::Compose(seq!["pull"@])
            &&& steps.last() == StepView::Compose(seq!["up"@, "-d"@])
        },
{
}

/// `down` and `destroy` need the compose file: without it they are refused, whatever else.
pub proof fn lemma_teardown_needs_compose_file(action: ComposeAction, deploy: Seq<char>, has_git: bool)
    requires
        !(action is Up),
    ensures
        spec_plan(action, deploy, has_git, false) == Err::<Seq<StepView>, ComposeError>(
            ComposeError::NoComposeFile,
        ),
{
}

} // verus!
