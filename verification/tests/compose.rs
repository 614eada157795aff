use gt::compose::{
    after_docker_compose, compose_file_path, plan, require_compose_file, resolve_dir,
    ComposeAction, ComposeError, ComposeNext, ComposeStep, DEFAULT_BRANCH, DEFAULT_REPO,
};

fn compose(args: &[&str]) -> ComposeStep {
    ComposeStep::Compose { args: args.iter().map(|s| s.to_string()).collect() }
}

fn up(no_pull: bool) -> ComposeAction {
    ComposeAction::Up {
        dir: None,
        repo: DEFAULT_REPO.into(),
        branch: DEFAULT_BRANCH.into(),
        no_pull,
    }
}

#[test]
fn deploy_dir_defaults_under_home() {
    assert_eq!(resolve_dir(Some("/srv/app"), Some("/home/u")), Ok("/srv/app".into()));
    assert_eq!(resolve_dir(None, Some("/home/u")), Ok("/home/u/gt-app".into()));
    assert_eq!(resolve_dir(None, None), Err(ComposeError::HomeNotSet));
    assert_eq!(compose_file_path("/home/u/gt-app"), "/home/u/gt-app/docker-compose.yml");
}

#[test]
fn down_needs_a_checkout() {
    assert_eq!(require_compose_file(true), Ok(()));
    assert_eq!(require_compose_file(false), Err(ComposeError::NoComposeFile));
    assert_eq!(
        plan(&ComposeAction::Down { dir: None }, "/d", true, false),
        Err(ComposeError::NoComposeFile)
    );
    assert_eq!(plan(&ComposeAction::Down { dir: None }, "/d", true, true), Ok(vec![compose(&["down"])]));
}

#[test]
fn up_clones_or_pulls_then_starts() {
    assert_eq!(
        plan(&up(false), "/d", false, false),
        Ok(vec![
            ComposeStep::GitClone { repo: DEFAULT_REPO.into(), branch: "main".into(), dir: "/d".into() },
            compose(&["pull"]),
            compose(&["up", "-d"]),
        ])
    );
    assert_eq!(
        plan(&up(true), "/d", true, true),
        Ok(vec![
            ComposeStep::GitPull { dir: "/d".into(), branch: "main".into() },
            compose(&["up", "-d"]),
        ])
    );
}

#[test]
fn destroy_needs_yes_and_drops_volumes() {
    let no = ComposeAction::Destroy { dir: None, yes: false };
    let yes = ComposeAction::Destroy { dir: None, yes: true };
    assert_eq!(plan(&no, "/d", true, true), Err(ComposeError::DestroyNeedsYes));
    assert_eq!(plan(&no, "/d", true, false), Err(ComposeError::NoComposeFile));
    assert_eq!(plan(&yes, "/d", true, true), Ok(vec![compose(&["down", "--volumes"])]));
}

#[test]
fn legacy_binary_only_when_docker_is_missing() {
    assert_eq!(after_docker_compose(false, false), ComposeNext::TryLegacy);
    assert_eq!(after_docker_compose(true, true), ComposeNext::Done);
    assert_eq!(after_docker_compose(true, false), ComposeNext::Failed);
}
