use lazymc_docker_proxy::backend::{parse_backend_type, BackendAction, BackendOutcome, BackendType};
use lazymc_docker_proxy::config::{resolve_configs, GroupConfig};
use lazymc_docker_proxy::kubernetes;
use lazymc_docker_proxy::lifecycle::{Controller, RunMode, ShutdownStep};
use lazymc_docker_proxy::supervisor::{LaunchStep, Launcher};

fn config(group: &str) -> GroupConfig {
    GroupConfig {
        group: group.to_string(),
        program: "lazymc".to_string(),
        args: vec!["start".to_string()],
    }
}

#[test]
fn fallback_when_nothing_discovered() {
    let r = resolve_configs(Vec::new(), config("default"));
    assert_eq!(r, vec![config("default")]);
}

#[test]
fn discovered_configs_kept() {
    let found = vec![config("a"), config("b")];
    let r = resolve_configs(found.clone(), config("default"));
    assert_eq!(r, found);
}

#[test]
fn kubernetes_discovery_falls_back() {
    let labels = kubernetes::get_container_labels();
    assert!(labels.is_empty());
    let found: Vec<GroupConfig> = Vec::new();
    assert_eq!(resolve_configs(found, config("default")).len(), 1);
}

#[test]
fn kubernetes_stop_is_unsupported() {
    assert_eq!(kubernetes::stop("survival".to_string()), BackendOutcome::Unsupported);
    assert_eq!(kubernetes::stop_all_containers(), BackendOutcome::Unsupported);
}

#[test]
fn backend_type_names() {
    assert_eq!(parse_backend_type("docker"), Some(BackendType::Docker));
    assert_eq!(parse_backend_type("kubernetes"), Some(BackendType::Kubernetes));
    assert_eq!(parse_backend_type("Docker"), None);
    assert_eq!(parse_backend_type(""), None);
}

#[test]
fn daemon_signal_stops_all_then_exits() {
    let mut c = Controller::new(RunMode::Daemon);
    assert_eq!(
        c.on_signal(),
        vec![ShutdownStep::Backend(BackendAction::StopAll), ShutdownStep::Exit(0)]
    );
    assert!(c.shutting_down);
    assert!(c.on_signal().is_empty());
}

#[test]
fn command_signal_stops_own_group() {
    let mut c = Controller::new(RunMode::Command("survival".to_string()));
    assert_eq!(
        c.on_signal(),
        vec![
            ShutdownStep::Backend(BackendAction::Stop("survival".to_string())),
            ShutdownStep::Exit(0)
        ]
    );
    assert!(c.on_signal().is_empty());
}

#[test]
fn launch_in_order_then_ready() {
    let mut l = Launcher::new(2);
    assert_eq!(l.next_step(), LaunchStep::StopAll);
    l.record_stop_all();
    assert_eq!(l.next_step(), LaunchStep::Spawn(0));
    l.record_spawn(true);
    assert_eq!(l.next_step(), LaunchStep::Spawn(1));
    l.record_spawn(true);
    assert_eq!(l.next_step(), LaunchStep::Ready);
}

#[test]
fn spawn_failure_aborts_before_next_group() {
    let mut l = Launcher::new(3);
    l.record_stop_all();
    assert_eq!(l.next_step(), LaunchStep::Spawn(0));
    l.record_spawn(true);
    assert_eq!(l.next_step(), LaunchStep::Spawn(1));
    l.record_spawn(false);
    assert_eq!(l.next_step(), LaunchStep::Abort);
    assert_eq!(l.next_step(), LaunchStep::Abort);
}

#[test]
fn no_groups_is_ready_at_once() {
    let mut l = Launcher::new(0);
    assert_eq!(l.next_step(), LaunchStep::StopAll);
    l.record_stop_all();
    assert_eq!(l.next_step(), LaunchStep::Ready);
}
