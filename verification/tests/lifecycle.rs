use edd::config::{Config, Deployment as DesiredDeployment};
use edd::engine::{stop_call_needed, stop_outcome, InspectContainer, InspectContainerState};
use edd::lifecycle::{launch_plan, remove, stop, verify_started, FailurePolicy};
use edd::manager::{Deployment, Manager, State};
use edd::Error;

fn entry(name: &str, id: &str, state: State, image: &str, health: &str) -> Deployment {
    Deployment {
        id: id.to_string(),
        name: name.to_string(),
        state,
        image: image.to_string(),
        health: health.to_string(),
    }
}

fn manager_with(entries: Vec<Deployment>) -> Manager {
    Manager { deployments: entries }
}

fn config_with(deployments: Vec<DesiredDeployment>) -> Config {
    Config {
        config_file: "/etc/edd/config.json".to_string(),
        docker_socket: "/var/run/docker.socket".to_string(),
        container_prefix: "/ed_".to_string(),
        deployments,
        tls_certs: "/etc/edd/server.crt".to_string(),
        tls_key: "/etc/edd/server.key".to_string(),
        mutual_tls_ca_certs: "/etc/edd/ca.crt".to_string(),
    }
}

#[test]
fn stop_marks_entry_stopped() {
    let mut m = manager_with(vec![entry("web", "c1", State::Running, "img:1", "healthy")]);
    let r = stop(&mut m, 0, &Ok(()), FailurePolicy::Strict);
    assert!(r.is_ok());
    assert_eq!(m.deployments[0].state, State::Stopped);
    assert_eq!(m.deployments[0].id, "c1");
    assert_eq!(m.deployments[0].image, "img:1");
    assert_eq!(m.deployments[0].health, "healthy");
    assert_eq!(m.deployments[0].name, "web");
}

#[test]
fn stop_twice_lenient_is_idempotent() {
    // an already-stopped deployment with no backing container: the engine
    // call fails both times, lenient mode tolerates it both times
    let mut m = manager_with(vec![entry("web", "", State::Stopped, "", "unknown")]);
    let first = stop(&mut m, 0, &Err(Error::NotFound), FailurePolicy::BestEffort);
    assert!(first.is_ok());
    let after_first = (
        m.deployments[0].id.clone(),
        m.deployments[0].state,
        m.deployments[0].image.clone(),
        m.deployments[0].health.clone(),
    );
    let second = stop(&mut m, 0, &Err(Error::NotFound), FailurePolicy::BestEffort);
    assert!(second.is_ok());
    let after_second = (
        m.deployments[0].id.clone(),
        m.deployments[0].state,
        m.deployments[0].image.clone(),
        m.deployments[0].health.clone(),
    );
    assert_eq!(after_first, after_second);
    assert_eq!(after_second, ("".to_string(), State::Stopped, "".to_string(),
        "unknown".to_string()));
}

#[test]
fn strict_stop_failure_propagates_but_marks_stopped() {
    // the stop attempt was made, so the entry is marked stopped even though
    // the strict policy propagates the failure
    let mut m = manager_with(vec![entry("web", "c1", State::Running, "img:1", "healthy")]);
    let r = stop(&mut m, 0, &Err(Error::Transport), FailurePolicy::Strict);
    assert_eq!(r, Err(Error::Transport));
    assert_eq!(m.deployments[0].state, State::Stopped);
    assert_eq!(m.deployments[0].id, "c1");
}

#[test]
fn lenient_stop_failure_still_marks_stopped() {
    let mut m = manager_with(vec![entry("web", "c1", State::Running, "img:1", "healthy")]);
    let r = stop(&mut m, 0, &Err(Error::Transport), FailurePolicy::BestEffort);
    assert!(r.is_ok());
    assert_eq!(m.deployments[0].state, State::Stopped);
}

#[test]
fn scenario_stop_of_running_container() {
    // a running container answers its inspect, so the engine stop request
    // is issued; either "no content" or "not modified" counts as success
    // and the table entry ends up stopped
    let running = InspectContainer {
        state: InspectContainerState { health: None, running: true },
    };
    assert!(stop_call_needed(&running));

    for status in [204u16, 304u16] {
        let mut m = manager_with(vec![entry("web", "c1", State::Running, "img:1", "healthy")]);
        let engine_result = stop_outcome(status);
        assert!(engine_result.is_ok());
        let r = stop(&mut m, 0, &engine_result, FailurePolicy::Strict);
        assert!(r.is_ok());
        assert_eq!(m.deployments[0].state, State::Stopped);
    }
}

#[test]
fn remove_resets_entry_to_empty_shape() {
    let mut m = manager_with(vec![
        entry("web", "c1", State::Stopped, "img:1", "healthy"),
        entry("api", "c2", State::Running, "img:2", "healthy"),
    ]);
    let r = remove(&mut m, 0, &Ok(()), FailurePolicy::Strict);
    assert!(r.is_ok());
    assert_eq!(m.deployments[0].name, "web");
    assert_eq!(m.deployments[0].id, "");
    assert_eq!(m.deployments[0].image, "");
    assert_eq!(m.deployments[0].health, "unknown");
    assert_eq!(m.deployments[0].state, State::Stopped);
    // the other entry is untouched
    assert_eq!(m.deployments[1].id, "c2");
    assert_eq!(m.deployments[1].state, State::Running);
}

#[test]
fn strict_remove_failure_propagates() {
    let mut m = manager_with(vec![entry("web", "c1", State::Stopped, "img:1", "x")]);
    let r = remove(&mut m, 0, &Err(Error::Protocol), FailurePolicy::Strict);
    assert_eq!(r, Err(Error::Protocol));
    assert_eq!(m.deployments[0].id, "c1");
}

#[test]
fn launch_plan_builds_qualified_names_and_args() {
    let config = config_with(vec![DesiredDeployment {
        name: "web".to_string(),
        args: Some(vec!["-p".to_string(), "80:80".to_string()]),
    }]);
    let p = launch_plan(&config, "web").expect("configured deployment");
    assert_eq!(p.container_name, "ed_web");
    assert_eq!(p.image, "ed_web:latest");
    assert_eq!(p.args, vec!["-p".to_string(), "80:80".to_string()]);
}

#[test]
fn launch_plan_without_args_is_empty() {
    let config = config_with(vec![DesiredDeployment { name: "web".to_string(), args: None }]);
    let p = launch_plan(&config, "web").expect("configured deployment");
    assert!(p.args.is_empty());
}

#[test]
fn scenario_start_of_unconfigured_deployment_is_not_found() {
    let config = config_with(vec![DesiredDeployment { name: "web".to_string(), args: None }]);
    let r = launch_plan(&config, "api");
    assert_eq!(r.err(), Some(Error::Config));
    assert_eq!(Error::Config.status_code(), 404);

    // the table lookup that precedes any engine call fails the same way
    let m = manager_with(vec![entry("web", "", State::Stopped, "", "unknown")]);
    assert_eq!(m.find_deployment("api"), None);
    assert_eq!(Error::NotFound.status_code(), 404);
}

#[test]
fn verify_started_reports_running_deployment() {
    let m = manager_with(vec![entry("web", "c1", State::Running, "img:1", "healthy")]);
    let r = verify_started(&m, "web").expect("running");
    assert_eq!(r.outcome, "success");
    assert_eq!(r.state, "running");
    assert_eq!(r.health, "healthy");
}

#[test]
fn verify_started_rejects_stopped_deployment() {
    let m = manager_with(vec![entry("web", "", State::Stopped, "", "unknown")]);
    let r = verify_started(&m, "web");
    assert_eq!(r.err(), Some(Error::Verification));
    assert_eq!(Error::Verification.status_code(), 500);
}

#[test]
fn verify_started_unknown_name_is_not_found() {
    let m = manager_with(vec![entry("web", "", State::Stopped, "", "unknown")]);
    let r = verify_started(&m, "api");
    assert_eq!(r.err(), Some(Error::NotFound));
}
