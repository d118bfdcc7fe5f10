use edd::api::{deployment_summaries, deployment_summary, Deployments, PullData};
use edd::config::{check_config, resolve_config, Config, ConfigFileError, Deployment as
    DesiredDeployment, EDConfig};
use edd::manager::{Deployment, Manager, State};
use edd::Error;

fn raw_config() -> EDConfig {
    EDConfig {
        docker_socket: None,
        container_prefix: None,
        deployments: vec![DesiredDeployment { name: "web".to_string(), args: None }],
        tls_certs: None,
        tls_key: None,
        mututal_tls_ca_certs: None,
    }
}

#[test]
fn resolve_config_applies_defaults() {
    let c = resolve_config(raw_config(), "/etc/edd/config.json".to_string());
    assert_eq!(c.config_file, "/etc/edd/config.json");
    assert_eq!(c.docker_socket, "/var/run/docker.socket");
    assert_eq!(c.container_prefix, "/ed_");
    assert_eq!(c.deployments.len(), 1);
    assert_eq!(c.deployments[0].name, "web");
    assert_eq!(c.tls_certs, "/etc/edd/server.crt");
    assert_eq!(c.tls_key, "/etc/edd/server.key");
    assert_eq!(c.mutual_tls_ca_certs, "/etc/edd/ca.crt");
}

#[test]
fn resolve_config_keeps_given_values_and_prefixes_slash() {
    let mut raw = raw_config();
    raw.docker_socket = Some("/run/docker.sock".to_string());
    raw.container_prefix = Some("team_".to_string());
    raw.tls_certs = Some("/certs/a.crt".to_string());
    raw.tls_key = Some("/certs/a.key".to_string());
    raw.mututal_tls_ca_certs = Some("/certs/ca.crt".to_string());
    let c = resolve_config(raw, "cfg.json".to_string());
    assert_eq!(c.docker_socket, "/run/docker.sock");
    assert_eq!(c.container_prefix, "/team_");
    assert_eq!(c.tls_certs, "/certs/a.crt");
    assert_eq!(c.tls_key, "/certs/a.key");
    assert_eq!(c.mutual_tls_ca_certs, "/certs/ca.crt");
}

#[test]
fn check_config_reports_first_missing_file() {
    assert!(check_config(true, true, true).is_ok());
    assert_eq!(check_config(false, true, true).err(), Some(ConfigFileError::MissingTlsCerts));
    assert_eq!(check_config(false, false, false).err(), Some(ConfigFileError::MissingTlsCerts));
    assert_eq!(check_config(true, false, true).err(), Some(ConfigFileError::MissingTlsKey));
    assert_eq!(check_config(true, true, false).err(), Some(ConfigFileError::MissingCaCerts));
}

#[test]
fn state_wire_names() {
    assert_eq!(State::Running.to_string(), "running");
    assert_eq!(State::Stopped.to_string(), "stopped");
    assert_eq!(State::default(), State::Stopped);
}

#[test]
fn error_status_codes() {
    assert_eq!(Error::NotFound.status_code(), 404);
    assert_eq!(Error::Config.status_code(), 404);
    assert_eq!(Error::Transport.status_code(), 500);
    assert_eq!(Error::Protocol.status_code(), 500);
    assert_eq!(Error::Launch.status_code(), 500);
    assert_eq!(Error::Verification.status_code(), 500);
}

fn sample_manager() -> Manager {
    Manager {
        deployments: vec![
            Deployment {
                id: "c1".to_string(),
                name: "web".to_string(),
                state: State::Running,
                image: "img:1".to_string(),
                health: "healthy".to_string(),
            },
            Deployment {
                id: "".to_string(),
                name: "api".to_string(),
                state: State::Stopped,
                image: "".to_string(),
                health: "unknown".to_string(),
            },
        ],
    }
}

#[test]
fn summaries_report_every_entry_in_order() {
    let m = sample_manager();
    let s = deployment_summaries(&m);
    assert_eq!(s.len(), 2);
    assert_eq!(s[0].name, "web");
    assert_eq!(s[0].state, "running");
    assert_eq!(s[0].image, "img:1");
    assert_eq!(s[0].health, "healthy");
    assert_eq!(s[1].name, "api");
    assert_eq!(s[1].state, "stopped");
    assert_eq!(s[1].image, "");
    assert_eq!(s[1].health, "unknown");
}

#[test]
fn scenario_get_of_deployment_without_container() {
    // configured deployment with no running container: stopped, unknown
    // health, empty image
    let m = sample_manager();
    let d = deployment_summary(&m, "api").expect("known deployment");
    assert_eq!(d.name, "api");
    assert_eq!(d.state, "stopped");
    assert_eq!(d.health, "unknown");
    assert_eq!(d.image, "");
}

#[test]
fn summary_of_unknown_name_is_not_found() {
    let m = sample_manager();
    let r = deployment_summary(&m, "nope");
    assert_eq!(r.err(), Some(Error::NotFound));
}

#[test]
fn api_records_hold_plain_fields() {
    let d = Deployments {
        name: "web".to_string(),
        state: "running".to_string(),
        image: "img:1".to_string(),
        health: "healthy".to_string(),
    };
    assert_eq!(d.name, "web");
    let p = PullData { path: "registry.example/img:1".to_string() };
    assert_eq!(p.path, "registry.example/img:1");
}
