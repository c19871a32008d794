use juju::channel::Channel;
use juju::controller::{Controller as StoreController, Controllers, Substrate as StoreSubstrate};
use juju::error::JujuError;
use juju::kv::KVList;
use juju::local::controller::{Controller, ControllerYaml, Substrate};
use juju::local::model::{parse_model_name, Model, ModelYaml, Models};
use juju::paths::{charm_build_dir, charm_cache_dir, charm_source_dir, juju_data_dir};

fn local_controller(region: Option<&str>) -> Controller {
    Controller {
        active_controller_machine_count: 0,
        agent_version: "2.9".to_string(),
        api_endpoints: vec!["localhost:1234".to_string()],
        ca_cert: "CERTIFICATE".to_string(),
        cloud: "microk8s".to_string(),
        controller_machine_count: 1,
        dns_cache: KVList::new(),
        machine_count: 1,
        region: region.map(|r| r.to_string()),
        kind: None,
        uuid: "u-1".to_string(),
        proxy_config: None,
    }
}

fn controller_yaml(current: Option<&str>, entries: Vec<(&str, Controller)>) -> ControllerYaml {
    ControllerYaml {
        current_controller: current.map(|c| c.to_string()),
        controllers: KVList {
            entries: entries
                .into_iter()
                .map(|(k, v)| (k.to_string(), v))
                .collect(),
        },
    }
}

#[test]
fn controller_yaml_get() {
    let y = controller_yaml(Some("uk8s"), vec![("uk8s", local_controller(None))]);

    assert_eq!(y.get(None).unwrap().uuid, "u-1");
    assert_eq!(y.get(Some("uk8s")).unwrap().uuid, "u-1");
    assert!(matches!(
        y.get(Some("missing")),
        Err(JujuError::ControllerNotFound(n)) if n == "missing"
    ));

    let empty = controller_yaml(None, vec![]);
    assert!(matches!(empty.get(None), Err(JujuError::NoActiveController)));
}

#[test]
fn controller_yaml_validate_name() {
    let y = controller_yaml(Some("uk8s"), vec![("uk8s", local_controller(None))]);
    assert_eq!(y.validate_name(Some("other")).unwrap(), "other");
    assert_eq!(y.validate_name(None).unwrap(), "uk8s");

    let empty = controller_yaml(None, vec![]);
    assert!(matches!(
        empty.validate_name(None),
        Err(JujuError::NoActiveController)
    ));
}

#[test]
fn controller_yaml_substrate() {
    let y = controller_yaml(
        Some("a"),
        vec![
            ("a", local_controller(Some("localhost"))),
            ("b", local_controller(Some("eu-west"))),
            ("c", local_controller(None)),
        ],
    );

    // A status report naming a Kubernetes control-plane unit wins.
    let cdk_status = "units:\n  kubernetes-master/0:\n    workload-status: active";
    assert!(matches!(
        y.substrate("b", cdk_status).unwrap(),
        Substrate::CharmedK8s
    ));
    // A local region means MicroK8s.
    assert!(matches!(y.substrate("a", "units: {}").unwrap(), Substrate::MicroK8s));
    // Anything else is unknown.
    assert!(matches!(y.substrate("b", "units: {}").unwrap(), Substrate::Unknown));
    assert!(matches!(y.substrate("c", "units: {}").unwrap(), Substrate::Unknown));
    // An unknown controller is an error.
    assert!(y.substrate("missing", "units: {}").is_err());
}

#[test]
fn controllers_get_and_substrate() {
    let c = StoreController {
        active_controller_machine_count: 0,
        agent_version: "2.8".to_string(),
        api_endpoints: vec![],
        ca_cert: "CERTIFICATE".to_string(),
        cloud: "lxd".to_string(),
        controller_machine_count: 1,
        machine_count: 1,
        region: "localhost".to_string(),
        uuid: "u-2".to_string(),
        name: "main".to_string(),
    };
    let cs = Controllers {
        current_controller: "main".to_string(),
        controllers: KVList {
            entries: vec![("main".to_string(), c)],
        },
    };

    assert_eq!(cs.get(None).unwrap().uuid, "u-2");
    assert_eq!(
        cs.get(Some("nope")).unwrap_err(),
        "Unknown controller nope"
    );
    assert!(matches!(
        cs.substrate("main", "nothing special").unwrap(),
        StoreSubstrate::MicroK8s
    ));
    assert!(matches!(
        cs.substrate("main", "kubernetes-master/0 is here").unwrap(),
        StoreSubstrate::CDK
    ));
}

fn model_yaml() -> ModelYaml {
    let mut models = KVList::new();
    models.push(
        "admin/dev".to_string(),
        Model::Caas {
            uuid: "m-1".to_string(),
            branch: None,
        },
    );
    ModelYaml {
        controllers: KVList {
            entries: vec![(
                "uk8s".to_string(),
                Models {
                    models,
                    current_model: Some("admin/dev".to_string()),
                },
            )],
        },
    }
}

#[test]
fn model_validate_name() {
    let y = model_yaml();

    // A named model must be filed under the administrator account.
    assert_eq!(y.validate_name("uk8s", Some("dev")).unwrap(), "dev");
    assert!(matches!(
        y.validate_name("uk8s", Some("prod")),
        Err(JujuError::ModelNotFound(c, m)) if c == "uk8s" && m == "prod"
    ));

    // No name: the current model's own name, after its account.
    assert_eq!(y.validate_name("uk8s", None).unwrap(), "dev");

    // An unknown controller is its own error.
    assert!(matches!(
        y.validate_name("other", None),
        Err(JujuError::ControllerNotFound(c)) if c == "other"
    ));
}

#[test]
fn model_validate_name_without_account() {
    // A current model without an account part cannot be used.
    let y = ModelYaml {
        controllers: KVList {
            entries: vec![(
                "uk8s".to_string(),
                Models {
                    models: KVList::new(),
                    current_model: Some("dev".to_string()),
                },
            )],
        },
    };
    assert!(matches!(
        y.validate_name("uk8s", None),
        Err(JujuError::UnknownModel(c)) if c == "uk8s"
    ));
}

#[test]
fn model_name_parsing() {
    assert_eq!(parse_model_name(""), (None, None));
    assert_eq!(parse_model_name("dev"), (None, Some("dev".to_string())));
    assert_eq!(
        parse_model_name("uk8s:dev"),
        (Some("uk8s".to_string()), Some("dev".to_string()))
    );
    assert_eq!(
        parse_model_name("uk8s:"),
        (Some("uk8s".to_string()), Some("".to_string()))
    );
}

#[test]
fn channel_names() {
    assert_eq!(Channel::Edge.to_string(), "edge");
    assert_eq!(Channel::Unpublished.to_string(), "unpublished");
    assert_eq!(Channel::parse("stable").unwrap(), Channel::Stable);
    assert_eq!(Channel::parse("candidate").unwrap(), Channel::Candidate);
    assert_eq!(Channel::parse("beta").unwrap(), Channel::Beta);
    assert!(Channel::parse("nightly").is_err());
}

#[test]
fn platform_directories() {
    // An environment override wins outright.
    assert_eq!(
        juju_data_dir(Some("/custom".to_string()), Some("/home/u".to_string())),
        "/custom"
    );
    // Without one, the suffix goes under the home directory, or under /root.
    assert_eq!(
        juju_data_dir(None, Some("/home/u".to_string())),
        "/home/u/.local/share/juju"
    );
    assert_eq!(juju_data_dir(None, None), "/root/.local/share/juju");

    assert_eq!(
        charm_source_dir(None, Some("/home/u".to_string())),
        "/home/u/charms/source"
    );
    assert_eq!(
        charm_cache_dir(None, Some("/home/u".to_string()), "web"),
        "/home/u/.cache/charm/web"
    );

    // The build directory has its own fallback chain.
    assert_eq!(
        charm_build_dir(Some("/builds".to_string()), Some("/repo".to_string())),
        "/builds"
    );
    assert_eq!(charm_build_dir(None, Some("/repo".to_string())), "/repo/builds");
    assert_eq!(charm_build_dir(None, None), "/tmp/charm-builds");
}
