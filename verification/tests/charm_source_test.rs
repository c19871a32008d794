use juju::charm_source::config::Config;
use juju::charm_source::operator::{parse_range, Range};
use juju::charm_source::metadata::Metadata;
use juju::charm_source::resource::Resource;
use juju::charm_source::{
    parse_upload_revision, promote_args, push_args, upload_args, CharmSource, Framework,
    SourceProbe,
};
use juju::channel::Channel;
use juju::error::JujuError;
use juju::kv::KVList;

fn metadata(name: &str, resources: Vec<(&str, Resource)>) -> Metadata {
    Metadata {
        name: name.to_string(),
        summary: "a charm".to_string(),
        description: "a charm for tests".to_string(),
        maintainers: vec![],
        terms: vec![],
        subordinate: false,
        containers: KVList::new(),
        resources: KVList {
            entries: resources
                .into_iter()
                .map(|(k, v)| (k.to_string(), v))
                .collect(),
        },
        provides: KVList::new(),
        requires: KVList::new(),
        peer: KVList::new(),
        storage: KVList::new(),
        devices: KVList::new(),
        extra_bindings: vec![],
        series: None,
    }
}

fn oci(upstream: Option<&str>) -> Resource {
    Resource::OciImage {
        description: None,
        upstream_source: upstream.map(|u| u.to_string()),
    }
}

fn source(name: &str, resources: Vec<(&str, Resource)>, reactive: bool) -> CharmSource {
    CharmSource {
        source: format!("/src/{}", name),
        config: None,
        metadata: metadata(name, resources),
        framework: if reactive {
            Framework::Reactive
        } else {
            Framework::Operator
        },
    }
}

fn overrides(pairs: Vec<(&str, &str)>) -> KVList<String> {
    KVList {
        entries: pairs
            .into_iter()
            .map(|(k, v)| (k.to_string(), v.to_string()))
            .collect(),
    }
}

#[test]
fn resolve_picks_reactive_before_operator() {
    let probe = SourceProbe {
        source: "/src/x".to_string(),
        is_file: false,
        reactive_marker: true,
        metadata: Some(metadata("x", vec![])),
        config: None,
    };
    let cs = CharmSource::resolve(probe).unwrap();
    assert!(matches!(cs.framework, Framework::Reactive));

    let probe = SourceProbe {
        source: "/src/x".to_string(),
        is_file: true,
        reactive_marker: false,
        metadata: Some(metadata("x", vec![])),
        config: None,
    };
    let cs = CharmSource::resolve(probe).unwrap();
    assert!(matches!(cs.framework, Framework::Operator));
}

#[test]
fn resolve_rejects_unrecognized_source() {
    let probe = SourceProbe {
        source: "/src/none".to_string(),
        is_file: false,
        reactive_marker: false,
        metadata: None,
        config: None,
    };
    assert!(matches!(
        CharmSource::resolve(probe),
        Err(JujuError::WrongCharmTypeError)
    ));
}

#[test]
fn resources_with_defaults_merges() {
    // One override, one declared default: both resolve.
    let cs = source(
        "web",
        vec![("x", oci(None)), ("y", oci(Some("v2")))],
        false,
    );
    let merged = cs
        .resources_with_defaults(&overrides(vec![("x", "v1")]))
        .unwrap();
    assert_eq!(merged.get("x"), Some(&"v1".to_string()));
    assert_eq!(merged.get("y"), Some(&"v2".to_string()));
    assert_eq!(merged.len(), 2);

    // An override beats a declared default.
    let cs = source("web", vec![("x", oci(Some("default")))], false);
    let merged = cs
        .resources_with_defaults(&overrides(vec![("x", "chosen")]))
        .unwrap();
    assert_eq!(merged.get("x"), Some(&"chosen".to_string()));
}

#[test]
fn resources_with_defaults_is_total() {
    // A resource with neither override nor default fails, naming it and
    // the charm: no partial mapping comes back.
    let cs = source(
        "web",
        vec![("x", oci(Some("v1"))), ("y", oci(None))],
        false,
    );
    match cs.resources_with_defaults(&overrides(vec![])) {
        Err(JujuError::ResourceNotFound(res, charm)) => {
            assert_eq!(res, "y");
            assert_eq!(charm, "web");
        }
        other => panic!("expected a resource error, got {:?}", other),
    }

    // A file resource has no default either.
    let cs = source(
        "web",
        vec![(
            "db",
            Resource::File {
                description: None,
                filename: "db.sqlite".to_string(),
            },
        )],
        false,
    );
    assert!(cs.resources_with_defaults(&overrides(vec![])).is_err());
    // With an override it resolves.
    let merged = cs
        .resources_with_defaults(&overrides(vec![("db", "./db.sqlite")]))
        .unwrap();
    assert_eq!(merged.get("db"), Some(&"./db.sqlite".to_string()));
}

#[test]
fn build_command_per_framework() {
    let reactive = source("web", vec![], true);
    let (tool, args) = reactive.build_command("/cache/web", false);
    assert_eq!(tool, "charm");
    assert_eq!(
        args,
        vec![
            "build".to_string(),
            "--cache-dir".to_string(),
            "/cache/web".to_string(),
            "/src/web".to_string(),
        ]
    );

    let operator = source("web", vec![], false);
    let (tool, args) = operator.build_command("/cache/web", false);
    assert_eq!(tool, "charmcraft");
    assert_eq!(
        args,
        vec!["pack".to_string(), "-p".to_string(), "/src/web".to_string()]
    );

    let (tool, args) = operator.build_command("/cache/web", true);
    assert_eq!(tool, "charmcraft");
    assert_eq!(
        args,
        vec![
            "pack".to_string(),
            "-p".to_string(),
            "/src/web".to_string(),
            "--destructive-mode".to_string(),
        ]
    );
}

#[test]
fn artifact_path_per_framework() {
    let reactive = source("web", vec![], true);
    assert_eq!(
        reactive.artifact_path("/tmp/charm-builds").to_string(),
        "/tmp/charm-builds/web"
    );

    let operator = source("web", vec![], false);
    assert_eq!(
        operator.artifact_path("/cwd").to_string(),
        "/cwd/web_ubuntu-20.04-amd64.charm"
    );
}

#[test]
fn push_and_promote_args_shape() {
    let resources = overrides(vec![("img", "docker.io/img")]);
    assert_eq!(
        push_args("/builds/web", "cs:~team/web", &resources),
        vec![
            "push".to_string(),
            "/builds/web".to_string(),
            "cs:~team/web".to_string(),
            "--resource".to_string(),
            "img=docker.io/img".to_string(),
        ]
    );

    let revisions = vec![("img".to_string(), "7".to_string())];
    assert_eq!(
        promote_args("cs:~team/web-3", Channel::Edge, &revisions),
        vec![
            "release".to_string(),
            "cs:~team/web-3".to_string(),
            "--channel".to_string(),
            "edge".to_string(),
            "--resource".to_string(),
            "img-7".to_string(),
        ]
    );
}

#[test]
fn upload_args_shape() {
    let channels = vec!["edge".to_string(), "beta".to_string()];
    let revisions = vec![("img".to_string(), "4".to_string())];
    assert_eq!(
        upload_args("./web.charm", &channels, &revisions),
        vec![
            "upload".to_string(),
            "--quiet".to_string(),
            "./web.charm".to_string(),
            "--release=edge".to_string(),
            "--release=beta".to_string(),
            "--resource=img:4".to_string(),
        ]
    );
}

#[test]
fn upload_revision_report() {
    // Nine characters of prefix, then the revision, then the rest.
    assert_eq!(parse_upload_revision("Revision 42 of 'web' created"), Some(42));
    assert_eq!(parse_upload_revision("Revision 0 of 'web'"), Some(0));
    // Too short, no digits, or out of range: nothing.
    assert_eq!(parse_upload_revision("short"), None);
    assert_eq!(parse_upload_revision("Revision x of 'web'"), None);
    assert_eq!(parse_upload_revision("Revision 4294967296 of"), None);
}

#[test]
fn config_holds_options() {
    let config = Config {
        options: KVList::new(),
    };
    let probe = SourceProbe {
        source: "/src/x".to_string(),
        is_file: false,
        reactive_marker: false,
        metadata: Some(metadata("x", vec![])),
        config: Some(config),
    };
    let cs = CharmSource::resolve(probe).unwrap();
    assert!(cs.config.is_some());
}

#[test]
fn storage_range_text() {
    match parse_range("3").unwrap() {
        Range::Count(v) => assert_eq!(v, 3),
        other => panic!("expected a bare count, got {:?}", other),
    }
    match parse_range("0-10").unwrap() {
        Range::Range { min, max } => {
            assert_eq!(min, 0);
            assert_eq!(max, Some(10));
        }
        other => panic!("expected a bounded range, got {:?}", other),
    }
    assert!(parse_range("").is_err());
    assert!(parse_range("x").is_err());
    assert!(parse_range("1-x").is_err());
    assert!(parse_range("4294967296").is_err());
}
