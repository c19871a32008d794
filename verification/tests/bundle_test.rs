use juju::bundle::{
    effective_source, plan_app, quoted_token, rebuilt, strip_endpoint, upgrade_args, AppAction,
    Application, Bundle, SourceLookup,
};
use juju::charm_url::CharmURL;
use juju::bundle::release_args;
use juju::channel::Channel;
use juju::error::JujuError;
use juju::kv::KVList;
use rayon::iter::{IntoParallelRefIterator, ParallelIterator};

fn app(charm: Option<&str>, source: Option<&str>) -> Application {
    let mut a = Application::default();
    a.charm = charm.map(|c| CharmURL::parse(c).unwrap());
    a.source = source.map(|s| s.to_string());
    a
}

fn bundle(apps: Vec<(&str, Application)>, relations: Vec<Vec<&str>>) -> Bundle {
    Bundle {
        name: None,
        applications: KVList {
            entries: apps.into_iter().map(|(k, v)| (k.to_string(), v)).collect(),
        },
        bundle: None,
        description: None,
        relations: relations
            .into_iter()
            .map(|r| r.into_iter().map(|e| e.to_string()).collect())
            .collect(),
        series: None,
    }
}

fn names(b: &Bundle) -> Vec<String> {
    b.applications.entries.iter().map(|e| e.0.clone()).collect()
}

#[test]
fn limit_apps_keeps_consistent_edges() {
    let mut b = bundle(
        vec![
            ("a", app(Some("cs:a"), None)),
            ("b", app(Some("cs:b"), None)),
            ("c", app(Some("cs:c"), None)),
        ],
        vec![
            vec!["a:web", "b:web"],
            vec!["b", "c"],
            vec!["a:db", "c:db"],
        ],
    );
    let chosen = vec!["a".to_string(), "b".to_string()];
    b.limit_apps(&chosen, &[]).unwrap();

    assert_eq!(names(&b), vec!["a".to_string(), "b".to_string()]);
    // Only the edge between two survivors stays; no surviving edge dangles.
    assert_eq!(b.relations, vec![vec!["a:web".to_string(), "b:web".to_string()]]);
    for rel in &b.relations {
        for endpoint in rel {
            let app_name = strip_endpoint(endpoint);
            assert!(b.applications.get(app_name.as_str()).is_some());
        }
    }
}

#[test]
fn limit_apps_empty_include_is_no_op() {
    let mut b = bundle(
        vec![
            ("a", app(Some("cs:a"), None)),
            ("b", app(Some("cs:b"), None)),
            ("c", app(Some("cs:c"), None)),
        ],
        vec![vec!["a", "b"]],
    );
    let exclude = vec!["b".to_string()];
    b.limit_apps(&[], &exclude).unwrap();

    // The exclude list alone changes nothing: empty include means everything.
    assert_eq!(
        names(&b),
        vec!["a".to_string(), "b".to_string(), "c".to_string()]
    );
    assert_eq!(b.relations, vec![vec!["a".to_string(), "b".to_string()]]);
}

#[test]
fn limit_apps_exclusion_wins() {
    let mut b = bundle(
        vec![
            ("a", app(Some("cs:a"), None)),
            ("b", app(Some("cs:b"), None)),
        ],
        vec![vec!["a", "b"]],
    );
    let chosen = vec!["a".to_string(), "b".to_string()];
    let exclude = vec!["b".to_string()];
    b.limit_apps(&chosen, &exclude).unwrap();

    assert_eq!(names(&b), vec!["a".to_string()]);
    assert!(b.relations.is_empty());
}

#[test]
fn strip_endpoint_cases() {
    assert_eq!(strip_endpoint("foo:bar"), "foo");
    assert_eq!(strip_endpoint("foo"), "foo");
    assert_eq!(strip_endpoint(":bar"), "");
    assert_eq!(strip_endpoint("a:b:c"), "a");
}

#[test]
fn source_lookup() {
    let declared = app(None, Some("./my-src"));
    match declared.source("x", "./deploy/bundle.yaml") {
        SourceLookup::Declared(d) => assert_eq!(d, "./my-src"),
        SourceLookup::Probe(_) => panic!("declared source must win"),
    }

    let implicit = app(Some("cs:x"), None);
    match implicit.source("x", "deploy/bundle.yaml") {
        SourceLookup::Declared(_) => panic!("nothing is declared"),
        SourceLookup::Probe(candidates) => {
            assert_eq!(
                candidates,
                vec![
                    "deploy/x".to_string(),
                    "deploy/charms/x".to_string(),
                    "deploy/operators/x".to_string(),
                ]
            );
        }
    }

    // A bundle document without a directory part probes next to itself.
    match implicit.source("x", "bundle.yaml") {
        SourceLookup::Declared(_) => panic!("nothing is declared"),
        SourceLookup::Probe(candidates) => {
            assert_eq!(
                candidates,
                vec![
                    "x".to_string(),
                    "charms/x".to_string(),
                    "operators/x".to_string(),
                ]
            );
        }
    }
}

#[test]
fn plan_app_decisions() {
    // Neither charm nor source: the error names the application.
    match plan_app("web", &None, None) {
        Err(JujuError::MissingSourceError(n)) => assert_eq!(n, "web"),
        other => panic!("expected a missing source error, got {:?}", other),
    }

    // A source always means a build, charm or not.
    match plan_app("web", &None, Some("./web".to_string())).unwrap() {
        AppAction::Build(p) => assert_eq!(p, "./web"),
        AppAction::Keep => panic!("a source must be built"),
    }
    let charm = Some(CharmURL::parse("cs:web").unwrap());
    match plan_app("web", &charm, Some("./web".to_string())).unwrap() {
        AppAction::Build(p) => assert_eq!(p, "./web"),
        AppAction::Keep => panic!("a source must be built"),
    }

    // Only a charm: keep it.
    match plan_app("web", &charm, None).unwrap() {
        AppAction::Keep => {}
        AppAction::Build(_) => panic!("nothing to build"),
    }
}

#[test]
fn effective_source_overrides() {
    let resolved = || Some("./resolved".to_string());

    // No override map at all: the resolved source stands.
    assert_eq!(effective_source(&None, "a", resolved()), resolved());

    let mut m: KVList<Option<String>> = KVList { entries: vec![] };
    m.entries.push(("a".to_string(), Some("./override".to_string())));
    m.entries.push(("b".to_string(), None));
    let m = Some(m);

    // An override with a location wins over the resolved source.
    assert_eq!(
        effective_source(&m, "a", resolved()),
        Some("./override".to_string())
    );
    // An override without a location falls back to the resolved source.
    assert_eq!(effective_source(&m, "b", resolved()), resolved());
    // An application the overrides leave out is not built from source.
    assert_eq!(effective_source(&m, "c", resolved()), None);
}

#[test]
fn rebuilt_replaces_charm_and_resources() {
    let mut a = app(Some("cs:old-1"), Some("./src"));
    a.scale = 3;
    let artifact = CharmURL::from_path("/tmp/builds/new");
    let resources = KVList {
        entries: vec![("img".to_string(), "docker.io/img".to_string())],
    };
    let b = rebuilt(a, artifact, resources);
    assert_eq!(b.charm.as_ref().unwrap().to_string(), "/tmp/builds/new");
    assert_eq!(b.resources.get("img"), Some(&"docker.io/img".to_string()));
    assert_eq!(b.scale, 3);
    assert_eq!(b.source, Some("./src".to_string()));
}

#[test]
fn upgrade_args_shape() {
    let resources = KVList {
        entries: vec![
            ("img".to_string(), "docker.io/img".to_string()),
            ("db".to_string(), "./db.file".to_string()),
        ],
    };
    assert_eq!(
        upgrade_args("web", "/src/web", &resources),
        vec![
            "upgrade-charm".to_string(),
            "web".to_string(),
            "--path".to_string(),
            "/src/web".to_string(),
            "--resource=img=docker.io/img".to_string(),
            "--resource=db=./db.file".to_string(),
        ]
    );
}

#[test]
fn quoted_token_extracts_archive_name() {
    assert_eq!(
        quoted_token("Created 'bundle.zip'.\nUploading..."),
        "bundle.zip"
    );
    assert_eq!(quoted_token("no quotes here"), "");
    assert_eq!(quoted_token("dangling 'quote"), "quote");
}

fn simulate_build(entries: Vec<(String, Application)>) -> Vec<(String, String)> {
    // One application end-to-end, exactly as a build worker would treat it:
    // decide, build where a source is available, and hand back one
    // immutable result.
    fn one(name: &str, application: &Application) -> (String, String) {
        let source = match application.source(name, "deploy/bundle.yaml") {
            SourceLookup::Declared(d) => Some(d),
            SourceLookup::Probe(_) => None,
        };
        let new_charm = match plan_app(name, &application.charm, source).unwrap() {
            AppAction::Keep => application.charm.clone().unwrap(),
            AppAction::Build(src) => CharmURL::from_path(&format!("/builds/{}", src)),
        };
        (name.to_string(), new_charm.to_string())
    }

    let mut out: Vec<(String, String)> = entries
        .iter()
        .map(|(name, application)| one(name, application))
        .collect();
    out.sort();
    out
}

#[test]
fn parallel_sequential_build_equivalence() {

    let entries: Vec<(String, Application)> = vec![
        ("a".to_string(), app(Some("cs:a-1"), None)),
        ("b".to_string(), app(None, Some("./b"))),
        ("c".to_string(), app(Some("cs:c-2"), Some("./c"))),
    ];

    // Sequentially, in two different orders.
    let sequential = simulate_build(entries.clone());
    let mut reversed = entries.clone();
    reversed.reverse();
    let sequential_reversed = simulate_build(reversed);

    // Concurrently, with no ordering guarantee between applications.
    let mut parallel: Vec<(String, String)> = entries
        .par_iter()
        .map(|(name, application)| {
            let source = match application.source(name, "deploy/bundle.yaml") {
                SourceLookup::Declared(d) => Some(d),
                SourceLookup::Probe(_) => None,
            };
            let new_charm = match plan_app(name, &application.charm, source).unwrap() {
                AppAction::Keep => application.charm.clone().unwrap(),
                AppAction::Build(src) => CharmURL::from_path(&format!("/builds/{}", src)),
            };
            (name.to_string(), new_charm.to_string())
        })
        .collect();
    parallel.sort();

    // Equal as sets of (name, resolved identifier) pairs.
    assert_eq!(sequential, sequential_reversed);
    assert_eq!(sequential, parallel);
}

#[test]
fn app_subset_checks_names() {
    let b = bundle(
        vec![
            ("a", app(Some("cs:a"), None)),
            ("b", app(Some("cs:b"), None)),
        ],
        vec![],
    );

    // No names: the whole mapping comes back.
    let all = b.app_subset(vec![]).unwrap();
    assert_eq!(
        all.entries.iter().map(|e| e.0.clone()).collect::<Vec<_>>(),
        vec!["a".to_string(), "b".to_string()]
    );

    // Names narrow the mapping, in the bundle's own order.
    let some = b.app_subset(vec!["b".to_string()]).unwrap();
    assert_eq!(
        some.entries.iter().map(|e| e.0.clone()).collect::<Vec<_>>(),
        vec!["b".to_string()]
    );

    // A name the bundle does not hold fails the whole call.
    match b.app_subset(vec!["a".to_string(), "zz".to_string(), "yy".to_string()]) {
        Err(JujuError::ApplicationNotFound(msg)) => assert_eq!(msg, "zz, yy"),
        other => panic!("expected an unknown application error, got {:?}", other),
    }
}

#[test]
fn release_args_shape() {
    let revisions = vec![("img".to_string(), "3".to_string())];
    assert_eq!(
        release_args("cs:~team/web-5", Channel::Beta, &revisions),
        vec![
            "release".to_string(),
            "--channel".to_string(),
            "beta".to_string(),
            "cs:~team/web-5".to_string(),
            "--resource=img-3".to_string(),
        ]
    );
}
