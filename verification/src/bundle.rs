//! The in-memory form of a `bundle.yaml` document: named application nodes,
//! relation edges between them, and the operations that narrow a bundle to a
//! subset of its applications while keeping nodes and edges consistent.

use vstd::prelude::*;

use crate::charm_url::CharmURL;
use crate::charm_url::clone_opt_string;
use crate::error::JujuError;
use crate::kv::KVList;
use crate::series::Series;
use crate::strutil::{
    find_char, find_char_at, path_join, spec_path_join, str_eq, strs,
};

verus! {

/// Represents a YAML value that doesn't have a pre-determined type
#[derive(Debug, Clone)]
pub enum Value {
    String(String),
    Integer(i64),
    Boolean(bool),
    Null,
}

/// Arbitrary annotations for an application
#[derive(Debug, Clone)]
pub struct Annotations {
    pub gui_x: String,
    pub gui_y: String,
}

/// An application within a bundle
#[derive(Debug, Clone)]
pub struct Application {
    /// Arbitrary annotations intepreted by things other than Juju itself
    pub annotations: Option<Annotations>,
    /// Preferred channel to use when deploying a remote charm
    pub channel: Option<String>,
    /// URL of the charm
    ///
    /// Normally points to a charm store location. If not set,
    /// `Application::source` is used to build the charm. One or the other
    /// must be set before the application can be deployed.
    pub charm: Option<CharmURL>,
    /// Used to set charm config at deployment time
    pub config: KVList<Value>,
    /// Constraints such as `cores=2 mem=4G`
    pub constraints: Option<String>,
    /// Constraints for devices to assign to units of the application
    pub devices: KVList<String>,
    /// Maps how endpoints are bound to spaces
    pub endpoint_bindings: KVList<String>,
    /// Whether to expose the application externally
    pub expose: bool,
    /// Used to set charm config at deployment time
    pub options: KVList<Value>,
    /// Model selector/affinity expression for specifying pod placement
    pub placement: Option<String>,
    /// Plan under which the application is to be deployed
    pub plan: Option<String>,
    /// Whether the application requires access to cloud credentials
    pub trust: bool,
    /// Resources to make available to the application
    pub resources: KVList<String>,
    /// How many units to use for the application
    pub scale: u32,
    /// Series to use when deploying a local charm
    pub series: Option<String>,
    /// Charm source code location
    ///
    /// If the path starts with `.`, it's interpreted as being relative to
    /// the bundle itself. Otherwise, it's interpreted as being relative to
    /// the charm source directory.
    pub source: Option<String>,
    /// Constraints for storage to assign to units of the application
    pub storage: KVList<String>,
    /// Which node or unit this charm should be assigned to
    pub to: Vec<String>,
}

/// Represents a `bundle.yaml` file
#[derive(Debug, Clone)]
pub struct Bundle {
    /// Bundle name, used for uploading to charm store
    pub name: Option<String>,
    /// The applications in the bundle
    pub applications: KVList<Application>,
    /// Which OS series to use for this bundle
    ///
    /// Either this or `series` must be set
    pub bundle: Option<Series>,
    /// Long-form description of the bundle
    pub description: Option<String>,
    /// Pairs of application names that require a relation between them
    pub relations: Vec<Vec<String>>,
    /// Which OS series to use for this bundle
    ///
    /// Either this or `bundle` must be set
    pub series: Option<Series>,
}

/// The application a relation endpoint names: the text before any
/// colon-qualified interface-role suffix.
pub open spec fn endpoint_app(e: Seq<char>) -> Seq<char> {
    e.take(find_char_at(e, ':'))
}

/// Strips the interface-role suffix from a relation endpoint,
/// e.g. `foo:bar` becomes `foo`.
pub fn strip_endpoint(e: &str) -> (r: String)
    ensures
        r@ == endpoint_app(e@),
{
    let p = find_char(e, ':');
    e.substring_char(0, p).to_owned()
}

/// Whether a list of names holds one with the given characters.
pub open spec fn names_contain(ns: Seq<String>, k: Seq<char>) -> bool {
    exists|i: int| 0 <= i < ns.len() && ns[i]@ == k
}

pub fn slice_contains(names: &[String], key: &str) -> (r: bool)
    ensures
        r == names_contain(names@, key@),
{
    let n = names.len();
    let mut i: usize = 0;
    while i < n
        invariant
            0 <= i <= n,
            n == names@.len(),
            forall|j: int| 0 <= j < i ==> names@[j]@ != key@,
        decreases n - i,
    {
        if str_eq(names[i].as_str(), key) {
            return true;
        }
        i = i + 1;
    }
    false
}

/// Whether an application name survives the narrowing: it is named in the
/// include list and not in the exclude list.
pub open spec fn app_keep(names: Seq<String>, exceptions: Seq<String>, k: Seq<char>) -> bool {
    names_contain(names, k) && !names_contain(exceptions, k)
}

/// The application entries that survive the narrowing, in their old order.
pub open spec fn filter_apps(
    s: Seq<(String, Application)>,
    names: Seq<String>,
    exceptions: Seq<String>,
) -> Seq<(String, Application)>
    decreases s.len(),
{
    if s.len() == 0 {
        Seq::empty()
    } else if app_keep(names, exceptions, s[0].0@) {
        seq![s[0]] + filter_apps(s.drop_first(), names, exceptions)
    } else {
        filter_apps(s.drop_first(), names, exceptions)
    }
}

/// Whether an entry list holds the given key.
pub open spec fn entries_contain(apps: Seq<(String, Application)>, k: Seq<char>) -> bool {
    exists|i: int| 0 <= i < apps.len() && apps[i].0@ == k
}

/// Whether every endpoint of a relation, stripped of its suffix, names an
/// application present in the entry list.
pub open spec fn rel_ok(rel: Seq<String>, apps: Seq<(String, Application)>) -> bool {
    forall|i: int| 0 <= i < rel.len() ==> entries_contain(apps, endpoint_app(ns_at(rel, i)))
}

/// The characters of the name at one position of a relation.
pub open spec fn ns_at(rel: Seq<String>, i: int) -> Seq<char> {
    rel[i]@
}

/// The relations whose endpoints all survive, in their old order.
pub open spec fn filter_rels(
    s: Seq<Vec<String>>,
    apps: Seq<(String, Application)>,
) -> Seq<Vec<String>>
    decreases s.len(),
{
    if s.len() == 0 {
        Seq::empty()
    } else if rel_ok(s[0]@, apps) {
        seq![s[0]] + filter_rels(s.drop_first(), apps)
    } else {
        filter_rels(s.drop_first(), apps)
    }
}

/// Every relation that survives the narrowing is consistent with the
/// surviving applications.
pub proof fn lemma_filter_rels_consistent(s: Seq<Vec<String>>, apps: Seq<(String, Application)>)
    ensures
        forall|i: int|
            0 <= i < filter_rels(s, apps).len() ==> rel_ok(filter_rels(s, apps)[i]@, apps),
    decreases s.len(),
{
    if s.len() > 0 {
        lemma_filter_rels_consistent(s.drop_first(), apps);
        if rel_ok(s[0]@, apps) {
            assert forall|i: int| 0 <= i < filter_rels(s, apps).len() implies rel_ok(
                filter_rels(s, apps)[i]@,
                apps,
            ) by {
                if i > 0 {
                    assert(filter_rels(s, apps)[i] == filter_rels(s.drop_first(), apps)[i - 1]);
                }
            }
        }
    }
}

/// Every entry that survives the narrowing stood in the old list, and its
/// key satisfies the narrowing; old keys that satisfy the narrowing survive.
pub proof fn lemma_filter_apps_entries(
    s: Seq<(String, Application)>,
    names: Seq<String>,
    exceptions: Seq<String>,
)
    ensures
        forall|i: int|
            0 <= i < filter_apps(s, names, exceptions).len() ==> (app_keep(
                names,
                exceptions,
                #[trigger] filter_apps(s, names, exceptions)[i].0@,
            ) && entries_contain(s, filter_apps(s, names, exceptions)[i].0@)),
        forall|k: Seq<char>|
            entries_contain(s, k) && app_keep(names, exceptions, k) ==> entries_contain(
                filter_apps(s, names, exceptions),
                k,
            ),
    decreases s.len(),
{
    if s.len() > 0 {
        lemma_filter_apps_entries(s.drop_first(), names, exceptions);
        let f = filter_apps(s, names, exceptions);
        let fr = filter_apps(s.drop_first(), names, exceptions);
        assert forall|i: int| 0 <= i < f.len() implies (app_keep(names, exceptions, #[trigger] f[i].0@)
            && entries_contain(s, f[i].0@)) by {
            if app_keep(names, exceptions, s[0].0@) {
                if i > 0 {
                    assert(f[i] == fr[i - 1]);
                    let j = choose|j: int|
                        0 <= j < s.drop_first().len() && s.drop_first()[j].0@ == fr[i - 1].0@;
                    assert(s[j + 1] == s.drop_first()[j]);
                }
            } else {
                assert(f[i] == fr[i]);
                let j = choose|j: int|
                    0 <= j < s.drop_first().len() && s.drop_first()[j].0@ == fr[i].0@;
                assert(s[j + 1] == s.drop_first()[j]);
            }
        }
        assert forall|k: Seq<char>|
            entries_contain(s, k) && app_keep(names, exceptions, k) implies entries_contain(
            f,
            k,
        ) by {
            let j = choose|j: int| 0 <= j < s.len() && s[j].0@ == k;
            if j == 0 {
                assert(f[0].0@ == k);
            } else {
                assert(s.drop_first()[j - 1] == s[j]);
                assert(entries_contain(s.drop_first(), k));
                let m = choose|m: int| 0 <= m < fr.len() && fr[m].0@ == k;
                if app_keep(names, exceptions, s[0].0@) {
                    assert(f[m + 1] == fr[m]);
                } else {
                    assert(f[m] == fr[m]);
                }
            }
        }
    }
}

/// Narrowing a list with pairwise distinct keys leaves the keys pairwise
/// distinct: filtering re-establishes the mapping's invariant.
pub proof fn lemma_filter_apps_unique(
    s: Seq<(String, Application)>,
    names: Seq<String>,
    exceptions: Seq<String>,
)
    requires
        forall|i: int, j: int| 0 <= i < j < s.len() ==> s[i].0@ != s[j].0@,
    ensures
        forall|i: int, j: int|
            0 <= i < j < filter_apps(s, names, exceptions).len() ==> filter_apps(
                s,
                names,
                exceptions,
            )[i].0@ != filter_apps(s, names, exceptions)[j].0@,
    decreases s.len(),
{
    if s.len() > 0 {
        let t = s.drop_first();
        assert(forall|i: int, j: int|
            0 <= i < j < t.len() ==> #[trigger] t[i].0@ != #[trigger] t[j].0@) by {
            assert(forall|i: int| 0 <= i < t.len() ==> #[trigger] t[i] == s[i + 1]);
        }
        lemma_filter_apps_unique(t, names, exceptions);
        lemma_filter_apps_entries(t, names, exceptions);
        let f = filter_apps(s, names, exceptions);
        let fr = filter_apps(t, names, exceptions);
        if app_keep(names, exceptions, s[0].0@) {
            assert forall|i: int, j: int| 0 <= i < j < f.len() implies f[i].0@ != f[j].0@ by {
                assert(f[j] == fr[j - 1]);
                if i == 0 {
                    // The head's key stood nowhere in the tail, so it is
                    // not among the tail's survivors either.
                    assert(entries_contain(t, fr[j - 1].0@));
                    let m = choose|m: int| 0 <= m < t.len() && t[m].0@ == fr[j - 1].0@;
                    assert(t[m] == s[m + 1]);
                } else {
                    assert(f[i] == fr[i - 1]);
                }
            }
        }
    }
}

impl Bundle {
    /// Updates bundle to use subset of applications.
    ///
    /// With an empty include list the bundle is left exactly as it was,
    /// whatever the exclude list says. Otherwise only the applications whose
    /// name is included and not excluded stay, and then only the relations
    /// whose endpoints, stripped of any `:role` suffix, all name surviving
    /// applications stay: no surviving edge dangles.
    pub fn limit_apps(&mut self, names: &[String], exceptions: &[String]) -> (r: Result<
        (),
        JujuError,
    >)
        ensures
            r is Ok,
            names@.len() == 0 ==> *final(self) == *old(self),
            names@.len() > 0 ==> {
                &&& final(self).applications.entries@ == filter_apps(
                    old(self).applications.entries@,
                    names@,
                    exceptions@,
                )
                &&& final(self).relations@ == filter_rels(
                    old(self).relations@,
                    final(self).applications.entries@,
                )
                &&& final(self).name == old(self).name
                &&& final(self).bundle == old(self).bundle
                &&& final(self).description == old(self).description
                &&& final(self).series == old(self).series
            },
            names@.len() > 0 ==> forall|i: int|
                0 <= i < final(self).relations@.len() ==> rel_ok(
                    #[trigger] final(self).relations@[i]@,
                    final(self).applications.entries@,
                ),
            old(self).applications.wf() ==> final(self).applications.wf(),
    {
        if names.len() == 0 {
            return Ok(());
        }
        proof {
            if old(self).applications.wf() {
                lemma_filter_apps_unique(old(self).applications.entries@, names@, exceptions@);
            }
        }
        // Narrow the applications first.
        let mut rest: Vec<(String, Application)> = Vec::new();
        core::mem::swap(&mut rest, &mut self.applications.entries);
        let ghost orig = rest@;
        let mut kept: Vec<(String, Application)> = Vec::new();
        proof {
            assert(kept@ + filter_apps(rest@, names@, exceptions@) =~= filter_apps(
                orig,
                names@,
                exceptions@,
            ));
        }
        while rest.len() > 0
            invariant
                kept@ + filter_apps(rest@, names@, exceptions@) == filter_apps(
                    orig,
                    names@,
                    exceptions@,
                ),
            decreases rest.len(),
        {
            let ghost before = rest@;
            let e = rest.remove(0);
            proof {
                assert(rest@ =~= before.drop_first());
            }
            if slice_contains(names, e.0.as_str()) && !slice_contains(
                exceptions,
                e.0.as_str(),
            ) {
                let ghost kept_before = kept@;
                kept.push(e);
                proof {
                    assert(kept@ =~= kept_before + seq![before[0]]);
                    assert(kept@ + filter_apps(rest@, names@, exceptions@) =~= kept_before + (seq![
                        before[0],
                    ] + filter_apps(before.drop_first(), names@, exceptions@)));
                }
            }
        }
        proof {
            assert(rest@ =~= Seq::<(String, Application)>::empty());
            assert(kept@ + filter_apps(rest@, names@, exceptions@) =~= kept@);
        }
        self.applications.entries = kept;
        // Then drop the relations that point outside the narrowed set,
        // judged against the applications as they now stand.
        let mut rrest: Vec<Vec<String>> = Vec::new();
        core::mem::swap(&mut rrest, &mut self.relations);
        let ghost rorig = rrest@;
        let mut rkept: Vec<Vec<String>> = Vec::new();
        let ghost apps = self.applications.entries@;
        proof {
            assert(rkept@ + filter_rels(rrest@, apps) =~= filter_rels(rorig, apps));
        }
        while rrest.len() > 0
            invariant
                apps == self.applications.entries@,
                rkept@ + filter_rels(rrest@, apps) == filter_rels(rorig, apps),
            decreases rrest.len(),
        {
            let ghost before = rrest@;
            let rel = rrest.remove(0);
            proof {
                assert(rrest@ =~= before.drop_first());
            }
            if self.rel_endpoints_present(&rel) {
                let ghost rkept_before = rkept@;
                rkept.push(rel);
                proof {
                    assert(rkept@ =~= rkept_before + seq![before[0]]);
                    assert(rkept@ + filter_rels(rrest@, apps) =~= rkept_before + (seq![before[0]]
                        + filter_rels(before.drop_first(), apps)));
                }
            }
        }
        proof {
            assert(rrest@ =~= Seq::<Vec<String>>::empty());
            assert(rkept@ + filter_rels(rrest@, apps) =~= rkept@);
        }
        self.relations = rkept;
        proof {
            lemma_filter_rels_consistent(rorig, apps);
        }
        Ok(())
    }

    /// Replaces the whole application mapping in one step, so that no
    /// half-rebuilt mixture is ever observable; everything else stays.
    pub fn commit_applications(&mut self, apps: KVList<Application>)
        ensures
            final(self).applications == apps,
            final(self).name == old(self).name,
            final(self).bundle == old(self).bundle,
            final(self).description == old(self).description,
            final(self).relations == old(self).relations,
            final(self).series == old(self).series,
    {
        self.applications = apps;
    }

    /// Whether every endpoint of a relation, stripped of any `:role`
    /// suffix, names an application of this bundle.
    pub fn rel_endpoints_present(&self, rel: &Vec<String>) -> (r: bool)
        ensures
            r == rel_ok(rel@, self.applications.entries@),
    {
        let n = rel.len();
        let mut i: usize = 0;
        while i < n
            invariant
                0 <= i <= n,
                n == rel@.len(),
                forall|j: int|
                    0 <= j < i ==> entries_contain(
                        self.applications.entries@,
                        endpoint_app(ns_at(rel@, j)),
                    ),
            decreases n - i,
        {
            let app = strip_endpoint(rel[i].as_str());
            if !self.applications.has_key(app.as_str()) {
                proof {
                    assert(app@ == endpoint_app(ns_at(rel@, i as int)));
                    assert(!entries_contain(
                        self.applications.entries@,
                        endpoint_app(ns_at(rel@, i as int)),
                    ));
                }
                return false;
            }
            i = i + 1;
        }
        true
    }
}

} // verus!

// The per-application build decisions: what the orchestration loop decides
// for one application, independently of every other.
verus! {

/// Where an application's charm source may be found when none is declared:
/// the conventional locations under the bundle document's directory.
pub open spec fn spec_source_candidates(name: Seq<char>, bundle_path: Seq<char>) -> Seq<Seq<char>> {
    let root = parent_dir(bundle_path);
    seq![
        spec_path_join(root, name),
        spec_path_join(root, "charms"@ + seq!['/'] + name),
        spec_path_join(root, "operators"@ + seq!['/'] + name),
    ]
}

/// The directory that holds a path: the text before the last separator, or
/// nothing when the path is a bare name.
pub open spec fn parent_dir(p: Seq<char>) -> Seq<char> {
    if exists|i: int| 0 <= i < p.len() && p[i] == '/' {
        p.take(last_slash(p, p.len() - 1))
    } else {
        Seq::empty()
    }
}

/// The last position at or before `i` holding a separator.
pub open spec fn last_slash(p: Seq<char>, i: int) -> int
    decreases i + 1,
{
    if i < 0 {
        -1
    } else if i >= p.len() {
        -1
    } else if p[i] == '/' {
        i
    } else {
        last_slash(p, i - 1)
    }
}

pub proof fn lemma_last_slash(p: Seq<char>, i: int)
    requires
        -1 <= i < p.len(),
    ensures
        -1 <= last_slash(p, i) <= i,
        last_slash(p, i) >= 0 ==> p[last_slash(p, i)] == '/',
        forall|j: int| last_slash(p, i) < j <= i ==> p[j] != '/',
        last_slash(p, i) == -1 ==> forall|j: int| 0 <= j <= i ==> p[j] != '/',
    decreases i + 1,
{
    if i >= 0 && p[i] != '/' {
        lemma_last_slash(p, i - 1);
    }
}

/// The text before the last separator of a path, or nothing when it has
/// no separator.
pub fn parent_of(p: &str) -> (r: String)
    ensures
        r@ == parent_dir(p@),
{
    let n = p.unicode_len();
    let ghost s = p@;
    let mut i: usize = n;
    while i > 0
        invariant
            0 <= i <= n,
            n == s.len(),
            s == p@,
            forall|j: int| i <= j < n ==> s[j] != '/',
        decreases i,
    {
        let c = p.get_char(i - 1);
        if c == '/' {
            proof {
                lemma_last_slash(s, n as int - 1);
                assert(s[i as int - 1] == '/');
                assert(last_slash(s, n as int - 1) == i - 1);
            }
            return p.substring_char(0, i - 1).to_owned();
        }
        i = i - 1;
    }
    proof {
        lemma_last_slash(s, n as int - 1);
        if exists|j: int| 0 <= j < s.len() && s[j] == '/' {
            let j = choose|j: int| 0 <= j < s.len() && s[j] == '/';
            assert(false);
        }
    }
    String::new()
}

/// Where an application's charm source is to be looked for.
#[derive(Debug)]
pub enum SourceLookup {
    /// The bundle document declares the source location itself.
    Declared(String),
    /// Nothing is declared: probe these locations in order and take the
    /// first that exists on disk.
    Probe(Vec<String>),
}

impl Application {
    /// Calculates where the charm's source directory may be.
    ///
    /// The bundle document can set the location itself; otherwise it is
    /// implicit in the existence of one of the conventional directories
    /// next to the bundle document, probed in a fixed order.
    pub fn source(&self, name: &str, bundle_path: &str) -> (r: SourceLookup)
        ensures
            (match self.source {
                Some(ref s) => r matches SourceLookup::Declared(d) && d@ == s@,
                None => r matches SourceLookup::Probe(c) && strs(c@) == spec_source_candidates(
                    name@,
                    bundle_path@,
                ),
            }),
    {
        match &self.source {
            Some(s) => SourceLookup::Declared(s.clone()),
            None => {
                let root = parent_of(bundle_path);
                let mut charms = "charms/".to_owned();
                charms.append(name);
                let mut operators = "operators/".to_owned();
                operators.append(name);
                let mut out: Vec<String> = Vec::new();
                out.push(path_join(root.as_str(), name));
                out.push(path_join(root.as_str(), charms.as_str()));
                out.push(path_join(root.as_str(), operators.as_str()));
                proof {
                    reveal_strlit("charms/");
                    reveal_strlit("charms");
                    reveal_strlit("operators/");
                    reveal_strlit("operators");
                    assert(charms@ =~= "charms"@ + seq!['/'] + name@);
                    assert(operators@ =~= "operators"@ + seq!['/'] + name@);
                    assert(strs(out@) =~= spec_source_candidates(name@, bundle_path@));
                }
                SourceLookup::Probe(out)
            },
        }
    }
}

/// The charm source location that a build uses for one application: an
/// override given for the build wins; an override with no location of its
/// own falls back to what the bundle resolves; an application that the
/// overrides leave out is not built from source at all.
pub fn effective_source(
    build_apps: &Option<KVList<Option<String>>>,
    name: &str,
    resolved: Option<String>,
) -> (r: Option<String>)
    ensures
        (match build_apps {
            Option::None => r == resolved,
            Option::Some(m) => (match m.spec_get(name@) {
                Option::None => r is None,
                Option::Some(ov) => (match ov {
                    Option::Some(s) => r matches Some(x) && x@ == s@,
                    Option::None => r == resolved,
                }),
            }),
        }),
{
    match build_apps {
        Option::None => resolved,
        Option::Some(m) => match m.get(name) {
            Option::None => Option::None,
            Option::Some(ov) => match clone_opt_string(ov) {
                Option::Some(s) => Option::Some(s),
                Option::None => resolved,
            },
        },
    }
}

/// What the build does for one application.
#[derive(Debug)]
pub enum AppAction {
    /// Keep the identifier the bundle already carries.
    Keep,
    /// Build the charm found at this source location and point the
    /// application at the fresh artifact.
    Build(String),
}

/// Decides what the build does for one application: a local source is
/// built whenever one is available; failing that, a pre-existing charm
/// identifier is kept unchanged; an application with neither is an error
/// that names it.
pub fn plan_app(name: &str, charm: &Option<CharmURL>, source: Option<String>) -> (r: Result<
    AppAction,
    JujuError,
>)
    ensures
        (r matches Err(e) ==> e matches JujuError::MissingSourceError(n) && n@ == name@),
        (r is Err <==> charm is None && source is None),
        (source matches Some(s) ==> r matches Ok(a) && a matches AppAction::Build(p) && p == s),
        (charm is Some && source is None ==> (r matches Ok(a) && a is Keep)),
{
    match (charm, source) {
        (Option::None, Option::None) => Err(JujuError::MissingSourceError(name.to_owned())),
        (_, Option::Some(s)) => Ok(AppAction::Build(s)),
        (Option::Some(_), Option::None) => Ok(AppAction::Keep),
    }
}

/// The on-disk location of a charm source named by a bundle: a location
/// that starts with `.` is relative to the bundle document's directory,
/// any other is relative to the charm source directory.
pub fn charm_path(bundle_path: &str, charm_source_dir: &str, source: &str) -> (r: String)
    ensures
        r@ == (if source@.len() > 0 && source@[0] == '.' {
            spec_path_join(parent_dir(bundle_path@), source@)
        } else {
            spec_path_join(charm_source_dir@, source@)
        }),
{
    if source.unicode_len() > 0 && source.get_char(0) == '.' {
        let root = parent_of(bundle_path);
        path_join(root.as_str(), source)
    } else {
        path_join(charm_source_dir, source)
    }
}

/// An application pointed at a freshly built artifact: the charm identifier
/// and the resolved resources are replaced, everything else is kept.
pub fn rebuilt(app: Application, artifact: CharmURL, resources: KVList<String>) -> (r: Application)
    ensures
        r.charm == Some(artifact),
        r.resources == resources,
        r.annotations == app.annotations,
        r.channel == app.channel,
        r.config == app.config,
        r.constraints == app.constraints,
        r.devices == app.devices,
        r.endpoint_bindings == app.endpoint_bindings,
        r.expose == app.expose,
        r.options == app.options,
        r.placement == app.placement,
        r.plan == app.plan,
        r.trust == app.trust,
        r.scale == app.scale,
        r.series == app.series,
        r.source == app.source,
        r.storage == app.storage,
        r.to == app.to,
{
    let Application {
        annotations,
        channel,
        charm: _,
        config,
        constraints,
        devices,
        endpoint_bindings,
        expose,
        options,
        placement,
        plan,
        trust,
        resources: _,
        scale,
        series,
        source,
        storage,
        to,
    } = app;
    Application {
        annotations,
        channel,
        charm: Some(artifact),
        config,
        constraints,
        devices,
        endpoint_bindings,
        expose,
        options,
        placement,
        plan,
        trust,
        resources,
        scale,
        series,
        source,
        storage,
        to,
    }
}

/// A `--resource=name=value` flag for one resolved resource.
pub open spec fn resource_eq_flag(k: Seq<char>, v: Seq<char>) -> Seq<char> {
    "--resource="@ + k + seq!['='] + v
}

/// The `--resource=name=value` flags for a resolved resource mapping, in
/// its order.
pub open spec fn resource_eq_flags(entries: Seq<(String, String)>) -> Seq<Seq<char>> {
    entries.map_values(|e: (String, String)| resource_eq_flag(e.0@, e.1@))
}

/// The arguments that upgrade one application in place: the tool's
/// `upgrade-charm` verb, the application, the charm's path, and one
/// `--resource=name=value` flag per resolved resource.
pub fn upgrade_args(name: &str, source_dir: &str, resources: &KVList<String>) -> (r: Vec<String>)
    ensures
        strs(r@) == seq!["upgrade-charm"@, name@, "--path"@, source_dir@] + resource_eq_flags(
            resources.entries@,
        ),
{
    let mut out: Vec<String> = Vec::new();
    out.push("upgrade-charm".to_owned());
    out.push(name.to_owned());
    out.push("--path".to_owned());
    out.push(source_dir.to_owned());
    let n = resources.entries.len();
    let mut i: usize = 0;
    while i < n
        invariant
            0 <= i <= n,
            n == resources.entries@.len(),
            strs(out@) =~= seq!["upgrade-charm"@, name@, "--path"@, source_dir@]
                + resource_eq_flags(resources.entries@.take(i as int)),
        decreases n - i,
    {
        let k = &resources.entries[i].0;
        let v = &resources.entries[i].1;
        let mut flag = "--resource=".to_owned();
        flag.append(k.as_str());
        crate::strutil::push_char(&mut flag, '=');
        flag.append(v.as_str());
        proof {
            assert(flag@ =~= resource_eq_flag(k@, v@));
        }
        let ghost before = out@;
        out.push(flag);
        proof {
            assert(resources.entries@.take(i + 1).drop_last() =~= resources.entries@.take(
                i as int,
            ));
            assert(strs(out@) =~= strs(before).push(resource_eq_flag(k@, v@)));
            assert(resource_eq_flags(resources.entries@.take(i + 1)) =~= resource_eq_flags(
                resources.entries@.take(i as int),
            ).push(resource_eq_flag(k@, v@)));
            assert(strs(out@) =~= seq!["upgrade-charm"@, name@, "--path"@, source_dir@]
                + resource_eq_flags(resources.entries@.take(i + 1)));
        }
        i = i + 1;
    }
    proof {
        assert(resources.entries@.take(n as int) =~= resources.entries@);
    }
    out
}

/// The text between the first pair of single quotes, the way the packaging
/// tool prints the archive it produced; everything from the second quote
/// on is left out, and a text without quotes yields nothing.
pub fn quoted_token(output: &str) -> (r: String)
    ensures
        r@ == ({
            let a = find_char_at(output@, '\'');
            if a < output@.len() {
                let rest = output@.skip(a + 1);
                rest.take(find_char_at(rest, '\''))
            } else {
                Seq::empty()
            }
        }),
{
    let n = output.unicode_len();
    let a = find_char(output, '\'');
    if a < n {
        let rest = output.substring_char(a + 1, n);
        let b = find_char(rest, '\'');
        rest.substring_char(0, b).to_owned()
    } else {
        String::new()
    }
}

/// The application mapping that a list of per-application results commits:
/// each name bound to the result its worker produced.
pub open spec fn entries_to_map(s: Seq<(String, Application)>) -> Map<Seq<char>, Application>
    decreases s.len(),
{
    if s.len() == 0 {
        Map::empty()
    } else {
        entries_to_map(s.drop_last()).insert(s.last().0@, s.last().1)
    }
}

/// Whether a result list binds the name to the application.
pub open spec fn pair_in(s: Seq<(String, Application)>, k: Seq<char>, v: Application) -> bool {
    exists|i: int| 0 <= i < s.len() && s[i].0@ == k && s[i].1 == v
}

/// Keys of a result list are pairwise distinct.
pub open spec fn unique_keys(s: Seq<(String, Application)>) -> bool {
    forall|i: int, j: int| 0 <= i < j < s.len() ==> s[i].0@ != s[j].0@
}

pub proof fn lemma_entries_to_map(s: Seq<(String, Application)>)
    requires
        unique_keys(s),
    ensures
        forall|k: Seq<char>| entries_to_map(s).dom().contains(k) <==> entries_contain(s, k),
        forall|i: int|
            0 <= i < s.len() ==> entries_to_map(s)[#[trigger] s[i].0@] == s[i].1,
    decreases s.len(),
{
    if s.len() > 0 {
        let t = s.drop_last();
        assert(unique_keys(t)) by {
            assert(forall|i: int, j: int|
                0 <= i < j < t.len() ==> t[i] == s[i] && t[j] == s[j]);
        }
        lemma_entries_to_map(t);
        assert forall|k: Seq<char>| entries_to_map(s).dom().contains(k) <==> entries_contain(
            s,
            k,
        ) by {
            if entries_to_map(s).dom().contains(k) {
                if k != s.last().0@ {
                    assert(entries_contain(t, k));
                    let i = choose|i: int| 0 <= i < t.len() && t[i].0@ == k;
                    assert(s[i] == t[i]);
                } else {
                    assert(s[s.len() - 1].0@ == k);
                }
            }
            if entries_contain(s, k) {
                let i = choose|i: int| 0 <= i < s.len() && s[i].0@ == k;
                if i < s.len() - 1 {
                    assert(t[i] == s[i]);
                    assert(entries_contain(t, k));
                }
            }
        }
        assert forall|i: int| 0 <= i < s.len() implies entries_to_map(s)[#[trigger] s[i].0@]
            == s[i].1 by {
            if i < s.len() - 1 {
                assert(t[i] == s[i]);
                assert(s[i].0@ != s[s.len() - 1].0@);
                assert(entries_to_map(s)[s[i].0@] == entries_to_map(t)[t[i].0@]);
            }
        }
    }
}

/// Collecting the same per-application results in any order commits the
/// same application mapping: two runs of the build whose workers produce
/// the same (name, application) outcomes, in whatever order the runs
/// gathered them, leave equal bundles. Processing each application in
/// parallel or sequentially therefore makes no difference to the result.
pub proof fn lemma_commit_order_irrelevant(
    s1: Seq<(String, Application)>,
    s2: Seq<(String, Application)>,
)
    requires
        unique_keys(s1),
        unique_keys(s2),
        forall|k: Seq<char>, v: Application| pair_in(s1, k, v) <==> pair_in(s2, k, v),
    ensures
        entries_to_map(s1) == entries_to_map(s2),
{
    lemma_entries_to_map(s1);
    lemma_entries_to_map(s2);
    assert forall|k: Seq<char>|
        entries_to_map(s1).dom().contains(k) <==> entries_to_map(
        s2,
    ).dom().contains(k) by {
        if entries_contain(s1, k) {
            let i = choose|i: int| 0 <= i < s1.len() && s1[i].0@ == k;
            assert(pair_in(s1, k, s1[i].1));
            assert(pair_in(s2, k, s1[i].1));
        }
        if entries_contain(s2, k) {
            let i = choose|i: int| 0 <= i < s2.len() && s2[i].0@ == k;
            assert(pair_in(s2, k, s2[i].1));
            assert(pair_in(s1, k, s2[i].1));
        }
    }
    assert forall|k: Seq<char>| entries_to_map(s1).dom().contains(k) implies entries_to_map(s1)[k]
        == entries_to_map(s2)[k] by {
        assert(entries_contain(s1, k));
        let i = choose|i: int| 0 <= i < s1.len() && s1[i].0@ == k;
        assert(pair_in(s1, k, s1[i].1));
        assert(pair_in(s2, k, s1[i].1));
        let j = choose|j: int| 0 <= j < s2.len() && s2[j].0@ == k && s2[j].1 == s1[i].1;
        assert(entries_to_map(s1)[k] == s1[i].1);
        assert(entries_to_map(s2)[k] == s2[j].1);
    }
    assert(entries_to_map(s1) =~= entries_to_map(s2));
}

} // verus!

// An application with nothing set: what a bundle document means by an
// application entry that gives no detail.
verus! {

impl Default for Application {
    /// An application with every part absent, empty, off or zero.
    fn default() -> (r: Application)
        ensures
            r.annotations is None,
            r.channel is None,
            r.charm is None,
            r.config.entries@.len() == 0,
            r.constraints is None,
            r.devices.entries@.len() == 0,
            r.endpoint_bindings.entries@.len() == 0,
            !r.expose,
            r.options.entries@.len() == 0,
            r.placement is None,
            r.plan is None,
            !r.trust,
            r.resources.entries@.len() == 0,
            r.scale == 0,
            r.series is None,
            r.source is None,
            r.storage.entries@.len() == 0,
            r.to@.len() == 0,
    {
        Application {
            annotations: Option::None,
            channel: Option::None,
            charm: Option::None,
            config: KVList::new(),
            constraints: Option::None,
            devices: KVList::new(),
            endpoint_bindings: KVList::new(),
            expose: false,
            options: KVList::new(),
            placement: Option::None,
            plan: Option::None,
            trust: false,
            resources: KVList::new(),
            scale: 0,
            series: Option::None,
            source: Option::None,
            storage: KVList::new(),
            to: Vec::new(),
        }
    }
}

} // verus!

// Narrowing a bundle to named applications without touching it: the copy
// the deployment flow works on, and the identifier release flags.
verus! {

use crate::channel::{spec_channel_name, Channel};

/// The keys of an application entry list, in order.
pub open spec fn entry_keys(s: Seq<(String, Application)>) -> Seq<Seq<char>> {
    s.map_values(|e: (String, Application)| e.0@)
}

/// The keys of the entries whose name is in the list, in their old order.
pub open spec fn subset_keys(s: Seq<(String, Application)>, names: Seq<String>) -> Seq<Seq<char>>
    decreases s.len(),
{
    if s.len() == 0 {
        Seq::empty()
    } else if names_contain(names, s.last().0@) {
        subset_keys(s.drop_last(), names).push(s.last().0@)
    } else {
        subset_keys(s.drop_last(), names)
    }
}

impl Bundle {
    /// Get a subset of the applications in this bundle.
    ///
    /// Returns a copy of the applications holding only the named entries,
    /// or all of them when no name is given. A name that is not in the
    /// bundle is an error naming every such name, and nothing is returned
    /// with it.
    pub fn app_subset(&self, names: Vec<String>) -> (r: Result<KVList<Application>, JujuError>)
        ensures
            (r is Ok) <==> (names@.len() == 0 || (forall|i: int|
                0 <= i < names@.len() ==> self.applications.contains_key(#[trigger] names@[i]@))),
            r matches Err(e) ==> e matches JujuError::ApplicationNotFound(_),
            r matches Ok(out) ==> (if names@.len() == 0 {
                entry_keys(out.entries@) == entry_keys(self.applications.entries@)
            } else {
                entry_keys(out.entries@) == subset_keys(self.applications.entries@, names@)
            }),
    {
        let ghost s = self.applications.entries@;
        let n = self.applications.entries.len();
        if names.len() == 0 {
            let mut out: Vec<(String, Application)> = Vec::new();
            let mut i: usize = 0;
            while i < n
                invariant
                    0 <= i <= n,
                    n == s.len(),
                    s == self.applications.entries@,
                    out@.len() == i,
                    forall|j: int| 0 <= j < i ==> out@[j].0@ == s[j].0@,
                decreases n - i,
            {
                let e = &self.applications.entries[i];
                out.push((e.0.clone(), e.1.clone()));
                i = i + 1;
            }
            proof {
                assert(entry_keys(out@) =~= entry_keys(s));
            }
            return Ok(KVList { entries: out });
        }
        // Every requested name must be present, else the call fails whole.
        let mut missing: Vec<String> = Vec::new();
        let mut i: usize = 0;
        while i < names.len()
            invariant
                0 <= i <= names@.len(),
                (missing@.len() == 0) <==> (forall|j: int|
                    0 <= j < i ==> self.applications.contains_key(#[trigger] names@[j]@)),
            decreases names@.len() - i,
        {
            if !self.applications.has_key(names[i].as_str()) {
                missing.push(names[i].clone());
            }
            i = i + 1;
        }
        if missing.len() > 0 {
            let mut msg = String::new();
            let mut j: usize = 0;
            while j < missing.len()
                decreases missing@.len() - j,
            {
                if j > 0 {
                    msg.append(", ");
                }
                msg.append(missing[j].as_str());
                j = j + 1;
            }
            return Err(JujuError::ApplicationNotFound(msg));
        }
        let mut out: Vec<(String, Application)> = Vec::new();
        let mut i: usize = 0;
        proof {
            assert(entry_keys(out@) =~= subset_keys(s.take(0), names@));
        }
        while i < n
            invariant
                0 <= i <= n,
                n == s.len(),
                s == self.applications.entries@,
                entry_keys(out@) =~= subset_keys(s.take(i as int), names@),
            decreases n - i,
        {
            let e = &self.applications.entries[i];
            proof {
                assert(s.take(i + 1).drop_last() =~= s.take(i as int));
                assert(s.take(i + 1).last() == s[i as int]);
            }
            if slice_contains(names.as_slice(), e.0.as_str()) {
                let ghost before = out@;
                out.push((e.0.clone(), e.1.clone()));
                proof {
                    assert(entry_keys(out@) =~= entry_keys(before).push(e.0@));
                }
            }
            i = i + 1;
        }
        proof {
            assert(s.take(n as int) =~= s);
        }
        Ok(KVList { entries: out })
    }
}

/// A `--resource=name-revision` flag for each resource revision published
/// with a release.
pub open spec fn resource_dash_flags(entries: Seq<(String, String)>) -> Seq<Seq<char>> {
    entries.map_values(|e: (String, String)| "--resource="@ + e.0@ + seq!['-'] + e.1@)
}

/// The arguments that release a published charm to a channel: the verb,
/// the channel, the identifier, and a `--resource=name-revision` flag per
/// resource revision.
pub fn release_args(charm_url_text: &str, to: Channel, resources: &Vec<(String, String)>) -> (r:
    Vec<String>)
    ensures
        strs(r@) == seq!["release"@, "--channel"@, spec_channel_name(to), charm_url_text@]
            + resource_dash_flags(resources@),
{
    let mut out: Vec<String> = Vec::new();
    out.push("release".to_owned());
    out.push("--channel".to_owned());
    out.push(to.to_string());
    out.push(charm_url_text.to_owned());
    let ghost head = seq!["release"@, "--channel"@, spec_channel_name(to), charm_url_text@];
    let m = resources.len();
    let mut j: usize = 0;
    proof {
        assert(resource_dash_flags(resources@.take(0)) =~= Seq::<Seq<char>>::empty());
        assert(strs(out@) =~= head + resource_dash_flags(resources@.take(0)));
    }
    while j < m
        invariant
            0 <= j <= m,
            m == resources@.len(),
            strs(out@) =~= head + resource_dash_flags(resources@.take(j as int)),
        decreases m - j,
    {
        let k = &resources[j].0;
        let v = &resources[j].1;
        let mut flag = "--resource=".to_owned();
        flag.append(k.as_str());
        crate::strutil::push_char(&mut flag, '-');
        flag.append(v.as_str());
        let ghost before = out@;
        out.push(flag);
        proof {
            assert(flag@ =~= "--resource="@ + k@ + seq!['-'] + v@);
            assert(resources@.take(j + 1).drop_last() =~= resources@.take(j as int));
            assert(resource_dash_flags(resources@.take(j + 1)) =~= resource_dash_flags(
                resources@.take(j as int),
            ).push("--resource="@ + k@ + seq!['-'] + v@));
            assert(strs(out@) =~= strs(before).push("--resource="@ + k@ + seq!['-'] + v@));
        }
        j = j + 1;
    }
    proof {
        assert(resources@.take(m as int) =~= resources@);
    }
    out
}

} // verus!
