//! A charm, as represented by its source directory or archive: which of the
//! historical packaging formats it uses, what it declares, and what the
//! packaging tools must be told to build and locate it.

pub mod charmcraft;
pub mod config;
pub mod container;
pub mod device;
pub mod metadata;
pub mod operator;
pub mod relation;
pub mod resource;
pub mod storage;

use vstd::prelude::*;

pub mod v2;

use crate::channel::{spec_channel_name, Channel};
use crate::charm_url::{CharmURL, CharmUrlView};
use crate::error::JujuError;
use crate::kv::{spec_get_from, KVList};
use crate::strutil::{
    digits_to_u32, digits_value, find_char, find_char_at, is_digit_char, join_kv, path_join,
    spec_joined, spec_path_join, strs,
};
use config::Config;
use metadata::Metadata;
use resource::Resource;

verus! {

/// The charming framework used
#[derive(Debug, Clone, Copy, PartialEq, Eq, Structural)]
pub enum Framework {
    Reactive,
    Operator,
}

/// What a look at an on-disk source found, with its documents already
/// decoded: the facts the format detection decides from.
#[derive(Debug)]
pub struct SourceProbe {
    /// The path that was probed
    pub source: String,
    /// Whether the path is a single file, read as an archive by entry name
    /// rather than as a directory
    pub is_file: bool,
    /// Whether a `reactive` marker entry is present
    pub reactive_marker: bool,
    /// The metadata document, where one was present and decoded
    pub metadata: Option<Metadata>,
    /// The config document, where one was present and decoded
    pub config: Option<Config>,
}

/// A charm, as represented by the source directory
#[derive(Debug)]
pub struct CharmSource {
    /// The path to the charm's source code
    pub source: String,
    /// The charm's config document
    pub config: Option<Config>,
    /// The charm's metadata document
    pub metadata: Metadata,
    /// The charming framework used
    pub framework: Framework,
}

/// The tool that builds each packaging format.
pub open spec fn spec_build_tool(fw: Framework) -> Seq<char> {
    match fw {
        Framework::Reactive => "charm"@,
        Framework::Operator => "charmcraft"@,
    }
}

/// The arguments handed to the build tool for each packaging format.
pub open spec fn spec_build_args(
    fw: Framework,
    source: Seq<char>,
    cache_dir: Seq<char>,
    destructive_mode: bool,
) -> Seq<Seq<char>> {
    match fw {
        Framework::Reactive => seq!["build"@, "--cache-dir"@, cache_dir, source],
        Framework::Operator => if destructive_mode {
            seq!["pack"@, "-p"@, source, "--destructive-mode"@]
        } else {
            seq!["pack"@, "-p"@, source]
        },
    }
}

/// The file or directory name the built artifact gets for each format.
pub open spec fn spec_artifact_file(fw: Framework, name: Seq<char>) -> Seq<char> {
    match fw {
        Framework::Reactive => name,
        Framework::Operator => name + "_ubuntu-20.04-amd64.charm"@,
    }
}

/// The `--resource` flag pairs for a resolved resource mapping: the flag
/// and then `name=value`, two arguments per resource, in order.
pub open spec fn resource_pair_flags(entries: Seq<(String, String)>) -> Seq<Seq<char>>
    decreases entries.len(),
{
    if entries.len() == 0 {
        Seq::empty()
    } else {
        seq!["--resource"@, spec_joined(entries[0].0@, '=', entries[0].1@)] + resource_pair_flags(
            entries.drop_first(),
        )
    }
}

/// The `--resource` flag pairs naming store revisions: the flag and then
/// `name-revision`, two arguments per resource, in order.
pub open spec fn revision_pair_flags(entries: Seq<(String, String)>) -> Seq<Seq<char>>
    decreases entries.len(),
{
    if entries.len() == 0 {
        Seq::empty()
    } else {
        seq!["--resource"@, spec_joined(entries[0].0@, '-', entries[0].1@)] + revision_pair_flags(
            entries.drop_first(),
        )
    }
}

/// The arguments that push a built charm to the store: the verb, the build
/// directory, the store identifier, and a `--resource` pair for every
/// resolved resource.
pub fn push_args(build_dir: &str, cs_url: &str, resources: &KVList<String>) -> (r: Vec<String>)
    ensures
        strs(r@) == seq!["push"@, build_dir@, cs_url@] + resource_pair_flags(resources.entries@),
{
    let mut out: Vec<String> = Vec::new();
    out.push("push".to_owned());
    out.push(build_dir.to_owned());
    out.push(cs_url.to_owned());
    let ghost head = seq!["push"@, build_dir@, cs_url@];
    let n = resources.entries.len();
    let mut i: usize = 0;
    proof {
        assert(strs(out@) =~= head);
        assert(resources.entries@.skip(0) =~= resources.entries@);
    }
    while i < n
        invariant
            0 <= i <= n,
            n == resources.entries@.len(),
            strs(out@) + resource_pair_flags(resources.entries@.skip(i as int)) =~= head
                + resource_pair_flags(resources.entries@),
        decreases n - i,
    {
        let ghost rest = resources.entries@.skip(i as int);
        let k = &resources.entries[i].0;
        let v = &resources.entries[i].1;
        let ghost before = out@;
        out.push("--resource".to_owned());
        out.push(join_kv(k.as_str(), '=', v.as_str()));
        proof {
            assert(rest[0] == resources.entries@[i as int]);
            assert(rest.drop_first() =~= resources.entries@.skip(i + 1));
            assert(strs(out@) =~= strs(before) + seq!["--resource"@, spec_joined(k@, '=', v@)]);
            assert(strs(out@) + resource_pair_flags(resources.entries@.skip(i + 1)) =~= strs(
                before,
            ) + (seq!["--resource"@, spec_joined(k@, '=', v@)] + resource_pair_flags(
                rest.drop_first(),
            )));
        }
        i = i + 1;
    }
    proof {
        assert(resources.entries@.skip(n as int) =~= Seq::<(String, String)>::empty());
        assert(strs(out@) + resource_pair_flags(resources.entries@.skip(n as int)) =~= strs(out@));
    }
    out
}

/// The arguments that release a pushed revision to a channel: the verb,
/// the revision identifier, its channel, and a `--resource` pair naming
/// each resource revision that travels with it.
pub fn promote_args(rev_url: &str, to: Channel, resources: &Vec<(String, String)>) -> (r: Vec<
    String,
>)
    ensures
        strs(r@) == seq!["release"@, rev_url@, "--channel"@, spec_channel_name(to)]
            + revision_pair_flags(resources@),
{
    let mut out: Vec<String> = Vec::new();
    out.push("release".to_owned());
    out.push(rev_url.to_owned());
    out.push("--channel".to_owned());
    out.push(to.to_string());
    let ghost head = seq!["release"@, rev_url@, "--channel"@, spec_channel_name(to)];
    let n = resources.len();
    let mut i: usize = 0;
    proof {
        assert(strs(out@) =~= head);
        assert(resources@.skip(0) =~= resources@);
    }
    while i < n
        invariant
            0 <= i <= n,
            n == resources@.len(),
            strs(out@) + revision_pair_flags(resources@.skip(i as int)) =~= head
                + revision_pair_flags(resources@),
        decreases n - i,
    {
        let ghost rest = resources@.skip(i as int);
        let k = &resources[i].0;
        let v = &resources[i].1;
        let ghost before = out@;
        out.push("--resource".to_owned());
        out.push(join_kv(k.as_str(), '-', v.as_str()));
        proof {
            assert(rest[0] == resources@[i as int]);
            assert(rest.drop_first() =~= resources@.skip(i + 1));
            assert(strs(out@) =~= strs(before) + seq!["--resource"@, spec_joined(k@, '-', v@)]);
            assert(strs(out@) + revision_pair_flags(resources@.skip(i + 1)) =~= strs(before) + (seq![
                "--resource"@,
                spec_joined(k@, '-', v@),
            ] + revision_pair_flags(rest.drop_first())));
        }
        i = i + 1;
    }
    proof {
        assert(resources@.skip(n as int) =~= Seq::<(String, String)>::empty());
        assert(strs(out@) + revision_pair_flags(resources@.skip(n as int)) =~= strs(out@));
    }
    out
}

/// A `--release=channel` flag for each channel the upload goes to.
pub open spec fn release_flags(chs: Seq<String>) -> Seq<Seq<char>> {
    chs.map_values(|c: String| "--release="@ + c@)
}

/// A `--resource=name:revision` flag for each resource revision that the
/// uploaded charm uses.
pub open spec fn resource_rev_flags(entries: Seq<(String, String)>) -> Seq<Seq<char>> {
    entries.map_values(|e: (String, String)| "--resource="@ + e.0@ + seq![':'] + e.1@)
}

/// The arguments that upload a built artifact: the verb, quiet mode, the
/// artifact, a `--release` flag per channel and a `--resource` flag per
/// resource revision.
pub fn upload_args(
    artifact: &str,
    channels: &[String],
    resource_revisions: &Vec<(String, String)>,
) -> (r: Vec<String>)
    ensures
        strs(r@) == seq!["upload"@, "--quiet"@, artifact@] + release_flags(channels@)
            + resource_rev_flags(resource_revisions@),
{
    let mut out: Vec<String> = Vec::new();
    out.push("upload".to_owned());
    out.push("--quiet".to_owned());
    out.push(artifact.to_owned());
    let ghost head = seq!["upload"@, "--quiet"@, artifact@];
    let n = channels.len();
    let mut i: usize = 0;
    proof {
        assert(strs(out@) =~= head);
        assert(release_flags(channels@.take(0)) =~= Seq::<Seq<char>>::empty());
        assert(strs(out@) =~= head + release_flags(channels@.take(0)));
    }
    while i < n
        invariant
            0 <= i <= n,
            n == channels@.len(),
            strs(out@) =~= head + release_flags(channels@.take(i as int)),
        decreases n - i,
    {
        let mut flag = "--release=".to_owned();
        flag.append(channels[i].as_str());
        let ghost before = out@;
        out.push(flag);
        proof {
            assert(channels@.take(i + 1).drop_last() =~= channels@.take(i as int));
            assert(release_flags(channels@.take(i + 1)) =~= release_flags(
                channels@.take(i as int),
            ).push("--release="@ + channels@[i as int]@));
            assert(strs(out@) =~= strs(before).push("--release="@ + channels@[i as int]@));
        }
        i = i + 1;
    }
    proof {
        assert(channels@.take(n as int) =~= channels@);
    }
    let ghost head2 = head + release_flags(channels@);
    let m = resource_revisions.len();
    let mut j: usize = 0;
    proof {
        assert(resource_rev_flags(resource_revisions@.take(0)) =~= Seq::<Seq<char>>::empty());
        assert(strs(out@) =~= head2 + resource_rev_flags(resource_revisions@.take(0)));
    }
    while j < m
        invariant
            0 <= j <= m,
            m == resource_revisions@.len(),
            strs(out@) =~= head2 + resource_rev_flags(resource_revisions@.take(j as int)),
        decreases m - j,
    {
        let k = &resource_revisions[j].0;
        let v = &resource_revisions[j].1;
        let mut flag = "--resource=".to_owned();
        flag.append(k.as_str());
        crate::strutil::push_char(&mut flag, ':');
        flag.append(v.as_str());
        let ghost before = out@;
        out.push(flag);
        proof {
            assert(flag@ =~= "--resource="@ + k@ + seq![':'] + v@);
            assert(resource_revisions@.take(j + 1).drop_last() =~= resource_revisions@.take(
                j as int,
            ));
            assert(resource_rev_flags(resource_revisions@.take(j + 1)) =~= resource_rev_flags(
                resource_revisions@.take(j as int),
            ).push("--resource="@ + k@ + seq![':'] + v@));
            assert(strs(out@) =~= strs(before).push("--resource="@ + k@ + seq![':'] + v@));
        }
        j = j + 1;
    }
    proof {
        assert(resource_revisions@.take(m as int) =~= resource_revisions@);
    }
    out
}

/// The revision number in the upload report: the digits that follow the
/// report's nine-character prefix, up to the first space. The number is
/// read back exactly; a report too short, without digits there, or naming
/// a number above the unsigned 32-bit range yields nothing.
pub fn parse_upload_revision(output: &str) -> (r: Option<u32>)
    ensures
        ({
            let t = output@.skip(9);
            let ds = t.take(find_char_at(t, ' '));
            &&& (r is Some <==> (output@.len() >= 9 && ds.len() > 0 && (forall|j: int|
                0 <= j < ds.len() ==> is_digit_char(ds[j])) && digits_value(ds) <= u32::MAX))
            &&& (r matches Some(v) ==> v as int == digits_value(ds))
        }),
{
    let n = output.unicode_len();
    if n < 9 {
        return Option::None;
    }
    let t = output.substring_char(9, n);
    let e = find_char(t, ' ');
    let ds = t.substring_char(0, e);
    let m = ds.unicode_len();
    if m == 0 {
        return Option::None;
    }
    let d_end = crate::strutil::digit_scan(ds);
    proof {
        crate::strutil::lemma_digit_end(ds@);
    }
    if d_end < m {
        proof {
            assert(!is_digit_char(ds@[d_end as int]));
        }
        return Option::None;
    }
    digits_to_u32(ds)
}

/// The default a declared resource falls back to when nothing is configured
/// for it: the upstream source of an OCI image, and nothing otherwise.
pub open spec fn resource_default(r: Resource) -> Option<Seq<char>> {
    match r {
        Resource::OciImage { upstream_source: Some(us), .. } => Some(us@),
        _ => None,
    }
}

/// What a declared resource resolves to: the configured override when one is
/// given, else its declared default, else nothing.
pub open spec fn resolved_resource(
    configured: Seq<(String, String)>,
    k: Seq<char>,
    r: Resource,
) -> Option<Seq<char>> {
    match spec_get_from(configured, k) {
        Some(c) => Some(c@),
        None => resource_default(r),
    }
}

impl CharmSource {
    /// Decides which packaging format a probed source uses. A source without
    /// a metadata document is not a recognized charm source; one with a
    /// `reactive` marker is the legacy reactive format, never the current
    /// one, however much the layouts overlap; the rest are operator charms.
    pub fn resolve(probe: SourceProbe) -> (r: Result<CharmSource, JujuError>)
        ensures
            (r is Ok) <==> (probe.metadata is Some),
            probe.metadata is None ==> r matches Err(JujuError::WrongCharmTypeError),
            r matches Ok(cs) ==> {
                &&& Some(cs.metadata) == probe.metadata
                &&& cs.config == probe.config
                &&& cs.source == probe.source
                &&& cs.framework == (if probe.reactive_marker {
                    Framework::Reactive
                } else {
                    Framework::Operator
                })
            },
    {
        let SourceProbe { source, is_file: _, reactive_marker, metadata, config } = probe;
        match metadata {
            Some(m) => Ok(
                CharmSource {
                    source,
                    config,
                    metadata: m,
                    framework: if reactive_marker {
                        Framework::Reactive
                    } else {
                        Framework::Operator
                    },
                },
            ),
            None => Err(JujuError::WrongCharmTypeError),
        }
    }

    /// The tool and arguments that build this charm: the legacy reactive
    /// format goes through the `charm` tool with a cache directory, every
    /// other format through `charmcraft pack`, destructively when asked.
    pub fn build_command(&self, cache_dir: &str, destructive_mode: bool) -> (r: (
        String,
        Vec<String>,
    ))
        ensures
            r.0@ == spec_build_tool(self.framework),
            strs(r.1@) == spec_build_args(self.framework, self.source@, cache_dir@, destructive_mode),
    {
        match self.framework {
            Framework::Reactive => {
                let mut args: Vec<String> = Vec::new();
                args.push("build".to_owned());
                args.push("--cache-dir".to_owned());
                args.push(cache_dir.to_owned());
                args.push(self.source.clone());
                proof {
                    assert(strs(args@) =~= spec_build_args(
                        self.framework,
                        self.source@,
                        cache_dir@,
                        destructive_mode,
                    ));
                }
                ("charm".to_owned(), args)
            },
            Framework::Operator => {
                let mut args: Vec<String> = Vec::new();
                args.push("pack".to_owned());
                args.push("-p".to_owned());
                args.push(self.source.clone());
                if destructive_mode {
                    args.push("--destructive-mode".to_owned());
                }
                proof {
                    assert(strs(args@) =~= spec_build_args(
                        self.framework,
                        self.source@,
                        cache_dir@,
                        destructive_mode,
                    ));
                }
                ("charmcraft".to_owned(), args)
            },
        }
    }

    /// The identifier the just-built artifact will be found at: a plain path
    /// under the given base directory. A reactive charm builds into a
    /// directory named after the charm; the others produce an archive whose
    /// name carries the platform tag.
    pub fn artifact_path(&self, base_dir: &str) -> (r: CharmURL)
        ensures
            r@ == (CharmUrlView {
                store: None,
                namespace: None,
                name: spec_path_join(base_dir@, spec_artifact_file(self.framework, self.metadata.name@)),
                revision: None,
            }),
    {
        let file = match self.framework {
            Framework::Reactive => self.metadata.name.clone(),
            Framework::Operator => {
                let mut f = self.metadata.name.clone();
                f.append("_ubuntu-20.04-amd64.charm");
                f
            },
        };
        CharmURL::from_path(path_join(base_dir, file.as_str()).as_str())
    }

    /// Merge default resources with resources given in e.g. a bundle's
    /// document. Every resource the metadata declares resolves to the
    /// configured override or else its declared default, in declaration
    /// order; the whole merge fails, naming the first resource without
    /// either and this charm, rather than return a partial mapping.
    pub fn resources_with_defaults(&self, configured: &KVList<String>) -> (r: Result<
        KVList<String>,
        JujuError,
    >)
        requires
            self.metadata.resources.wf(),
        ensures
            (r is Ok) <==> (forall|i: int|
                0 <= i < self.metadata.resources.entries@.len() ==> resolved_resource(
                    configured.entries@,
                    #[trigger] self.metadata.resources.entries@[i].0@,
                    self.metadata.resources.entries@[i].1,
                ) is Some),
            r matches Ok(out) ==> {
                &&& out.entries@.len() == self.metadata.resources.entries@.len()
                &&& forall|i: int|
                    0 <= i < out.entries@.len() ==> (#[trigger] out.entries@[i].0@
                        == self.metadata.resources.entries@[i].0@ && Some(out.entries@[i].1@)
                        == resolved_resource(
                        configured.entries@,
                        self.metadata.resources.entries@[i].0@,
                        self.metadata.resources.entries@[i].1,
                    ))
                &&& out.wf()
            },
            r matches Err(e) ==> (e matches JujuError::ResourceNotFound(k, n) && n@
                == self.metadata.name@ && exists|i: int|
                {
                    &&& 0 <= i < self.metadata.resources.entries@.len()
                    &&& k@ == #[trigger] self.metadata.resources.entries@[i].0@
                    &&& resolved_resource(
                        configured.entries@,
                        self.metadata.resources.entries@[i].0@,
                        self.metadata.resources.entries@[i].1,
                    ) is None
                    &&& forall|j: int|
                        0 <= j < i ==> resolved_resource(
                            configured.entries@,
                            #[trigger] self.metadata.resources.entries@[j].0@,
                            self.metadata.resources.entries@[j].1,
                        ) is Some
                }),
    {
        let ghost declared = self.metadata.resources.entries@;
        let n = self.metadata.resources.entries.len();
        let mut out: KVList<String> = KVList::new();
        let mut i: usize = 0;
        while i < n
            invariant
                0 <= i <= n,
                n == declared.len(),
                declared == self.metadata.resources.entries@,
                self.metadata.resources.wf(),
                out.entries@.len() == i,
                out.wf(),
                forall|j: int|
                    0 <= j < i ==> (#[trigger] out.entries@[j].0@ == declared[j].0@ && Some(
                        out.entries@[j].1@,
                    ) == resolved_resource(configured.entries@, declared[j].0@, declared[j].1)),
            decreases n - i,
        {
            let k = &self.metadata.resources.entries[i].0;
            let v = &self.metadata.resources.entries[i].1;
            let value: String = match configured.get(k.as_str()) {
                Some(c) => c.clone(),
                None => {
                    match v {
                        Resource::OciImage { upstream_source: Some(us), .. } => us.clone(),
                        _ => {
                            proof {
                                assert(k@ == declared[i as int].0@);
                                assert(resolved_resource(
                                    configured.entries@,
                                    declared[i as int].0@,
                                    declared[i as int].1,
                                ) is None);
                                assert forall|j: int| 0 <= j < i implies resolved_resource(
                                    configured.entries@,
                                    #[trigger] declared[j].0@,
                                    declared[j].1,
                                ) is Some by {
                                    assert(out.entries@[j].0@ == declared[j].0@);
                                    assert(Some(out.entries@[j].1@) == resolved_resource(
                                        configured.entries@,
                                        declared[j].0@,
                                        declared[j].1,
                                    ));
                                }
                            }
                            return Err(
                                JujuError::ResourceNotFound(k.clone(), self.metadata.name.clone()),
                            );
                        },
                    }
                },
            };
            proof {
                assert forall|j: int| 0 <= j < i implies out.entries@[j].0@ != k@ by {
                    assert(out.entries@[j].0@ == declared[j].0@);
                }
                assert(!out.contains_key(k@));
            }
            out.push(k.clone(), value);
            i = i + 1;
        }
        proof {
            assert forall|i2: int| 0 <= i2 < declared.len() implies resolved_resource(
                configured.entries@,
                #[trigger] declared[i2].0@,
                declared[i2].1,
            ) is Some by {
                assert(out.entries@[i2].0@ == declared[i2].0@);
                assert(Some(out.entries@[i2].1@) == resolved_resource(
                    configured.entries@,
                    declared[i2].0@,
                    declared[i2].1,
                ));
            }
        }
        Ok(out)
    }
}

} // verus!
