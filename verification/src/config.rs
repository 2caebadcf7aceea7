//! Configuration: the raw shape of `dotman.yaml` and its normalised form.

use vstd::prelude::*;
use crate::model::clone_opt;

verus! {

/// The raw configuration as read from YAML.
#[derive(Debug)]
pub struct RawConfig {
    pub package_managers: RawPackageManagers,
    pub install: Vec<String>,
    pub links: RawLinks,
    pub create: Vec<String>,
    pub shell: Vec<RawShell>,
    pub clean: Vec<RawClean>,
    pub auto_install_pkg_manager: bool,
    pub auto_clone_repo: Option<RawCloneRepo>,
}

impl Default for RawConfig {
    fn default() -> (r: RawConfig)
        ensures
            r.install@.len() == 0 && r.create@.len() == 0 && r.shell@.len() == 0 && r.clean@.len() == 0,
            r.links matches RawLinks::List(l) && l@.len() == 0,
            !r.auto_install_pkg_manager && r.auto_clone_repo is None,
            r.package_managers.macos is None && r.package_managers.ubuntu is None
                && r.package_managers.debian is None && r.package_managers.arch is None
                && r.package_managers.fedora is None,
    {
        RawConfig {
            package_managers: RawPackageManagers {
                macos: None,
                ubuntu: None,
                debian: None,
                arch: None,
                fedora: None,
            },
            install: Vec::new(),
            links: RawLinks::List(Vec::new()),
            create: Vec::new(),
            shell: Vec::new(),
            clean: Vec::new(),
            auto_install_pkg_manager: false,
            auto_clone_repo: None,
        }
    }
}

/// Package managers per platform, as read.
#[derive(Debug)]
pub struct RawPackageManagers {
    pub macos: Option<String>,
    pub ubuntu: Option<String>,
    pub debian: Option<String>,
    pub arch: Option<String>,
    pub fedora: Option<String>,
}

/// One link entry in list form.
#[derive(Debug)]
pub struct RawLink {
    pub target: String,
    pub source: String,
    pub backup: Option<bool>,
    pub relink: Option<bool>,
}

/// The links section: a list of entries, or a map from target to source
/// (held in the map's key order).
#[derive(Debug)]
pub enum RawLinks {
    List(Vec<RawLink>),
    Mapping(Vec<(String, String)>),
}

/// One shell entry.
#[derive(Debug)]
pub struct RawShell {
    pub command: String,
    pub description: Option<String>,
    pub optional: bool,
    pub if_condition: Option<String>,
}

/// One clean entry.
#[derive(Debug)]
pub struct RawClean {
    pub target: String,
    pub force: bool,
}

/// A repository to clone automatically.
#[derive(Debug)]
pub struct RawCloneRepo {
    pub url: String,
    pub target: String,
    pub branch: Option<String>,
}

/// Normalised config used by the rest of dotman.
#[derive(Debug)]
pub struct Config {
    pub path: String,
    pub package_managers: PackageManagerConfig,
    pub install: Vec<String>,
    pub links: Vec<LinkEntry>,
    pub create: Vec<String>,
    pub shell: Vec<ShellEntry>,
    pub clean: Vec<CleanEntry>,
    pub auto_install_pkg_manager: bool,
    pub auto_clone_repo: Option<CloneRepo>,
    /// The shell to make the user's login shell, if any.
    pub default_shell: Option<String>,
}

/// Package managers per platform.
#[derive(Debug)]
pub struct PackageManagerConfig {
    pub macos: Option<String>,
    pub ubuntu: Option<String>,
    pub debian: Option<String>,
    pub arch: Option<String>,
    pub fedora: Option<String>,
}

impl Default for PackageManagerConfig {
    fn default() -> (r: PackageManagerConfig)
        ensures
            r.macos is None && r.ubuntu is None && r.debian is None && r.arch is None
                && r.fedora is None,
    {
        PackageManagerConfig { macos: None, ubuntu: None, debian: None, arch: None, fedora: None }
    }
}

/// A normalised link entry.
#[derive(Debug)]
pub struct LinkEntry {
    pub target: String,
    pub source: String,
    pub backup: Option<bool>,
    pub relink: Option<bool>,
}

/// A normalised shell entry.
#[derive(Debug)]
pub struct ShellEntry {
    pub command: String,
    pub description: Option<String>,
    pub optional: bool,
    pub if_condition: Option<String>,
}

/// A normalised clean entry.
#[derive(Debug)]
pub struct CleanEntry {
    pub target: String,
    pub force: bool,
}

/// A normalised auto-clone entry.
#[derive(Debug)]
pub struct CloneRepo {
    pub url: String,
    pub target: String,
    pub branch: Option<String>,
}

impl PackageManagerConfig {
    /// No package manager configured for any platform.
    pub fn empty() -> (r: PackageManagerConfig)
        ensures
            r.macos is None && r.ubuntu is None && r.debian is None && r.arch is None
                && r.fedora is None,
    {
        PackageManagerConfig { macos: None, ubuntu: None, debian: None, arch: None, fedora: None }
    }
}

/// The link entries a links section stands for, in order.
pub open spec fn raw_links_entries(l: RawLinks) -> Seq<RawLink> {
    match l {
        RawLinks::List(v) => v@,
        RawLinks::Mapping(m) => Seq::new(
            m@.len(),
            |i: int| RawLink { target: m@[i].0, source: m@[i].1, backup: None, relink: None },
        ),
    }
}

impl RawLinks {
    /// The link entries in list form; map entries get no backup or relink
    /// setting.
    pub fn into_vec(self) -> (r: Vec<RawLink>)
        ensures
            r@ == raw_links_entries(self),
    {
        match self {
            RawLinks::List(links) => links,
            RawLinks::Mapping(links) => {
                let mut out: Vec<RawLink> = Vec::new();
                let mut i: usize = 0;
                while i < links.len()
                    invariant
                        i <= links.len(),
                        out@.len() == i,
                        forall|k: int|
                            0 <= k < i ==> #[trigger] out@[k] == (RawLink {
                                target: links@[k].0,
                                source: links@[k].1,
                                backup: None,
                                relink: None,
                            }),
                    decreases links.len() - i,
                {
                    let (t, s) = &links[i];
                    out.push(RawLink { target: t.clone(), source: s.clone(), backup: None, relink: None });
                    i += 1;
                }
                assert(out@ =~= raw_links_entries(RawLinks::Mapping(links)));
                out
            },
        }
    }
}

/// `c` is `raw` normalised, read from `path`.
pub open spec fn normalizes(raw: RawConfig, path: Seq<char>, c: Config) -> bool {
    let links = raw_links_entries(raw.links);
    &&& c.path@ == path
    &&& c.package_managers == (PackageManagerConfig {
        macos: raw.package_managers.macos,
        ubuntu: raw.package_managers.ubuntu,
        debian: raw.package_managers.debian,
        arch: raw.package_managers.arch,
        fedora: raw.package_managers.fedora,
    })
    &&& c.install == raw.install
    &&& c.links@.len() == links.len()
    &&& (forall|i: int|
        0 <= i < links.len() ==> #[trigger] c.links@[i] == (LinkEntry {
            target: links[i].target,
            source: links[i].source,
            backup: links[i].backup,
            relink: links[i].relink,
        }))
    &&& c.create == raw.create
    &&& c.shell@.len() == raw.shell@.len()
    &&& (forall|i: int|
        0 <= i < raw.shell@.len() ==> #[trigger] c.shell@[i] == (ShellEntry {
            command: raw.shell@[i].command,
            description: raw.shell@[i].description,
            optional: raw.shell@[i].optional,
            if_condition: raw.shell@[i].if_condition,
        }))
    &&& c.clean@.len() == raw.clean@.len()
    &&& (forall|i: int|
        0 <= i < raw.clean@.len() ==> #[trigger] c.clean@[i] == (CleanEntry {
            target: raw.clean@[i].target,
            force: raw.clean@[i].force,
        }))
    &&& c.auto_install_pkg_manager == raw.auto_install_pkg_manager
    &&& c.auto_clone_repo == match raw.auto_clone_repo {
        Some(r) => Some(CloneRepo { url: r.url, target: r.target, branch: r.branch }),
        None => None,
    }
    &&& c.default_shell is None
}

/// Normalises a raw configuration read from `path`.
pub fn normalize(raw: RawConfig, path: &str) -> (c: Config)
    ensures
        normalizes(raw, path@, c),
{
    let ghost raw0 = raw;
    let RawConfig {
        package_managers,
        install,
        links,
        create,
        shell,
        clean,
        auto_install_pkg_manager,
        auto_clone_repo,
    } = raw;
    let raw_links = links.into_vec();
    let mut out_links: Vec<LinkEntry> = Vec::new();
    let mut i: usize = 0;
    while i < raw_links.len()
        invariant
            i <= raw_links.len(),
            out_links@.len() == i,
            forall|k: int|
                0 <= k < i ==> #[trigger] out_links@[k] == (LinkEntry {
                    target: raw_links@[k].target,
                    source: raw_links@[k].source,
                    backup: raw_links@[k].backup,
                    relink: raw_links@[k].relink,
                }),
        decreases raw_links.len() - i,
    {
        let l = &raw_links[i];
        out_links.push(
            LinkEntry {
                target: l.target.clone(),
                source: l.source.clone(),
                backup: l.backup,
                relink: l.relink,
            },
        );
        i += 1;
    }
    let mut out_shell: Vec<ShellEntry> = Vec::new();
    let mut j: usize = 0;
    while j < shell.len()
        invariant
            j <= shell.len(),
            out_shell@.len() == j,
            forall|k: int|
                0 <= k < j ==> #[trigger] out_shell@[k] == (ShellEntry {
                    command: shell@[k].command,
                    description: shell@[k].description,
                    optional: shell@[k].optional,
                    if_condition: shell@[k].if_condition,
                }),
        decreases shell.len() - j,
    {
        let s = &shell[j];
        out_shell.push(
            ShellEntry {
                command: s.command.clone(),
                description: clone_opt(&s.description),
                optional: s.optional,
                if_condition: clone_opt(&s.if_condition),
            },
        );
        j += 1;
    }
    let mut out_clean: Vec<CleanEntry> = Vec::new();
    let mut k: usize = 0;
    while k < clean.len()
        invariant
            k <= clean.len(),
            out_clean@.len() == k,
            forall|m: int|
                0 <= m < k ==> #[trigger] out_clean@[m] == (CleanEntry {
                    target: clean@[m].target,
                    force: clean@[m].force,
                }),
        decreases clean.len() - k,
    {
        out_clean.push(CleanEntry { target: clean[k].target.clone(), force: clean[k].force });
        k += 1;
    }
    let RawPackageManagers { macos, ubuntu, debian, arch, fedora } = package_managers;
    Config {
        path: String::from_str(path),
        package_managers: PackageManagerConfig { macos, ubuntu, debian, arch, fedora },
        install,
        links: out_links,
        create,
        shell: out_shell,
        clean: out_clean,
        auto_install_pkg_manager,
        auto_clone_repo: match auto_clone_repo {
            Some(r) => Some(CloneRepo { url: r.url, target: r.target, branch: r.branch }),
            None => None,
        },
        default_shell: None,
    }
}

} // verus!
