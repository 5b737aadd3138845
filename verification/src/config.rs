//! The subset of an OCI bundle's `config.json` that the runtime reads, and
//! what it takes from it.
use vstd::prelude::*;

use crate::cgroup::CgroupConfig;
use crate::namespace::names_view;
use crate::text::{all_ws, is_blank, owned};

verus! {

/// A container's configuration.
#[derive(Debug)]
pub struct OciConfig {
    pub process: Process,
    pub root: Root,
    pub linux: Option<Linux>,
}

/// The process to run.
#[derive(Debug)]
pub struct Process {
    pub args: Vec<String>,
    pub env: Vec<String>,
    pub cwd: Option<String>,
}

/// The root filesystem, relative to the bundle.
#[derive(Debug)]
pub struct Root {
    pub path: String,
    pub readonly: bool,
}

/// The Linux-specific part of the configuration.
#[derive(Debug)]
pub struct Linux {
    pub namespaces: Vec<LinuxNamespace>,
    pub resources: Option<LinuxResources>,
}

/// A namespace to create, by its OCI type name (`pid`, `mount`, ...).
#[derive(Debug)]
pub struct LinuxNamespace {
    pub namespace_type: String,
}

/// Resource limits.
#[derive(Debug, Clone, Copy, PartialEq, Eq, Structural)]
pub struct LinuxResources {
    pub memory: Option<LinuxMemory>,
    pub cpu: Option<LinuxCpu>,
}

/// The memory limit in bytes.
#[derive(Debug, Clone, Copy, PartialEq, Eq, Structural)]
pub struct LinuxMemory {
    pub limit: Option<i64>,
}

/// The CPU quota and period in microseconds.
#[derive(Debug, Clone, Copy, PartialEq, Eq, Structural)]
pub struct LinuxCpu {
    pub quota: Option<i64>,
    pub period: Option<u64>,
}

/// Why a configuration was refused.
#[derive(Debug, Clone, Copy, PartialEq, Eq, Structural)]
pub enum ConfigError {
    /// `process.args` is empty.
    EmptyArgs,
    /// `root.path` is empty or only whitespace.
    EmptyRootPath,
}

/// The text of a configuration error.
pub open spec fn config_error_text(e: ConfigError) -> Seq<char> {
    match e {
        ConfigError::EmptyArgs => "process.args must not be empty"@,
        ConfigError::EmptyRootPath => "root.path must not be empty"@,
    }
}

impl ConfigError {
    /// The text that the runtime shows for this error.
    pub fn message(&self) -> (r: String)
        ensures
            r@ == config_error_text(*self),
    {
        match self {
            ConfigError::EmptyArgs => owned("process.args must not be empty"),
            ConfigError::EmptyRootPath => owned("root.path must not be empty"),
        }
    }
}

/// The namespace type names of a configuration, in order (none without a
/// Linux section).
pub open spec fn namespace_types_view(config: OciConfig) -> Seq<Seq<char>> {
    match config.linux {
        Some(linux) => linux.namespaces@.map_values(|n: LinuxNamespace| n.namespace_type@),
        None => Seq::empty(),
    }
}

/// The cgroup limits of a configuration: present when it has a resources
/// section, each limit taken from its subsection when that is present.
pub open spec fn cgroup_config_view(config: OciConfig) -> Option<CgroupConfig> {
    match config.linux {
        Some(linux) => match linux.resources {
            Some(resources) => Some(
                CgroupConfig {
                    memory_limit: match resources.memory {
                        Some(m) => m.limit,
                        None => None,
                    },
                    cpu_quota: match resources.cpu {
                        Some(c) => c.quota,
                        None => None,
                    },
                    cpu_period: match resources.cpu {
                        Some(c) => c.period,
                        None => None,
                    },
                },
            ),
            None => None,
        },
        None => None,
    }
}

impl OciConfig {
    /// Checks that the configuration names a process to run and a root
    /// filesystem.
    pub fn validate(&self) -> (r: Result<(), ConfigError>)
        ensures
            self.process.args@.len() == 0 ==> r == Err::<(), ConfigError>(ConfigError::EmptyArgs),
            self.process.args@.len() > 0 && all_ws(self.root.path@) ==> r == Err::<(), ConfigError>(
                ConfigError::EmptyRootPath,
            ),
            self.process.args@.len() > 0 && !all_ws(self.root.path@) ==> r == Ok::<(), ConfigError>(
                (),
            ),
    {
        if self.process.args.len() == 0 {
            return Err(ConfigError::EmptyArgs);
        }
        if is_blank(self.root.path.as_str()) {
            return Err(ConfigError::EmptyRootPath);
        }
        Ok(())
    }

    /// The namespace type names that the configuration asks for.
    pub fn namespace_types(&self) -> (r: Vec<String>)
        ensures
            names_view(r@) == namespace_types_view(*self),
    {
        let mut r: Vec<String> = Vec::new();
        match &self.linux {
            Some(linux) => {
                let mut i: usize = 0;
                while i < linux.namespaces.len()
                    invariant
                        i <= linux.namespaces@.len(),
                        names_view(r@) == linux.namespaces@.subrange(0, i as int).map_values(
                            |n: LinuxNamespace| n.namespace_type@,
                        ),
                    decreases linux.namespaces@.len() - i,
                {
                    let ghost before = r@;
                    let name = owned(linux.namespaces[i].namespace_type.as_str());
                    assert(name@ == linux.namespaces@[i as int].namespace_type@);
                    r.push(name);
                    assert(r@ == before.push(name));
                    assert(names_view(r@) =~= names_view(before).push(name@));
                    i += 1;
                    assert(names_view(r@) =~= linux.namespaces@.subrange(0, i as int).map_values(
                        |n: LinuxNamespace| n.namespace_type@,
                    ));
                }
                assert(linux.namespaces@.subrange(0, i as int) =~= linux.namespaces@);
            },
            None => {
                assert(names_view(r@) =~= Seq::<Seq<char>>::empty());
            },
        }
        r
    }

    /// The cgroup limits that the configuration asks for.
    pub fn cgroup_config(&self) -> (r: Option<CgroupConfig>)
        ensures
            r == cgroup_config_view(*self),
    {
        match &self.linux {
            Some(linux) => match &linux.resources {
                Some(resources) => Some(
                    CgroupConfig {
                        memory_limit: match &resources.memory {
                            Some(m) => m.limit,
                            None => None,
                        },
                        cpu_quota: match &resources.cpu {
                            Some(c) => c.quota,
                            None => None,
                        },
                        cpu_period: match &resources.cpu {
                            Some(c) => c.period,
                            None => None,
                        },
                    },
                ),
                None => None,
            },
            None => None,
        }
    }
}

/// The root filesystem of a bundle: `root.path` joined to the bundle
/// directory.
pub fn rootfs_path(bundle: &str, config: &OciConfig) -> (r: String)
    ensures
        r@ == crate::state::path_join(bundle@, config.root.path@),
{
    crate::state::join_path(bundle, config.root.path.as_str())
}

/// The path of a bundle's configuration file.
pub fn config_path(bundle: &str) -> (r: String)
    ensures
        r@ == crate::state::path_join(bundle@, "config.json"@),
{
    crate::state::join_path(bundle, "config.json")
}

/// The cgroup limits keep what the configuration asks for: none without a
/// resources section; with one, the memory limit of its memory subsection
/// and the CPU quota and period of its CPU subsection, each absent when its
/// subsection is.
pub proof fn lemma_cgroup_config_keeps_limits(config: OciConfig)
    ensures
        (config.linux is None || config.linux.unwrap().resources is None)
            ==> cgroup_config_view(config) is None,
        config.linux is Some && config.linux.unwrap().resources is Some ==> ({
            let r = config.linux.unwrap().resources.unwrap();
            &&& cgroup_config_view(config) is Some
            &&& r.cpu matches Some(c) ==> cgroup_config_view(config).unwrap().cpu_period
                == c.period && cgroup_config_view(config).unwrap().cpu_quota == c.quota
            &&& r.cpu is None ==> cgroup_config_view(config).unwrap().cpu_period is None
                && cgroup_config_view(config).unwrap().cpu_quota is None
            &&& r.memory matches Some(m) ==> cgroup_config_view(config).unwrap().memory_limit
                == m.limit
            &&& r.memory is None ==> cgroup_config_view(config).unwrap().memory_limit is None
        }),
{
}

} // verus!
