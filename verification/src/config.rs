//! Job definitions and global settings, and the default configuration.

use vstd::prelude::*;
use vstd::string::StringExecFns;

verus! {

/// The archive format of a backup.
#[derive(Clone, Copy, Debug, PartialEq, Eq, Structural)]
pub enum Compression {
    /// A deflate-compressed zip container.
    Zip,
    /// A tar stream compressed with zstd.
    Zstd,
}

/// One backup job: a source directory and the directory that receives its archives.
#[derive(Clone, Debug)]
pub struct Backup {
    pub from: String,
    pub dest: String,
}

/// Settings shared by all jobs.
///
/// `filename` is carried for the configuration document's sake only: archive
/// names are always the job name, a hyphen and the timestamp (see
/// [`crate::naming`]), whatever the template says.
#[derive(Clone, Debug)]
pub struct Settings {
    pub interval: u64,
    pub filename: String,
    pub compression: Compression,
}

/// A named job.
#[derive(Clone, Debug)]
pub struct NamedBackup {
    pub name: String,
    pub backup: Backup,
}

/// A whole configuration: the settings and the jobs, in processing order.
#[derive(Clone, Debug)]
pub struct Config {
    pub settings: Settings,
    pub backup: Vec<NamedBackup>,
}

/// The default interval between cycles, in seconds.
pub const DEFAULT_INTERVAL: u64 = 300;

/// What [`init_config`] returns, as a predicate on a configuration.
pub open spec fn is_default_config(c: Config) -> bool {
    &&& c.settings.interval == DEFAULT_INTERVAL
    &&& c.settings.filename@ == "%name%-%timestamp%"@
    &&& c.settings.compression == Compression::Zip
    &&& c.backup@.len() == 2
    &&& c.backup@[0].name@ == "path1"@
    &&& c.backup@[0].backup.from@ == "/a/path"@
    &&& c.backup@[0].backup.dest@ == "./"@
    &&& c.backup@[1].name@ == "path2"@
    &&& c.backup@[1].backup.from@ == "/another/path"@
    &&& c.backup@[1].backup.dest@ == "./"@
    &&& distinct_names(c.backup@)
}

/// The configuration that a fresh installation starts from: a five-minute
/// interval, zip archives, and two sample jobs.
pub fn init_config() -> (c: Config)
    ensures
        is_default_config(c),
{
    let mut jobs: Vec<NamedBackup> = Vec::new();
    jobs.push(
        NamedBackup {
            name: "path1".to_string(),
            backup: Backup { from: "/a/path".to_string(), dest: "./".to_string() },
        },
    );
    jobs.push(
        NamedBackup {
            name: "path2".to_string(),
            backup: Backup { from: "/another/path".to_string(), dest: "./".to_string() },
        },
    );
    proof {
        reveal_strlit("path1");
        reveal_strlit("path2");
        assert("path1"@[4] != "path2"@[4]);
    }
    Config {
        settings: Settings {
            interval: DEFAULT_INTERVAL,
            filename: "%name%-%timestamp%".to_string(),
            compression: Compression::Zip,
        },
        backup: jobs,
    }
}

/// The name of the configuration file.
pub open spec fn config_file_name() -> Seq<char> {
    "but.conf"@
}

/// The places where a configuration is looked for, in order: the system
/// directory, the user's configuration directory under `home`, and the
/// working directory.
pub open spec fn search_order(home: Seq<char>) -> Seq<Seq<char>> {
    seq!["/etc/but.conf"@, home + "/.config/but.conf"@, config_file_name()]
}

/// The places where a configuration is looked for, in order. A user
/// without a home directory is served from the working directory.
pub fn config_paths(home: Option<&str>) -> (paths: Vec<String>)
    ensures
        paths@.len() == 3,
        forall|i: int|
            0 <= i < 3 ==> (#[trigger] paths@[i])@ == search_order(
                match home {
                    Some(h) => h@,
                    None => "."@,
                },
            )[i],
{
    let mut user = match home {
        Some(h) => h.to_owned(),
        None => ".".to_owned(),
    };
    user.append("/.config/but.conf");
    let mut paths: Vec<String> = Vec::new();
    paths.push("/etc/but.conf".to_owned());
    paths.push(user);
    paths.push("but.conf".to_owned());
    paths
}

/// The place to load the configuration from: the first of the search order
/// that is present. `present` says of each place whether a file is there.
pub fn choose_config(present: &Vec<bool>) -> (choice: Option<usize>)
    ensures
        match choice {
            Some(i) => i < present@.len() && present@[i as int] && forall|j: int|
                0 <= j < i ==> !present@[j],
            None => forall|j: int| 0 <= j < present@.len() ==> !present@[j],
        },
{
    let mut i: usize = 0;
    while i < present.len()
        invariant
            i <= present.len(),
            forall|j: int| 0 <= j < i ==> !present@[j],
        decreases present.len() - i,
    {
        if present[i] {
            return Some(i);
        }
        i += 1;
    }
    None
}

/// No two jobs have the same name.
pub open spec fn distinct_names(jobs: Seq<NamedBackup>) -> bool {
    forall|i: int, j: int|
        0 <= i < j < jobs.len() ==> (#[trigger] jobs[i]).name@ != (#[trigger] jobs[j]).name@
}

/// Whether no two jobs have the same name, as the engine expects of the
/// jobs of one configuration.
pub fn has_distinct_names(jobs: &Vec<NamedBackup>) -> (b: bool)
    ensures
        b == distinct_names(jobs@),
{
    let mut j: usize = 0;
    while j < jobs.len()
        invariant
            j <= jobs.len(),
            forall|a: int, b: int| 0 <= a < b < j ==> (#[trigger] jobs@[a]).name@ != (
            #[trigger] jobs@[b]).name@,
        decreases jobs.len() - j,
    {
        let mut i: usize = 0;
        while i < j
            invariant
                i <= j < jobs.len(),
                forall|a: int| 0 <= a < i ==> (#[trigger] jobs@[a]).name@ != jobs@[j as int].name@,
            decreases j - i,
        {
            if jobs[i].name == jobs[j].name {
                return false;
            }
            i += 1;
        }
        j += 1;
    }
    true
}

} // verus!
