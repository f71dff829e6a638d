//! The options of the `graph` command and the configuration paths they name.

use vstd::prelude::*;
use vstd::string::*;
use std::path::PathBuf;
use crate::dispatch::name_of;
use crate::render::OutputFormat;

verus! {

/// `std::path::PathBuf`, taken as it is: nothing is known of what a path holds.
#[verifier::external_type_specification]
#[verifier::external_body]
pub struct ExPathBuf(std::path::PathBuf);

/// `PathBuf::clone`: the copy is the same path as the original.
pub assume_specification[ <PathBuf as Clone>::clone ](path: &PathBuf) -> (copy: PathBuf)
    ensures
        copy == *path,
;

/// The file format of a configuration file, where it is not left to the
/// file's name.
#[derive(Clone, Copy, Debug, PartialEq, Eq, Structural)]
pub enum Format {
    Toml,
    Json,
    Yaml,
}

/// One place to read configuration from.
#[derive(Clone, Debug, PartialEq, Eq)]
pub enum ConfigPath {
    /// A file, with its format if the options fixed it.
    File(PathBuf, Option<Format>),
    /// A directory whose files are read.
    Dir(PathBuf),
}

/// The options of the `graph` command.
#[derive(Clone, Debug, PartialEq, Eq)]
pub struct Opts {
    paths: Vec<PathBuf>,
    paths_toml: Vec<PathBuf>,
    paths_json: Vec<PathBuf>,
    paths_yaml: Vec<PathBuf>,
    /// Directories to read configuration files from.
    pub config_dirs: Vec<PathBuf>,
    /// The name of the output format.
    pub output_format: String,
}

/// The files of one option, each with the format hint of that option.
pub open spec fn files_with_hint(paths: Seq<PathBuf>, hint: Option<Format>) -> Seq<ConfigPath> {
    paths.map_values(|p: PathBuf| ConfigPath::File(p, hint))
}

/// The directories of the directory option.
pub open spec fn directories(paths: Seq<PathBuf>) -> Seq<ConfigPath> {
    paths.map_values(|p: PathBuf| ConfigPath::Dir(p))
}

fn push_files(out: &mut Vec<ConfigPath>, paths: &Vec<PathBuf>, hint: Option<Format>)
    ensures
        final(out)@ == old(out)@ + files_with_hint(paths@, hint),
{
    let ghost before = out@;
    let mut i: usize = 0;
    while i < paths.len()
        invariant
            i <= paths.len(),
            out@ == before + files_with_hint(paths@.take(i as int), hint),
        decreases paths.len() - i,
    {
        out.push(ConfigPath::File(paths[i].clone(), hint));
        i += 1;
    }
    assert(paths@.take(i as int) == paths@);
}

fn push_directories(out: &mut Vec<ConfigPath>, paths: &Vec<PathBuf>)
    ensures
        final(out)@ == old(out)@ + directories(paths@),
{
    let ghost before = out@;
    let mut i: usize = 0;
    while i < paths.len()
        invariant
            i <= paths.len(),
            out@ == before + directories(paths@.take(i as int)),
        decreases paths.len() - i,
    {
        out.push(ConfigPath::Dir(paths[i].clone()));
        i += 1;
    }
    assert(paths@.take(i as int) == paths@);
}

impl Opts {
    /// The files whose format is detected from their names.
    pub closed spec fn paths(&self) -> Seq<PathBuf> {
        self.paths@
    }

    /// The files given as TOML.
    pub closed spec fn paths_toml(&self) -> Seq<PathBuf> {
        self.paths_toml@
    }

    /// The files given as JSON.
    pub closed spec fn paths_json(&self) -> Seq<PathBuf> {
        self.paths_json@
    }

    /// The files given as YAML.
    pub closed spec fn paths_yaml(&self) -> Seq<PathBuf> {
        self.paths_yaml@
    }

    /// The directories to read from.
    pub closed spec fn directories(&self) -> Seq<PathBuf> {
        self.config_dirs@
    }

    /// The characters of the output format's name.
    pub closed spec fn format_name(&self) -> Seq<char> {
        self.output_format@
    }

    /// Options from their parts. Where no output format is given, it is the
    /// default one, `dot`.
    pub fn new(
        paths: Vec<PathBuf>,
        paths_toml: Vec<PathBuf>,
        paths_json: Vec<PathBuf>,
        paths_yaml: Vec<PathBuf>,
        config_dirs: Vec<PathBuf>,
        output_format: Option<String>,
    ) -> (opts: Opts)
        ensures
            opts.paths() == paths@,
            opts.paths_toml() == paths_toml@,
            opts.paths_json() == paths_json@,
            opts.paths_yaml() == paths_yaml@,
            opts.directories() == config_dirs@,
            opts.format_name() == match output_format {
                Some(name) => name@,
                None => name_of(OutputFormat::Dot),
            },
    {
        let output_format = match output_format {
            Some(name) => name,
            None => String::from_str(OutputFormat::default().name()),
        };
        Opts { paths, paths_toml, paths_json, paths_yaml, config_dirs, output_format }
    }

    /// Every configuration path that the options name: the files without a
    /// format, then those given as TOML, as JSON and as YAML, then the
    /// directories; each group in the order it was given.
    pub fn paths_with_formats(&self) -> (all: Vec<ConfigPath>)
        ensures
            all@ == files_with_hint(self.paths(), None) + files_with_hint(
                self.paths_toml(),
                Some(Format::Toml),
            ) + files_with_hint(self.paths_json(), Some(Format::Json)) + files_with_hint(
                self.paths_yaml(),
                Some(Format::Yaml),
            ) + directories(self.directories()),
    {
        let mut all: Vec<ConfigPath> = Vec::new();
        push_files(&mut all, &self.paths, None);
        push_files(&mut all, &self.paths_toml, Some(Format::Toml));
        push_files(&mut all, &self.paths_json, Some(Format::Json));
        push_files(&mut all, &self.paths_yaml, Some(Format::Yaml));
        push_directories(&mut all, &self.config_dirs);
        all
    }

    /// The name of the output format.
    pub fn output_format(self) -> (name: String)
        ensures
            name@ == self.format_name(),
    {
        self.output_format
    }
}

} // verus!
