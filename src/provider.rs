//! The Elixir provider: from a manifest's record to the toolchain package,
//! the commands of each phase and the environment.
use vstd::prelude::*;
use vstd::string::*;
use crate::manifest::{
    resolve_superglobal, scan, scan_manifest, MixProject, MixProjectModel, Superglobals,
};
use crate::version::{
    available_elixir_versions, closest_catalog_package, closest_package, elixir_catalog,
    extract_release_line, lemma_resolution_past_every_floor, opt_string_view, release_line_in,
    ReleaseLine,
};

verus! {

/// The name of the manifest file at a project's root.
pub const MANIFEST_FILE: &'static str = "mix.exs";

/// The package installed when the manifest names no version that the catalog
/// covers.
pub const DEFAULT_ELIXIR_PKG_NAME: &'static str = "elixir";

/// The package that a version expression resolves to: the catalog entry of
/// the release line that it names, if it names one and the catalog covers it.
pub open spec fn closest_elixir_package(expr: Seq<char>) -> Option<Seq<char>> {
    match release_line_in(expr) {
        Some(v) => closest_package(elixir_catalog(), v),
        None => None,
    }
}

/// The package to install for a manifest's record (`None`: no manifest).
pub open spec fn nix_package_for(project: Option<MixProjectModel>) -> Seq<char> {
    match project {
        Some(p) => match p.elixir_version {
            Some(e) => match closest_elixir_package(e) {
                Some(pkg) => pkg,
                None => "elixir"@,
            },
            None => "elixir"@,
        },
        None => "elixir"@,
    }
}

/// The view of an optional record.
pub open spec fn opt_project_view(p: Option<MixProject>) -> Option<MixProjectModel> {
    match p {
        Some(m) => Some(m@),
        None => None,
    }
}

/// The project compiles to a single executable: the build mode is declared
/// and the application has a name.
pub open spec fn builds_executable(project: Option<MixProjectModel>) -> bool {
    match project {
        Some(p) => p.is_escript && p.app_name is Some,
        None => false,
    }
}

/// The name of the executable of an application: its name without the first
/// character (the `:` of an atom).
pub open spec fn executable_name(app_name: Seq<char>) -> Seq<char> {
    if app_name.len() == 0 {
        app_name
    } else {
        app_name.subrange(1, app_name.len() as int)
    }
}

/// The command that starts the project.
pub open spec fn start_command_for(project: Option<MixProjectModel>) -> Seq<char> {
    if builds_executable(project) {
        "./"@ + executable_name(project->0.app_name->0)
    } else {
        "mix run --no-halt"@
    }
}

/// A manifest whose version names a release line newer than every line of
/// the catalog gets the default package.
pub proof fn lemma_newer_than_catalog_uses_default(project: MixProjectModel, line: ReleaseLine)
    requires
        project.elixir_version is Some,
        release_line_in(project.elixir_version->0) == Some(line),
        forall|j: int|
            0 <= j < elixir_catalog().len() ==> (#[trigger] elixir_catalog()[j]).0.spec_older(line),
    ensures
        nix_package_for(Some(project)) == "elixir"@,
{
    lemma_resolution_past_every_floor(elixir_catalog(), line);
}

/// The provider for Elixir projects, which carry a `mix.exs` manifest.
pub struct ElixirProvider {}

impl ElixirProvider {
    /// The provider's name.
    pub fn name(&self) -> (r: &'static str)
        ensures
            r@ == "elixir"@,
    {
        "elixir"
    }

    /// The environment of every phase: the production build mode.
    pub fn get_elixir_environment_variables() -> (r: Vec<(String, String)>)
        ensures
            r@.len() == 1,
            r@[0].0@ == "MIX_ENV"@,
            r@[0].1@ == "prod"@,
    {
        let mut vars: Vec<(String, String)> = Vec::new();
        vars.push(("MIX_ENV".to_owned(), "prod".to_owned()));
        vars
    }

    /// The record of a manifest, given its text, or `None` where the project
    /// has no manifest.
    pub fn parse_mix_project(contents: Option<&str>) -> (r: Option<MixProject>)
        ensures
            match contents {
                Some(text) => r is Some && r->0@ == scan_manifest(text@),
                None => r is None,
            },
    {
        match contents {
            Some(text) => Some(scan(text)),
            None => None,
        }
    }

    /// `value`, or the literal of the constant that it names.
    pub fn parse_with_superglobal(superglobals: &Superglobals, value: &String) -> (r: Option<String>)
        ensures
            r is Some,
            r->0@ == resolve_superglobal(superglobals@, value@),
    {
        Some(superglobals.resolve(value))
    }

    /// The catalog package for a version expression: the first entry whose
    /// floor is not older than the release line that the expression names;
    /// `None` where it names none or is newer than every floor.
    pub fn get_closest_version(version: &String) -> (r: Option<String>)
        ensures
            opt_string_view(r) == closest_elixir_package(version@),
    {
        match extract_release_line(version.as_str()) {
            Some(line) => {
                let catalog = available_elixir_versions();
                closest_catalog_package(line, &catalog)
            },
            None => None,
        }
    }

    /// The package to install: the one that the manifest's version resolves
    /// to, else the default package.
    pub fn get_nix_elixir_pkg(mix_project: Option<MixProject>) -> (r: String)
        ensures
            r@ == nix_package_for(opt_project_view(mix_project)),
    {
        if let Some(project) = mix_project {
            if let Some(elixir_version) = project.elixir_version {
                if let Some(pkg) = ElixirProvider::get_closest_version(&elixir_version) {
                    return pkg;
                }
            }
        }
        DEFAULT_ELIXIR_PKG_NAME.to_owned()
    }

    /// The command that fetches the dependencies.
    pub fn install_command() -> (r: String)
        ensures
            r@ == "mix deps.get"@,
    {
        "mix deps.get".to_owned()
    }

    /// The command that builds the executable, where the project builds one.
    pub fn build_command(mix_project: &Option<MixProject>) -> (r: Option<String>)
        ensures
            builds_executable(opt_project_view(*mix_project)) ==> r is Some && r->0@
                == "mix escript.build"@,
            !builds_executable(opt_project_view(*mix_project)) ==> r is None,
    {
        if let Some(project) = mix_project {
            if project.is_escript && project.app_name.is_some() {
                return Some("mix escript.build".to_owned());
            }
        }
        None
    }

    /// The command that starts the project: its executable where it builds
    /// one, else the application kept running.
    pub fn start_command(mix_project: &Option<MixProject>) -> (r: String)
        ensures
            r@ == start_command_for(opt_project_view(*mix_project)),
    {
        if let Some(project) = mix_project {
            if project.is_escript {
                if let Some(app_name) = &project.app_name {
                    let name = app_name.as_str();
                    let n = name.unicode_len();
                    let mut command = "./".to_owned();
                    if n > 0 {
                        command.append(name.substring_char(1, n));
                    }
                    return command;
                }
            }
        }
        "mix run --no-halt".to_owned()
    }
}

} // verus!
