use elixir_provider::manifest::scan;
use elixir_provider::provider::{DEFAULT_ELIXIR_PKG_NAME, MANIFEST_FILE};
use elixir_provider::version::{available_elixir_versions, closest_catalog_package, extract_release_line};
use elixir_provider::{ElixirProvider, MixProject, ReleaseLine, Superglobals};

const SCENARIO_ONE: &str = "defmodule MyApp.MixProject do
  use Mix.Project

  def project do
    [
      app: :my_app,
      version: \"0.1.0\",
      elixir: \"~> 1.12\",
      start_permanent: Mix.env() == :prod,
      deps: deps()
    ]
  end
end
";

const SCENARIO_TWO: &str = "defmodule Demo.MixProject do
  use Mix.Project

  @version \"1.10\"

  def project do
    [
      app: :demo,
      elixir: version,
      escript: [main_module: Demo.CLI],
      deps: deps()
    ]
  end
end
";

const SCENARIO_THREE: &str = "defmodule Plain.MixProject do
  use Mix.Project

  def project do
    [
      app: :plain,
      version: \"0.2.0\",
      deps: deps()
    ]
  end
end
";

fn project(app: Option<&str>, version: Option<&str>, escript: bool) -> MixProject {
    MixProject {
        app_name: app.map(|s| s.to_string()),
        elixir_version: version.map(|s| s.to_string()),
        is_escript: escript,
    }
}

#[test]
fn scenario_app_and_version_without_escript() {
    let parsed = ElixirProvider::parse_mix_project(Some(SCENARIO_ONE)).unwrap();
    assert_eq!(parsed.app_name.as_deref(), Some(":my_app"));
    assert_eq!(parsed.elixir_version.as_deref(), Some("\"~> 1.12\""));
    assert!(!parsed.is_escript);
    // Only one digit is read on each side of the point: "1.12" names 1.1,
    // which the oldest catalog line covers.
    assert_eq!(ElixirProvider::get_nix_elixir_pkg(Some(parsed.clone())), "elixir_1_9");
    let p = Some(parsed);
    assert_eq!(ElixirProvider::build_command(&p), None);
    assert_eq!(ElixirProvider::start_command(&p), "mix run --no-halt");
}

#[test]
fn scenario_superglobal_version_with_escript() {
    let parsed = ElixirProvider::parse_mix_project(Some(SCENARIO_TWO)).unwrap();
    assert_eq!(parsed.app_name.as_deref(), Some(":demo"));
    assert_eq!(parsed.elixir_version.as_deref(), Some("1.10"));
    assert!(parsed.is_escript);
    assert_eq!(ElixirProvider::get_nix_elixir_pkg(Some(parsed.clone())), "elixir_1_9");
    let p = Some(parsed);
    assert_eq!(ElixirProvider::build_command(&p).as_deref(), Some("mix escript.build"));
    assert_eq!(ElixirProvider::start_command(&p), "./demo");
}

#[test]
fn scenario_no_version_key_uses_default() {
    let parsed = ElixirProvider::parse_mix_project(Some(SCENARIO_THREE)).unwrap();
    assert_eq!(parsed.app_name.as_deref(), Some(":plain"));
    assert_eq!(parsed.elixir_version, None);
    assert!(!parsed.is_escript);
    assert_eq!(ElixirProvider::get_nix_elixir_pkg(Some(parsed)), "elixir");
    let env = ElixirProvider::get_elixir_environment_variables();
    assert_eq!(env, vec![("MIX_ENV".to_string(), "prod".to_string())]);
}

#[test]
fn missing_manifest_gives_no_record() {
    assert!(ElixirProvider::parse_mix_project(None).is_none());
    assert_eq!(ElixirProvider::get_nix_elixir_pkg(None), DEFAULT_ELIXIR_PKG_NAME);
    assert_eq!(ElixirProvider::build_command(&None), None);
    assert_eq!(ElixirProvider::start_command(&None), "mix run --no-halt");
    assert_eq!(MANIFEST_FILE, "mix.exs");
}

#[test]
fn superglobal_value_replaces_its_name() {
    let text = "@target \"1.11\"\n  elixir: target,\n  app: other,\n";
    let parsed = scan(text);
    assert_eq!(parsed.elixir_version.as_deref(), Some("1.11"));
    assert_eq!(parsed.app_name.as_deref(), Some("other"));
}

#[test]
fn later_declarations_win() {
    let text = "@v \"1.9\"\n@v \"2.0\"\n  app: :first,\n  app: :second,\n  elixir: v,\n";
    let parsed = scan(text);
    assert_eq!(parsed.app_name.as_deref(), Some(":second"));
    assert_eq!(parsed.elixir_version.as_deref(), Some("2.0"));
    assert_eq!(ElixirProvider::get_nix_elixir_pkg(Some(parsed)), "elixir");
}

#[test]
fn escript_flag_ignores_its_value() {
    let parsed = scan("  escript: false,\n");
    assert!(parsed.is_escript);
    assert_eq!(parsed.app_name, None);
    let p = Some(parsed);
    assert_eq!(ElixirProvider::build_command(&p), None);
    assert_eq!(ElixirProvider::start_command(&p), "mix run --no-halt");
}

#[test]
fn scanning_twice_gives_the_same_record() {
    let a = scan(SCENARIO_TWO);
    let b = scan(SCENARIO_TWO);
    assert_eq!(a.app_name, b.app_name);
    assert_eq!(a.elixir_version, b.elixir_version);
    assert_eq!(a.is_escript, b.is_escript);
}

#[test]
fn unknown_keys_and_empty_text_leave_defaults() {
    let parsed = scan("");
    assert_eq!(parsed.app_name, None);
    assert_eq!(parsed.elixir_version, None);
    assert!(!parsed.is_escript);
    let parsed = scan("  deps: deps()\n");
    assert_eq!(parsed.app_name, None);
    assert_eq!(parsed.elixir_version, None);
}

#[test]
fn superglobal_table_and_lookup() {
    let mut table = Superglobals::new();
    assert_eq!(table.get(&"x".to_string()), None);
    table.insert("x".to_string(), "1".to_string());
    table.insert("y".to_string(), "2".to_string());
    table.insert("x".to_string(), "3".to_string());
    assert_eq!(table.get(&"x".to_string()).as_deref(), Some("3"));
    assert_eq!(table.get(&"y".to_string()).as_deref(), Some("2"));
    assert_eq!(
        ElixirProvider::parse_with_superglobal(&table, &"y".to_string()).as_deref(),
        Some("2")
    );
    assert_eq!(
        ElixirProvider::parse_with_superglobal(&table, &"z".to_string()).as_deref(),
        Some("z")
    );
}

#[test]
fn release_line_reads_one_digit_each_side() {
    assert_eq!(extract_release_line("~> 1.12"), Some(ReleaseLine { major: 1, minor: 1 }));
    assert_eq!(extract_release_line("v 0.7.3"), Some(ReleaseLine { major: 0, minor: 7 }));
    assert_eq!(extract_release_line("1x2 then 3.4"), Some(ReleaseLine { major: 3, minor: 4 }));
    assert_eq!(extract_release_line("latest"), None);
    assert_eq!(extract_release_line(""), None);
}

#[test]
fn version_expression_resolution() {
    let v = |s: &str| ElixirProvider::get_closest_version(&s.to_string());
    assert_eq!(v("1.9").as_deref(), Some("elixir_1_9"));
    assert_eq!(v("~> 1.5").as_deref(), Some("elixir_1_9"));
    assert_eq!(v("0.1").as_deref(), Some("elixir_1_9"));
    assert_eq!(v("2.0"), None);
    assert_eq!(v("latest"), None);
    let p = project(None, Some("latest"), false);
    assert_eq!(ElixirProvider::get_nix_elixir_pkg(Some(p)), "elixir");
}

#[test]
fn exact_floor_resolves_to_its_entry() {
    let catalog = available_elixir_versions();
    let expected = ["elixir_1_9", "elixir_1_10", "elixir_1_11", "elixir_1_12", "elixir"];
    for (entry, name) in catalog.iter().zip(expected.iter()) {
        assert_eq!(entry.package, *name);
        assert_eq!(closest_catalog_package(entry.floor, &catalog).as_deref(), Some(*name));
    }
}

#[test]
fn resolution_between_and_past_floors() {
    let catalog = available_elixir_versions();
    let line = |major: u8, minor: u8| ReleaseLine { major, minor };
    assert_eq!(closest_catalog_package(line(1, 0), &catalog).as_deref(), Some("elixir_1_9"));
    assert_eq!(closest_catalog_package(line(1, 14), &catalog), None);
    assert_eq!(closest_catalog_package(line(2, 0), &catalog), None);
    assert_eq!(closest_catalog_package(line(1, 0), &Vec::new()), None);
}

#[test]
fn resolution_is_monotonic() {
    let catalog = available_elixir_versions();
    let floor_of = |pkg: &Option<String>| {
        pkg.as_ref()
            .map(|p| catalog.iter().position(|e| &e.package == p).unwrap())
    };
    let mut lines = Vec::new();
    for major in 0..3u8 {
        for minor in 0..16u8 {
            lines.push(ReleaseLine { major, minor });
        }
    }
    for i in 0..lines.len() {
        for j in i + 1..lines.len() {
            let a = floor_of(&closest_catalog_package(lines[i], &catalog));
            let b = floor_of(&closest_catalog_package(lines[j], &catalog));
            match (a, b) {
                (Some(x), Some(y)) => assert!(x <= y),
                (None, b) => assert_eq!(b, None),
                (Some(_), None) => {}
            }
        }
    }
}

#[test]
fn executable_name_drops_first_character() {
    let p = Some(project(Some(":tool"), None, true));
    assert_eq!(ElixirProvider::start_command(&p), "./tool");
    let p = Some(project(Some("é_app"), None, true));
    assert_eq!(ElixirProvider::start_command(&p), "./_app");
    let p = Some(project(Some(""), None, true));
    assert_eq!(ElixirProvider::start_command(&p), "./");
}

#[test]
fn fixed_commands() {
    assert_eq!(ElixirProvider::install_command(), "mix deps.get");
    assert_eq!(ElixirProvider {}.name(), "elixir");
}
