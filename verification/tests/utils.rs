use llm_tui::utils::{
    first_project_name, spinner_ascii_frames, spinner_braille_frames, spinner_cc_macos_frames,
    spinner_dots_frames,
};
use llm_tui::utils::{
    detect_project_name, detect_project_type, parse_manifest_name, readme_summary, spinner_frame,
    ProjectFiles,
};

fn no_files() -> ProjectFiles {
    ProjectFiles {
        cargo_toml: None,
        package_json: None,
        pyproject_toml: None,
        has_cargo_toml: false,
        has_package_json: false,
        has_pyproject_toml: false,
        dir_name: None,
        readme: None,
        agents_md: None,
    }
}

#[test]
fn spinner_cycles_every_ten_ticks() {
    assert_eq!(spinner_frame(0), "⠋");
    assert_eq!(spinner_frame(1), "⠙");
    assert_eq!(spinner_frame(9), "⠏");
    assert_eq!(spinner_frame(10), "⠋");
    assert_eq!(spinner_frame(255), "⠴");
}

#[test]
fn manifest_name_from_cargo_toml() {
    assert_eq!(
        parse_manifest_name("[package]\nname = \"llm-tui\"\nversion = \"0.1.0\"\n"),
        Some("llm-tui".to_string())
    );
    assert_eq!(parse_manifest_name("  name=\"\"\"x\"\"\r\n"), Some("x".to_string()));
    assert_eq!(parse_manifest_name("name = a = b\n"), Some("a".to_string()));
    assert_eq!(parse_manifest_name("[package]\nversion = \"1\"\n"), None);
    assert_eq!(parse_manifest_name(""), None);
}

#[test]
fn manifest_name_takes_first_line_starting_with_name() {
    assert_eq!(parse_manifest_name("name_x = 1\nname = \"y\"\n"), Some("1".to_string()));
    assert_eq!(parse_manifest_name("names\nname = \"y\"\n"), None);
    assert_eq!(parse_manifest_name("\n\tname = \"last\""), Some("last".to_string()));
}

#[test]
fn project_name_prefers_cargo_then_package_then_pyproject_then_dir() {
    let mut f = no_files();
    assert_eq!(detect_project_name(&f), "unknown");
    f.dir_name = Some("dir".into());
    assert_eq!(detect_project_name(&f), "dir");
    f.pyproject_toml = Some("[project]\nname = \"py\"\n".into());
    assert_eq!(detect_project_name(&f), "py");
    f.package_json = Some("{\"name\": \"js\", \"version\": \"1.0.0\"}".into());
    assert_eq!(detect_project_name(&f), "js");
    f.cargo_toml = Some("[package]\nname = \"rs\"\n".into());
    assert_eq!(detect_project_name(&f), "rs");
}

#[test]
fn project_name_falls_through_unusable_files() {
    let mut f = no_files();
    f.cargo_toml = Some("[workspace]\n".into());
    f.package_json = Some("{\"name\": 3}".into());
    f.pyproject_toml = Some("not toml".into());
    f.dir_name = Some("fallback".into());
    assert_eq!(detect_project_name(&f), "fallback");
}

#[test]
fn project_type_by_first_existing_manifest() {
    let mut f = no_files();
    assert_eq!(detect_project_type(&f), "unknown");
    f.has_pyproject_toml = true;
    assert_eq!(detect_project_type(&f), "python");
    f.has_package_json = true;
    assert_eq!(detect_project_type(&f), "node");
    f.has_cargo_toml = true;
    assert_eq!(detect_project_type(&f), "rust");
}

#[test]
fn readme_summary_takes_first_characters() {
    assert_eq!(readme_summary(None, 500), "");
    assert_eq!(readme_summary(Some("short"), 500), "short");
    assert_eq!(readme_summary(Some("héllo wörld"), 4), "héll");
    assert_eq!(readme_summary(Some("abc"), 0), "");
}

#[test]
fn first_project_name_order() {
    let s = |x: &str| Some(x.to_string());
    assert_eq!(first_project_name(s("a"), s("b"), s("c"), s("d")), "a");
    assert_eq!(first_project_name(None, s("b"), s("c"), s("d")), "b");
    assert_eq!(first_project_name(None, None, s("c"), s("d")), "c");
    assert_eq!(first_project_name(None, None, None, s("d")), "d");
    assert_eq!(first_project_name(None, None, None, None), "unknown");
}

#[test]
fn spinner_frame_sets() {
    assert_eq!(
        spinner_braille_frames(),
        vec!["⠋", "⠙", "⠹", "⠸", "⠼", "⠴", "⠦", "⠧", "⠇", "⠏"]
    );
    assert_eq!(spinner_dots_frames(), vec!["⣾", "⣽", "⣻", "⢿", "⡿", "⣟", "⣯", "⣷"]);
    assert_eq!(spinner_cc_macos_frames(), vec![".", "+", "*", "*", "*", "*"]);
    assert_eq!(spinner_ascii_frames(), vec!["-", "\\", "|", "/"]);
    for t in 0..30 {
        assert_eq!(spinner_frame(t), spinner_braille_frames()[t % 10]);
    }
}
