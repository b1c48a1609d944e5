use llm_tui::prompt::{PromptContext, BOUNDARY};
use llm_tui::utils::ProjectFiles;

#[test]
fn system_prompt_contains_boundary() {
    let ctx = PromptContext::new("/projects/foo", "bar", "test project", "rust", Some("be helpful"));

    let msg = ctx.system_prompt(None);
    assert_eq!(msg.role, "system");
    assert!(msg.content.contains(BOUNDARY))
}

#[test]
fn system_prompt_omits_empty_summary() {
    let ctx = PromptContext::new("/tmp", "x", "", "rust", None);
    let msg = ctx.system_prompt(None);
    assert!(!msg.content.contains("# project summary"));
}

#[test]
fn system_prompt_includes_agents_md() {
    let ctx = PromptContext::new("/tmp", "x", "summary", "rust", Some("be aggressive"));
    let msg = ctx.system_prompt(None);
    assert!(msg.content.contains("be aggressive"));
    assert!(msg.content.contains("project instructions(agents.md)"));
}

#[test]
fn new_constructor_maps_fields() {
    let ctx = PromptContext::new("/a", "b", "c", "d", Some("e"));
    assert_eq!(ctx.cwd, "/a");
    assert_eq!(ctx.project_name, "b");
    assert_eq!(ctx.project_summary, "c");
    assert_eq!(ctx.project_type, "d");
    assert_eq!(ctx.agents_md, Some("e".into()));
}

#[test]
fn system_prompt_exact_text() {
    let ctx = PromptContext::new("/w", "p", "", "rust", None);
    let msg = ctx.system_prompt(None);
    assert_eq!(
        msg.content,
        "You are a helpful coding assistant\n\n__SYSTEM_PROMPT_DYNAMIC_BOUNDARY__\n\n# Environment\n- Working Directory: /w\n- Project: p\n- Project Type: rust"
    );
}

#[test]
fn system_prompt_with_all_sections_and_static_file() {
    let ctx = PromptContext::new("/w", "p", "A summary.", "node", Some("Rule one.\n\n"));
    let msg = ctx.assemble_system_message("  Be brief.\n");
    assert_eq!(
        msg.content,
        "Be brief.\n\n__SYSTEM_PROMPT_DYNAMIC_BOUNDARY__\n\n# Environment\n- Working Directory: /w\n- Project: p\n- Project Type: node\n\n# Project Summary\nA summary.\n\n# project instructions(agents.md)\nRule one."
    );
    assert_eq!(ctx.system_prompt(Some("  Be brief.\n")), msg);
}

#[test]
fn from_path_collects_context() {
    let files = ProjectFiles {
        cargo_toml: Some("[package]\nname = \"llm-tui\"\nversion = \"0.1.0\"\n".into()),
        package_json: None,
        pyproject_toml: None,
        has_cargo_toml: true,
        has_package_json: false,
        has_pyproject_toml: false,
        dir_name: Some("checkout".into()),
        readme: Some("é".repeat(600)),
        agents_md: Some("be kind".into()),
    };
    let ctx = PromptContext::from_path("/home/me/llm-tui", &files);
    assert_eq!(ctx.cwd, "/home/me/llm-tui");
    assert_eq!(ctx.project_name, "llm-tui");
    assert_eq!(ctx.project_type, "rust");
    assert_eq!(ctx.project_summary, "é".repeat(500));
    assert_eq!(ctx.agents_md, Some("be kind".into()));
}
