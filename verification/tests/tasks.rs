use agency::config::{AgencyConfig, AgencyPaths};
use agency::content::{render_task_markdown, split_front_matter};
use agency::task::{
    agent_for_task, branch_name, description_draft_path, edited_description, compute_unique_slug, unique_slug_from_split, MAX_SLUG_PREFIX_CHARS, list_tasks, next_id, normalize_and_validate_slug,
    resolve_id_or_slug, task_file, worktree_dir, worktree_name, ResolveError, SlugError, TaskFrontmatter,
    TaskFrontmatterExt, TaskRef,
};

fn names(v: &[&str]) -> Vec<String> {
    v.iter().map(|s| s.to_string()).collect()
}

fn check_slug_rules() {
    assert_eq!(normalize_and_validate_slug("Alpha World").unwrap(), "alpha-world");
    assert_eq!(normalize_and_validate_slug("alpha_world").unwrap(), "alpha-world");
    assert_eq!(normalize_and_validate_slug("alpha---world").unwrap(), "alpha-world");
    assert!(normalize_and_validate_slug("1invalid").is_err());
    assert!(normalize_and_validate_slug("").is_err());
    assert!(normalize_and_validate_slug("---").is_err());
    assert!(normalize_and_validate_slug("   ").is_err());
    assert!(normalize_and_validate_slug("**").is_err());
}

#[test]
fn task_normalize_and_validate_slug_rules() {
    check_slug_rules();
}

#[test]
fn mod_normalize_and_validate_slug_rules() {
    check_slug_rules();
}

#[test]
fn slug_errors_are_told_apart() {
    assert_eq!(normalize_and_validate_slug("---").unwrap_err(), SlugError::Empty);
    assert_eq!(normalize_and_validate_slug("1invalid").unwrap_err(), SlugError::MustStartWithLetter);
    assert_eq!(SlugError::Empty.message(), "invalid slug: empty after slugify");
    assert_eq!(SlugError::MustStartWithLetter.message(), "invalid slug: must start with a letter");
    assert_eq!(normalize_and_validate_slug("  Task Ünïcode  ").unwrap(), "task-ünïcode");
    assert!(normalize_and_validate_slug("Ünïcode").is_err());
}

fn stored() -> Option<TaskFrontmatter> {
    Some(TaskFrontmatter { agent: None, base_branch: Some("feature-branch".to_string()) })
}

#[test]
fn task_base_branch_or_returns_stored_value() {
    let fm = stored();
    assert_eq!(fm.base_branch_or(|| "fallback".to_string()), "feature-branch");
}

#[test]
fn mod_base_branch_or_returns_stored_value() {
    let fm = stored();
    assert_eq!(fm.base_branch_or(|| "fallback".to_string()), "feature-branch");
}

#[test]
fn task_base_branch_or_uses_fallback_when_none() {
    let fm: Option<TaskFrontmatter> = Some(TaskFrontmatter { agent: None, base_branch: None });
    assert_eq!(fm.base_branch_or(|| "fallback".to_string()), "fallback");
}

#[test]
fn mod_base_branch_or_uses_fallback_when_none() {
    let fm: Option<TaskFrontmatter> = Some(TaskFrontmatter { agent: None, base_branch: None });
    assert_eq!(fm.base_branch_or(|| "fallback".to_string()), "fallback");
}

#[test]
fn task_base_branch_or_uses_fallback_when_no_frontmatter() {
    let fm: Option<TaskFrontmatter> = None;
    assert_eq!(fm.base_branch_or(|| "fallback".to_string()), "fallback");
}

#[test]
fn mod_base_branch_or_uses_fallback_when_no_frontmatter() {
    let fm: Option<TaskFrontmatter> = None;
    assert_eq!(fm.base_branch_or(|| "fallback".to_string()), "fallback");
}

fn cfg_with(agent: Option<&str>) -> AgencyConfig {
    let mut cfg = AgencyConfig::empty();
    cfg.agent = agent.map(|a| a.to_string());
    cfg
}

#[test]
fn agent_for_task_prefers_frontmatter_agent() {
    let cfg = cfg_with(Some("default-agent"));
    let fm = TaskFrontmatter { agent: Some("custom-agent".to_string()), base_branch: None };
    assert_eq!(agent_for_task(&cfg, Some(&fm)), Some("custom-agent".to_string()));
}

#[test]
fn agent_for_task_falls_back_to_config_default() {
    let cfg = cfg_with(Some("default-agent"));
    let fm = TaskFrontmatter { agent: None, base_branch: None };
    assert_eq!(agent_for_task(&cfg, Some(&fm)), Some("default-agent".to_string()));
}

#[test]
fn agent_for_task_returns_none_when_both_missing() {
    let cfg = cfg_with(None);
    let fm = TaskFrontmatter { agent: None, base_branch: None };
    assert_eq!(agent_for_task(&cfg, Some(&fm)), None);
}

#[test]
fn agent_for_task_uses_config_when_no_frontmatter() {
    let cfg = cfg_with(Some("default-agent"));
    assert_eq!(agent_for_task(&cfg, None), Some("default-agent".to_string()));
}

#[test]
fn agent_for_task_returns_none_when_no_frontmatter_and_no_config() {
    let cfg = cfg_with(None);
    assert_eq!(agent_for_task(&cfg, None), None);
}

#[test]
fn task_ref_from_task_file_parses_valid() {
    let task = TaskRef::from_task_file("/tmp/42-example-task.md").expect("should parse");
    assert_eq!(task.id, 42);
    assert_eq!(task.slug, "example-task");
}

#[test]
fn task_ref_from_task_file_handles_single_digit_id() {
    let task = TaskRef::from_task_file("/tmp/1-a.md").expect("should parse");
    assert_eq!(task.id, 1);
    assert_eq!(task.slug, "a");
}

#[test]
fn task_ref_from_task_file_handles_large_id() {
    let task = TaskRef::from_task_file("/tmp/999999-big-task.md").expect("should parse");
    assert_eq!(task.id, 999999);
    assert_eq!(task.slug, "big-task");
}

#[test]
fn task_ref_from_task_file_rejects_missing_extension() {
    assert!(TaskRef::from_task_file("/tmp/5-task").is_none());
}

#[test]
fn task_ref_from_task_file_rejects_wrong_extension() {
    assert!(TaskRef::from_task_file("/tmp/5-task.txt").is_none());
}

#[test]
fn task_ref_from_task_file_rejects_missing_slug() {
    assert!(TaskRef::from_task_file("/tmp/5-.md").is_none());
}

#[test]
fn task_ref_from_task_file_rejects_missing_id() {
    assert!(TaskRef::from_task_file("/tmp/-task.md").is_none());
}

#[test]
fn task_ref_from_task_file_rejects_no_hyphen() {
    assert!(TaskRef::from_task_file("/tmp/5task.md").is_none());
}

#[test]
fn task_ref_from_task_file_rejects_invalid_id() {
    assert!(TaskRef::from_task_file("/tmp/abc-task.md").is_none());
}

#[test]
fn task_ref_from_task_file_handles_slug_with_numbers() {
    let task = TaskRef::from_task_file("/tmp/10-task-v2-final.md").expect("should parse");
    assert_eq!(task.id, 10);
    assert_eq!(task.slug, "task-v2-final");
}

#[test]
fn task_ref_from_task_file_rejects_id_beyond_u32() {
    assert!(TaskRef::from_task_file("/tmp/4294967296-big.md").is_none());
    assert!(TaskRef::from_task_file("/tmp/4294967295-big.md").is_some());
}

fn check_names_and_paths() {
    let task = TaskRef { id: 7, slug: "alpha".to_string() };
    assert_eq!(branch_name(&task), "agency/7-alpha");
    assert_eq!(worktree_name(&task), "7-alpha");
    let paths = AgencyPaths::new("/proj", "/proj");
    assert!(worktree_dir(&paths, &task).ends_with(".agency/worktrees/7-alpha"));
    assert!(task_file(&paths, &task).ends_with(".agency/tasks/7-alpha.md"));
}

#[test]
fn task_resolve_names_and_paths() {
    check_names_and_paths();
}

#[test]
fn mod_resolve_names_and_paths() {
    check_names_and_paths();
}

#[test]
fn compute_unique_slug_examples() {
    assert_eq!(compute_unique_slug(&names(&["1-beta.md"]), "alpha"), "alpha");
    assert_eq!(compute_unique_slug(&names(&["1-alpha.md"]), "alpha"), "alpha2");
    assert_eq!(compute_unique_slug(&names(&["1-alpha2.md"]), "alpha2"), "alpha3");
    assert_eq!(
        compute_unique_slug(&names(&["1-alpha.md", "2-alpha2.md", "3-alpha3.md"]), "alpha"),
        "alpha4"
    );
    assert_eq!(compute_unique_slug(&names(&["notes.txt", "1-alpha.md"]), "alpha"), "alpha2");
}

#[test]
fn unique_slug_is_not_taken() {
    let listing = names(&["1-x.md", "2-x2.md", "3-x7.md", "4-xy.md"]);
    let s = compute_unique_slug(&listing, "x");
    assert_eq!(s, "x8");
    assert!(!listing.iter().any(|n| n == &format!("5-{s}.md")));
}

#[test]
fn next_id_is_one_more_than_the_largest() {
    assert_eq!(next_id(&names(&[])), 1);
    assert_eq!(next_id(&names(&["3-a.md", "10-b.md", "x.md"])), 11);
    assert_eq!(next_id(&names(&["4294967295-a.md"])), u32::MAX);
}

fn check_resolve() {
    let listing = names(&["1-foo.md", "2-bar.md"]);
    let r1 = resolve_id_or_slug(Some(&listing), "1").expect("id 1 present");
    assert_eq!(r1.id, 1);
    assert_eq!(r1.slug, "foo");
    let r2 = resolve_id_or_slug(Some(&listing), "bar").expect("slug bar present");
    assert_eq!(r2.id, 2);
    assert_eq!(r2.slug, "bar");
    assert!(resolve_id_or_slug(Some(&listing), "baz").is_err());
}

#[test]
fn task_resolve_id_or_slug_by_id_and_slug() {
    check_resolve();
}

#[test]
fn mod_resolve_id_or_slug_by_id_and_slug() {
    check_resolve();
}

#[test]
fn resolve_errors_are_told_apart() {
    let listing = names(&["1-foo.md"]);
    assert_eq!(resolve_id_or_slug(None, "1").unwrap_err(), ResolveError::TasksDirMissing);
    assert_eq!(resolve_id_or_slug(Some(&listing), "99999999999").unwrap_err(), ResolveError::InvalidId);
    assert_eq!(resolve_id_or_slug(Some(&listing), "").unwrap_err(), ResolveError::InvalidId);
    assert_eq!(resolve_id_or_slug(Some(&listing), "7").unwrap_err(), ResolveError::IdNotFound);
    assert_eq!(resolve_id_or_slug(Some(&listing), "nope").unwrap_err(), ResolveError::SlugNotFound);
}

#[test]
fn list_tasks_skips_other_files() {
    let got = list_tasks(&names(&["2-b.md", "notes.txt", "1-a.md"]));
    assert_eq!(got.len(), 2);
    assert_eq!(got[0], TaskRef { id: 2, slug: "b".to_string() });
    assert_eq!(got[1], TaskRef { id: 1, slug: "a".to_string() });
}

fn check_with_agent() {
    let input = "---\nagent: sh\n---\n\n# Task 1: alpha\n";
    let (fm, body) = split_front_matter(input).expect("front matter present");
    assert_eq!(fm, "agent: sh");
    assert!(body.starts_with("\n# Task 1: alpha\n") || body.starts_with("# Task 1: alpha\n"));
}

#[test]
fn task_parse_task_markdown_with_agent() {
    check_with_agent();
}

#[test]
fn mod_parse_task_markdown_with_agent() {
    check_with_agent();
}

#[test]
fn task_parse_task_markdown_without_front_matter() {
    assert!(split_front_matter("# Task 2: beta\n").is_none());
}

#[test]
fn mod_parse_task_markdown_without_front_matter() {
    assert!(split_front_matter("# Task 2: beta\n").is_none());
}

#[test]
fn task_parse_task_markdown_ignores_unclosed_block() {
    assert!(split_front_matter("---\nagent: sh\n# Task 3: gamma\n").is_none());
}

#[test]
fn mod_parse_task_markdown_ignores_unclosed_block() {
    assert!(split_front_matter("---\nagent: sh\n# Task 3: gamma\n").is_none());
}

#[test]
fn rendered_task_reads_back() {
    let text = render_task_markdown(Some("agent: agent-one\nbase_branch: main"), "Implement the feature\nwith bullet points\n");
    assert_eq!(text, "---\nagent: agent-one\nbase_branch: main\n---\nImplement the feature\nwith bullet points\n");
    let (fm, body) = split_front_matter(&text).unwrap();
    assert_eq!(fm, "agent: agent-one\nbase_branch: main");
    assert_eq!(body, "Implement the feature\nwith bullet points\n");
}

#[test]
fn render_adds_final_newline() {
    assert_eq!(render_task_markdown(None, "Single line body"), "Single line body\n");
    assert_eq!(render_task_markdown(None, ""), "");
}

#[test]
fn parses_valid_task_file() {
    let tf = TaskRef::from_task_file("/tmp/agency-tests/12-sample-task.md").expect("should parse valid");
    assert_eq!(tf.id, 12);
    assert_eq!(tf.slug, "sample-task");
}

#[test]
fn write_and_read_task_content_without_header() {
    let body = "Implement the feature\nwith bullet points\n";
    let stored = render_task_markdown(Some("agent: agent-one\nbase_branch: main"), body);
    assert!(!stored.contains("# Sample Task"), "stored content should not contain generated headers");
    let (fm, read_body) = split_front_matter(&stored).expect("front matter present");
    assert_eq!(fm, "agent: agent-one\nbase_branch: main");
    assert_eq!(read_body, body);
}

#[test]
fn write_task_content_preserves_trailing_newline() {
    let stored = render_task_markdown(None, "Single line body");
    assert!(stored.ends_with('\n'), "stored body should end with newline, got: {stored:?}");
    assert_eq!(stored, "Single line body\n");
}

#[test]
fn resolve_error_messages() {
    assert_eq!(ResolveError::TasksDirMissing.message("/p/.agency/tasks", "3"), "tasks dir not found at /p/.agency/tasks");
    assert_eq!(ResolveError::InvalidId.message("/p/.agency/tasks", "99999999999"), "invalid id");
    assert_eq!(ResolveError::IdNotFound.message("/p/.agency/tasks", "7"), "task with id 7 not found");
    assert_eq!(ResolveError::SlugNotFound.message("/p/.agency/tasks", "alpha"), "task with slug alpha not found");
}

#[test]
fn description_draft_lives_in_state_dir() {
    let paths = AgencyPaths::new("/proj", "/proj");
    let task = TaskRef { id: 5, slug: "fix-login".to_string() };
    assert_eq!(description_draft_path(&paths, &task), "/proj/.agency/state/5-fix-login.desc.md");
}

#[test]
fn blank_edited_description_is_none() {
    assert_eq!(edited_description("  \n\t".to_string()), None);
    assert_eq!(edited_description(" Do it\n".to_string()), Some(" Do it\n".to_string()));
}

#[test]
fn longest_slug_prefix_builds_its_pattern() {
    let long: String = std::iter::repeat('\u{1F600}').take(MAX_SLUG_PREFIX_CHARS - 2).chain("a+".chars()).collect();
    assert_eq!(long.chars().count(), MAX_SLUG_PREFIX_CHARS);
    let taken = vec![format!("1-{long}.md"), format!("2-{long}7.md")];
    assert_eq!(compute_unique_slug(&taken, &long), format!("{long}8"));
}

#[test]
fn unique_slug_from_a_given_split() {
    let taken = names(&["1-alpha.md", "2-alpha3.md"]);
    assert_eq!(unique_slug_from_split(&taken, "alpha", None), "alpha4");
    assert_eq!(
        unique_slug_from_split(&taken, "alpha3", Some(("alpha".to_string(), "3".to_string()))),
        "alpha4"
    );
    assert_eq!(unique_slug_from_split(&taken, "beta", Some(("x".to_string(), "1".to_string()))), "beta");
}

#[test]
fn task_file_path_reads_back_as_the_task() {
    let paths = AgencyPaths::new("/proj", "/proj");
    for t in [TaskRef { id: 7, slug: "alpha".to_string() }, TaskRef { id: 0, slug: "x.y".to_string() }] {
        let path = task_file(&paths, &t);
        assert_eq!(TaskRef::from_task_file(&path), Some(t.clone()));
    }
}
