use openansys_agent::skills::{
    arrange_skills, default_skill_roots, parse_skill_frontmatter, render_skills_section,
    trim_yaml_scalar, SkillBase, SkillMetadata, SKILLS_INTRO, SKILLS_RULES,
};

fn skill(dir: &[&str], name: &str) -> SkillMetadata {
    SkillMetadata {
        dir_path: dir.iter().map(|part| part.to_string()).collect(),
        path_to_skills_md: format!("/{}/SKILL.md", dir.join("/")),
        name: name.to_string(),
        description: "d".to_string(),
    }
}

#[test]
fn parses_skill_frontmatter() {
    let text = "\
---
name: pdf-processing
description: Extract PDF text, fill forms, merge files.
---

# PDF Processing
";

    let parsed = parse_skill_frontmatter(text);
    assert_eq!(
        parsed,
        Some((
            "pdf-processing".to_string(),
            "Extract PDF text, fill forms, merge files.".to_string()
        ))
    );
}

#[test]
fn renders_skills_section() {
    let rendered = render_skills_section(&vec![SkillMetadata {
        dir_path: vec!["/".to_string(), "tmp".to_string(), "pdf-processing".to_string()],
        path_to_skills_md: "/tmp/pdf-processing/SKILL.md".to_string(),
        name: "pdf-processing".to_string(),
        description: "Extract PDF text.".to_string(),
    }])
    .expect("skills section");

    assert!(rendered.contains("## Skills"));
    assert!(
        rendered.contains(
            "- pdf-processing: Extract PDF text. (file: /tmp/pdf-processing/SKILL.md)"
        )
    );
}

#[test]
fn renders_whole_section_with_forward_slashes() {
    let mut one = skill(&["a"], "n");
    one.path_to_skills_md = "C:\\s\\SKILL.md".to_string();
    let rendered = render_skills_section(&vec![one]).expect("section");
    let expected = format!(
        "## Skills\n{}\n### Available Skills\n- n: d (file: C:/s/SKILL.md)\n### How To Use Skills\n{}",
        SKILLS_INTRO, SKILLS_RULES
    );
    assert_eq!(rendered, expected);
    assert!(render_skills_section(&Vec::new()).is_none());
}

#[test]
fn frontmatter_needs_fence_name_and_description() {
    assert_eq!(parse_skill_frontmatter(""), None);
    assert_eq!(parse_skill_frontmatter("name: a\ndescription: b\n"), None);
    assert_eq!(parse_skill_frontmatter("---\nname: a\n---\ndescription: b\n"), None);
    assert_eq!(parse_skill_frontmatter("---\nname:\ndescription: b\n---\n"), None);
    assert_eq!(
        parse_skill_frontmatter(" --- \r\n  name: \"a\"\r\nname: 'c'\r\nname:\r\ndescription: b"),
        Some(("c".to_string(), "b".to_string()))
    );
}

#[test]
fn trims_yaml_scalars() {
    assert_eq!(trim_yaml_scalar("  \"'x y' \"  "), "x y'");
    assert_eq!(trim_yaml_scalar(" \"\"'x'\"\" "), "x");
    assert_eq!(trim_yaml_scalar("''"), "");
}

#[test]
fn arranges_skills_by_name_and_directory() {
    let found = vec![
        skill(&["r", "z"], "b"),
        skill(&["r", "b"], "a"),
        skill(&["r", "a"], "a"),
        skill(&["r", "z"], "b"),
    ];
    let arranged = arrange_skills(found);
    let dirs: Vec<String> = arranged.iter().map(|s| s.dir_path.join("/")).collect();
    assert_eq!(dirs, vec!["r/a", "r/b", "r/z"]);
    assert!(arrange_skills(Vec::new()).is_empty());
}

#[test]
fn looks_for_skills_in_workspace_and_home() {
    let with_home = default_skill_roots(true);
    assert_eq!(
        with_home,
        vec![
            (SkillBase::Workspace, ".mini-codex/skills"),
            (SkillBase::Workspace, ".agents/skills"),
            (SkillBase::Home, ".mini-codex/skills"),
            (SkillBase::Home, ".agents/skills"),
        ]
    );
    assert_eq!(default_skill_roots(false).len(), 2);
}
