use agent_framework::skills::{
    find_skill, parse_frontmatter, FileSkillSource, InMemorySkillSource, Skill, SkillsProvider,
};

fn skill(name: &str, description: &str, instructions: Option<&str>) -> Skill {
    Skill {
        name: name.to_string(),
        description: description.to_string(),
        instructions: instructions.map(|t| t.to_string()),
        resources: Vec::new(),
    }
}

#[test]
fn parse_frontmatter_extracts_fields() {
    let content = "---\nname: test-skill\ndescription: A test\n---\nBody here";
    let (fm, body) = parse_frontmatter(content);
    assert_eq!(fm.get("name").unwrap(), "test-skill");
    assert_eq!(fm.get("description").unwrap(), "A test");
    assert!(body.contains("Body here"));
}

#[test]
fn parse_frontmatter_no_delimiter() {
    let content = "Just plain text";
    let (fm, body) = parse_frontmatter(content);
    assert!(fm.is_empty());
    assert_eq!(body, content);
}

#[test]
fn in_memory_source_works() {
    let source = InMemorySkillSource::new().add(skill("greet", "Greet users", Some("Always say hello first.")));
    let skills = source.list_skills();
    assert_eq!(skills.len(), 1);
    assert_eq!(skills[0].name, "greet");
    let found = source.get_skill("greet");
    assert!(found.is_some());
    let missing = source.get_skill("nonexistent");
    assert!(missing.is_none());
}

#[test]
fn skills_provider_aggregates_sources() {
    let source1 = InMemorySkillSource::new().add(skill("a", "Skill A", None));
    let source2 = InMemorySkillSource::new().add(skill("b", "Skill B", None));
    let all = SkillsProvider::all_skills(vec![source1.list_skills(), source2.list_skills()]);
    assert_eq!(all.len(), 2);
    assert_eq!(all[1].name, "b");
    assert_eq!(find_skill(&all, "a").unwrap().description, "Skill A");
}

#[test]
fn a_context_lists_skills_and_opens_the_active_ones() {
    let skills = vec![skill("a", "Skill A", Some("Do A.")), skill("b", "Skill B", Some("Do B."))];
    let provider = SkillsProvider::new().activate(vec!["b".to_string(), "unknown".to_string()]);
    assert_eq!(
        provider.context_for(&skills).instructions.as_deref(),
        Some("## Available Skills\n\n- **a**: Skill A\n- **b**: Skill B\n\n### Skill: b\n\nDo B.\n")
    );
    assert!(provider.context_for(&vec![]).instructions.is_none());
}

#[test]
fn skill_files_are_read() {
    assert!(FileSkillSource::is_skill_file("SKILL.md"));
    assert!(!FileSkillSource::is_skill_file("README.md"));
    let read = FileSkillSource::parse_skill_file("---\nname: n\ndescription: d\n---\nBody", Some("dir"));
    assert_eq!(read.name, "n");
    assert_eq!(read.description, "d");
    assert_eq!(read.instructions.as_deref(), Some("\nBody"));
    let plain = FileSkillSource::parse_skill_file("Body", Some("dir"));
    assert_eq!(plain.name, "dir");
}
