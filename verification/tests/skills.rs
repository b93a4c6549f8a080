use wikimind::skills::{
    builtin_registry, execute_skill, list_skills, AutoAgentSkill, BuiltinSkill, ExecuteSkillPayload,
    OrganizeToWikiSkill, Skill, SkillContext, SkillRegistry,
};

fn payload(id: &str, content: &str) -> ExecuteSkillPayload {
    ExecuteSkillPayload {
        skill_id: id.to_string(),
        original_content: content.to_string(),
        instruction: None,
        source_path: Some("raw/a.md".to_string()),
        target_wiki: None,
    }
}

fn context(content: &str, instruction: Option<&str>) -> SkillContext {
    SkillContext {
        instruction: instruction.map(|s| s.to_string()),
        original_content: content.to_string(),
        source_path: None,
        target_wiki: None,
    }
}

#[test]
fn both_builtin_skills_are_listed_once() {
    let mut listed: Vec<(String, String)> = list_skills().into_iter().map(|s| (s.id, s.name)).collect();
    listed.sort();
    assert_eq!(
        listed,
        vec![
            ("auto_agent_extract".to_string(), "AI 自动整理".to_string()),
            ("organize_to_wiki".to_string(), "整理到 Wiki".to_string()),
        ]
    );
}

#[test]
fn organize_skill_appends_sources() {
    let out = execute_skill(payload("organize_to_wiki", "note\n")).unwrap();
    assert_eq!(out.proposed_content, "note\n\n\n## Sources\n- Extracted from raw notes.");
    assert_eq!(out.diff.as_deref(), Some(" note\n+\n+\n+## Sources\n+- Extracted from raw notes."));
    assert_eq!(out.title_suggestion.as_deref(), Some("整理后的页面"));
    let meta = out.meta.unwrap();
    assert_eq!(meta.source.as_deref(), Some("raw/a.md"));
    assert_eq!(meta.created_by, "ai");
    assert_eq!(meta.wiki_type, None);
}

#[test]
fn auto_agent_skill_adds_a_heading() {
    let out = execute_skill(payload("auto_agent_extract", "fact\n")).unwrap();
    assert_eq!(out.proposed_content, "# 自动整理结果\n\nfact\n");
    assert_eq!(out.diff.as_deref(), Some("+# 自动整理结果\n+\n fact\n"));
    assert_eq!(out.title_suggestion.as_deref(), Some("自动提取的知识点"));
    let meta = out.meta.unwrap();
    assert_eq!(meta.wiki_type.as_deref(), Some("agent-wiki"));
    assert_eq!(meta.created_by, "ai");
}

#[test]
fn unknown_skill_is_reported() {
    match execute_skill(payload("summarize", "x")) {
        Err(e) => assert_eq!(e, "Skill not found: summarize"),
        Ok(_) => panic!("expected an error"),
    }
}

#[test]
fn registering_replaces_a_skill_with_the_same_id() {
    let mut registry: SkillRegistry<BuiltinSkill> = SkillRegistry::new();
    assert!(registry.get_skill("organize_to_wiki").is_none());
    assert!(registry.list_skills().is_empty());
    registry.register(BuiltinSkill::OrganizeToWiki(OrganizeToWikiSkill));
    registry.register(BuiltinSkill::OrganizeToWiki(OrganizeToWikiSkill));
    assert_eq!(registry.list_skills(), vec![("organize_to_wiki", "整理到 Wiki")]);
    assert_eq!(registry.get_skill("organize_to_wiki").unwrap().id(), "organize_to_wiki");
    assert!(registry.get_skill("auto_agent_extract").is_none());
    let full = builtin_registry();
    assert_eq!(full.get_skill("auto_agent_extract").unwrap().name(), "AI 自动整理");
    assert_eq!(full.list_skills().len(), 2);
}

#[test]
fn prompts_carry_the_instruction_and_material() {
    let p = OrganizeToWikiSkill.prompt(&context("SRC", Some("be brief")));
    assert!(p.starts_with("You are a wiki author."));
    assert!(p.contains("User Instruction: be brief\n\n"));
    assert!(p.ends_with("--- SOURCE MATERIAL ---\n\nSRC"));
    let q = OrganizeToWikiSkill.prompt(&context("SRC", None));
    assert!(!q.contains("User Instruction"));
    let a = AutoAgentSkill.prompt(&context("RAW", None));
    assert!(a.starts_with("You are the knowledge compiler for an LLM wiki.\n"));
    assert!(a.ends_with("--- SOURCE MATERIAL ---\n\nRAW"));
    assert_eq!(AutoAgentSkill.id(), "auto_agent_extract");
}
