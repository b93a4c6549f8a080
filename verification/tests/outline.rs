use wikimind::outline::{
    coordinator_generate_outline, merger_merge_sections, parse_outline, section_drafts, section_file_name,
    section_file_text, style_from_request, wiki_notes_dir_path, worker_generate_section, WikiSection, WikiStyle,
};

#[test]
fn styles_by_name() {
    assert_eq!(style_from_request(Some("文艺风格")), WikiStyle::Literary);
    assert_eq!(style_from_request(Some("简洁风格")), WikiStyle::Simple);
    assert_eq!(style_from_request(Some("详细风格")), WikiStyle::Detailed);
    assert_eq!(style_from_request(Some("技术风格")), WikiStyle::Technical);
    assert_eq!(style_from_request(Some("other")), WikiStyle::Technical);
    assert_eq!(style_from_request(None), WikiStyle::Technical);
    assert_eq!(WikiStyle::default(), WikiStyle::Technical);
    assert_eq!(WikiStyle::Simple.as_str(), "简洁风格");
}

#[test]
fn coordinator_and_worker_texts() {
    let docs = vec!["a".to_string(), "b".to_string()];
    assert_eq!(
        coordinator_generate_outline(&docs, &WikiStyle::Technical),
        "# Wiki Outline (技术风格)\n\nBased on 2 documents provided."
    );
    assert_eq!(
        worker_generate_section("Intro", &docs, &WikiStyle::Literary),
        "Content for 'Intro' in 文艺风格 style. Based on 2 docs."
    );
}

#[test]
fn outline_lines_become_numbered_sections() {
    let sections = parse_outline("  first  \n\n\t\nsecond\r\nthird");
    assert_eq!(sections.len(), 3);
    assert_eq!(sections[0].title, "Section 1");
    assert_eq!(sections[0].content, "first");
    assert_eq!(sections[1].title, "Section 2");
    assert_eq!(sections[1].content, "second");
    assert_eq!(sections[2].title, "Section 3");
    assert_eq!(sections[2].content, "third");
    assert!(parse_outline("").is_empty());
    assert!(parse_outline("\n \n").is_empty());
}

#[test]
fn drafts_follow_the_coordinator_outline() {
    let docs = vec!["x".to_string()];
    let drafts = section_drafts(&docs, &WikiStyle::Detailed);
    assert_eq!(drafts.len(), 2);
    assert_eq!(drafts[0].content, "# Wiki Outline (详细风格)");
    assert_eq!(drafts[1].content, "Based on 1 documents provided.");
}

#[test]
fn merging_keeps_sections_in_order() {
    let sections = vec![
        WikiSection { title: "A".to_string(), content: "1".to_string() },
        WikiSection { title: "B".to_string(), content: "2".to_string() },
    ];
    let merged = merger_merge_sections(&sections);
    assert_eq!(merged.len(), 2);
    assert_eq!((merged[0].title.as_str(), merged[0].content.as_str()), ("A", "1"));
    assert_eq!((merged[1].title.as_str(), merged[1].content.as_str()), ("B", "2"));
    assert!(merger_merge_sections(&[]).is_empty());
}

#[test]
fn section_files_and_notes_directory() {
    assert_eq!(section_file_name("Section 1"), "Section_1.md");
    assert_eq!(section_file_name("a b  c"), "a_b__c.md");
    let s = WikiSection { title: "T".to_string(), content: "body".to_string() };
    assert_eq!(section_file_text(&s), "# T\n\nbody");
    assert_eq!(wiki_notes_dir_path("/home/u/project"), "/home/u/project/notes/project-wiki-notes");
    assert_eq!(wiki_notes_dir_path("/w"), "/w/notes/w-wiki-notes");
    assert_eq!(wiki_notes_dir_path("/"), "/notes/workspace-wiki-notes");
    assert_eq!(wiki_notes_dir_path("/home/u/project/"), "/home/u/project/notes/project-wiki-notes");
}
