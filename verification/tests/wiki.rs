use std::collections::BTreeMap;
use wikimind::settings::{workspace_dirs, AppConfig};
use wikimind::wiki::{
    check_page_within_root, check_relative_page_path, frame_page, page_from_front_matter,
    free_snapshot_path, snapshot_file_name, snapshot_path, version_dir_key, version_dir_path, version_stamp, wiki_type_name,
    FrontMatter, WikiPageMeta,
};

#[test]
fn version_directory_uses_sanitized_relative_path() {
    let root = "/tmp/wiki_root_layout_1";
    let file = "/tmp/wiki_root_layout_1/nested/dir/page.md";
    assert_eq!(version_dir_key(root, file), "nested_dir_page.md");
    assert_eq!(
        version_dir_path(root, file),
        "/tmp/wiki_root_layout_1/.exmind-wiki_root_layout/versions/nested_dir_page.md"
    );
}

#[test]
fn version_directory_flattens_backslashes() {
    let root = "/tmp/wiki_root_multi_2";
    let file = "/tmp/wiki_root_multi_2/windows\\style\\name.md";
    assert_eq!(
        version_dir_path(root, file),
        "/tmp/wiki_root_multi_2/.exmind-wiki_root_multi/versions/windows_style_name.md"
    );
}

#[test]
fn version_key_of_a_path_outside_the_root_keeps_all_components() {
    assert_eq!(version_dir_key("/w", "/elsewhere/p.md"), "__elsewhere_p.md");
    assert_eq!(version_dir_key("w", "./w/./a/../b.md"), "w_a_.._b.md");
}

#[test]
fn snapshot_names_differ_per_attempt_and_end_in_md() {
    assert_eq!(snapshot_file_name("2024-01-01T00-00-00.000000000Z", 0), "2024-01-01T00-00-00.000000000Z.md");
    assert_eq!(snapshot_file_name("S", 1), "S-1.md");
    assert_eq!(snapshot_file_name("S", 12), "S-12.md");
    let names: Vec<String> = (0..20).map(|a| snapshot_file_name("S", a)).collect();
    for (i, a) in names.iter().enumerate() {
        assert!(a.ends_with(".md"));
        for b in &names[i + 1..] {
            assert_ne!(a, b);
        }
    }
    assert_eq!(snapshot_path("/v", "S", 2), "/v/S-2.md");
}

#[test]
fn version_stamp_formats_the_instant() {
    assert_eq!(version_stamp(0, 0).unwrap(), "1970-01-01T00-00-00.000000000Z");
    assert_eq!(version_stamp(1_704_067_200, 5).unwrap(), "2024-01-01T00-00-00.000000005Z");
    assert_eq!(version_stamp(i64::MAX, 0), None);
}

#[test]
fn frames_front_matter_and_body() {
    assert_eq!(frame_page("uid: a\n", "# T\n"), "---\nuid: a\n---\n# T\n");
}

fn pod_text(data: &gray_matter::Pod, key: &str) -> Option<String> {
    match data {
        gray_matter::Pod::Hash(map) => map.get(key).and_then(|v| v.as_string().ok()),
        _ => None,
    }
}

fn front_matter_of(text: &str) -> FrontMatter {
    let matter = gray_matter::Matter::<gray_matter::engine::YAML>::new();
    match matter.parse::<gray_matter::Pod>(text) {
        Ok(parsed) => FrontMatter::Parsed {
            data: parsed.data.map(|d| WikiPageMeta {
                uid: pod_text(&d, "uid"),
                title: pod_text(&d, "title"),
                created_by: pod_text(&d, "created_by"),
                updated_at: pod_text(&d, "updated_at"),
            }),
            body: parsed.content,
        },
        Err(_) => FrontMatter::Invalid,
    }
}

#[test]
fn parse_and_assemble_round_trip_with_frontmatter() {
    let mut meta = BTreeMap::new();
    meta.insert("uid".to_string(), "page-123".to_string());
    meta.insert("title".to_string(), "Hello".to_string());
    meta.insert("created_by".to_string(), "tester".to_string());
    meta.insert("updated_at".to_string(), "2024-01-01T00:00:00Z".to_string());
    let body = "# Heading\n\nSome content.";

    let yaml = serde_yaml::to_string(&meta).expect("assemble_page should succeed");
    let assembled = frame_page(&yaml, body);
    let parsed = page_from_front_matter(&assembled, front_matter_of(&assembled));

    assert_eq!(parsed.meta.uid.as_deref(), Some("page-123"));
    assert_eq!(parsed.meta.title.as_deref(), Some("Hello"));
    assert_eq!(parsed.meta.created_by.as_deref(), Some("tester"));
    assert_eq!(parsed.meta.updated_at.as_deref(), Some("2024-01-01T00:00:00Z"));
    assert_eq!(parsed.content, body);
}

#[test]
fn page_from_front_matter_cases() {
    let meta = WikiPageMeta {
        uid: Some("page-123".to_string()),
        title: Some("Hello".to_string()),
        created_by: Some("tester".to_string()),
        updated_at: Some("2024-01-01T00:00:00Z".to_string()),
    };
    let page = page_from_front_matter("ignored", FrontMatter::Parsed { data: Some(meta), body: "body".to_string() });
    assert_eq!(page.meta.uid.as_deref(), Some("page-123"));
    assert_eq!(page.meta.updated_at.as_deref(), Some("2024-01-01T00:00:00Z"));
    assert_eq!(page.content, "body");

    let page = page_from_front_matter("x", FrontMatter::Parsed { data: None, body: "x".to_string() });
    assert!(page.meta.uid.is_none() && page.meta.title.is_none());

    let invalid = "---\n: invalid yaml\n---\nBody stays intact";
    let page = page_from_front_matter(invalid, FrontMatter::Invalid);
    assert!(page.meta.uid.is_none());
    assert!(page.meta.title.is_none());
    assert!(page.meta.created_by.is_none());
    assert!(page.meta.updated_at.is_none());
    assert_eq!(page.content, invalid);
}

#[test]
fn page_paths_must_stay_in_the_wiki() {
    assert_eq!(check_relative_page_path("/etc/passwd"), Err("file_path must be relative to wiki_root".to_string()));
    assert_eq!(check_relative_page_path("notes/a.md"), Ok(()));
    assert_eq!(check_page_within_root("/w/notes/a.md", "/w"), Ok(()));
    assert_eq!(
        check_page_within_root("/wiki2/a.md", "/wiki"),
        Err("file_path must remain within wiki_root".to_string())
    );
    assert_eq!(check_page_within_root("/", "/w"), Err("file_path must remain within wiki_root".to_string()));
}

#[test]
fn config_path_and_workspace_layout() {
    assert_eq!(AppConfig::config_path("/root/ws"), "/root/ws/.exmind/config.json");
    let config = AppConfig::default();
    assert_eq!(config.api_key, None);
    assert_eq!(config.root_path, None);
    assert_eq!(config.theme, None);
    assert_eq!(
        workspace_dirs("/r"),
        vec![
            "/r/workspace",
            "/r/my-wiki/.exmind-mywiki/versions",
            "/r/agent-wiki/.exmind-agentwiki/versions",
            "/r/.exmind",
        ]
    );
}

#[test]
fn wiki_types_drop_hyphens_and_run_numbers() {
    assert_eq!(wiki_type_name("my-wiki"), "mywiki");
    assert_eq!(wiki_type_name("agent-wiki"), "agentwiki");
    assert_eq!(wiki_type_name("wiki_root_layout_1776000000123456789"), "wiki_root_layout");
    assert_eq!(wiki_type_name("notes_v2"), "notes_v2");
    assert_eq!(wiki_type_name("_12"), "_12");
    assert_eq!(wiki_type_name("2024"), "2024");
    assert_eq!(wiki_type_name("a_"), "a_");
    assert_eq!(wiki_type_name(""), "");
    assert_eq!(
        version_dir_path("/r/my-wiki", "/r/my-wiki/a/b.md"),
        "/r/my-wiki/.exmind-mywiki/versions/a_b.md"
    );
    assert!(version_dir_path("/r/my-wiki", "/r/my-wiki/a/b.md").starts_with(&workspace_dirs("/r")[1]));
    assert_eq!(version_dir_path("/", "/a.md"), "/.exmind-/versions/a.md");
}

#[test]
fn free_snapshot_path_skips_taken_names() {
    let none: Vec<String> = Vec::new();
    assert_eq!(free_snapshot_path("/v", "S", &none), "/v/S.md");
    let taken = vec!["S.md".to_string(), "other.md".to_string(), "S-1.md".to_string()];
    assert_eq!(free_snapshot_path("/v", "S", &taken), "/v/S-2.md");
    let gap = vec!["S-1.md".to_string()];
    assert_eq!(free_snapshot_path("/v", "S", &gap), "/v/S.md");
    let many: Vec<String> = (0..30).map(|a| snapshot_file_name("S", a)).collect();
    assert_eq!(free_snapshot_path("/v", "S", &many), "/v/S-30.md");
}
