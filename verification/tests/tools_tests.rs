use agent_rs::permission::PermissionPolicy;
use agent_rs::tools::context::{compact_prompt, CompactArgs};
use agent_rs::tools::directory::{directory_listing, list_description, sort_entries, DirEntryInfo, ListDirectoryArgs, ListDirectoryTool};
use agent_rs::tools::document::{read_description, write_confirmation, write_description, ReadDocumentTool, ReadKind, WriteDocumentTool, WriteMode};
use agent_rs::tools::glob::{check_glob_pattern, glob_description, glob_output, normalized_match, GlobMatches, GlobSearchArgs, GlobSearchTool};
use agent_rs::tools::registry::{plan_manage_rag, rag_outcome, ManageRagArgs, PathKind, RagRequest, RagSourceRegistry, RagSourceType};
use agent_rs::tools::search::{file_searchable, grep_description, grep_output, search_content, split_lines, supported_list, GrepSearchArgs, GrepSearchTool};
use agent_rs::tools::think::{ThinkArgs, ThinkTool};
use agent_rs::tools::util::{check_extension, truncated_output, DocumentError};

struct NoGate;

fn exts(v: &[&str]) -> Vec<String> {
    v.iter().map(|s| s.to_string()).collect()
}

#[test]
fn truncated_output_notes_the_limit() {
    let m = exts(&["a", "b"]);
    assert_eq!(truncated_output(&m, 3), "a\nb");
    assert_eq!(truncated_output(&m, 2), "a\nb\n... [Truncated: reached limit of 2 matches]");
}

#[test]
fn check_extension_rejects_unknown() {
    let allowed = exts(&["md", "txt"]);
    assert_eq!(check_extension("md", &allowed), Ok(()));
    assert_eq!(check_extension("exe", &allowed), Err(DocumentError::UnsupportedExtension("exe".to_string())));
}

#[test]
fn registry_add_is_idempotent_and_remove_restores() {
    let mut reg = RagSourceRegistry::new(exts(&["pdf", "md"]));
    assert!(reg.is_empty());
    assert_eq!(reg.list_sources(), "No sources registered.");
    assert_eq!(reg.add_source("docs/a.md", "/root/docs/a.md", PathKind::File, true).unwrap(), "Added source 'docs/a.md' (total: 1)");
    assert_eq!(reg.add_source("docs/a.md", "/root/docs/a.md", PathKind::File, true).unwrap(), "Source already indexed: docs/a.md (total: 1)");
    assert_eq!(reg.add_source("docs", "/root/docs", PathKind::Directory, true).unwrap(), "Added source 'docs' (total: 2)");
    assert_eq!(reg.list_sources(), "[FILE] /root/docs/a.md\n[DIR] /root/docs");
    assert_eq!(reg.sources().len(), 2);
    assert_eq!(reg.sources()[1].source_type, RagSourceType::Directory);
    assert_eq!(reg.remove_source("/root/docs").unwrap(), "Removed source '/root/docs' (total: 1)");
    assert_eq!(reg.remove_source("/root/docs"), Err(DocumentError::Rag("Source not found: /root/docs".to_string())));
    assert_eq!(reg.sources().len(), 1);
}

#[test]
fn registry_rejects_unsupported_and_missing() {
    let mut reg = RagSourceRegistry::new(exts(&["pdf"]));
    assert_eq!(reg.add_source("x.exe", "/r/x.exe", PathKind::File, true), Err(DocumentError::UnsupportedExtension("exe".to_string())));
    assert_eq!(reg.add_source("noext", "/r/noext", PathKind::File, true), Err(DocumentError::UnsupportedExtension(String::new())));
    assert_eq!(reg.add_source("gone", "/r/gone", PathKind::Missing, true), Err(DocumentError::Rag("Path does not exist: gone".to_string())));
    assert!(reg.is_empty());
    assert_eq!(
        reg.add_source("../etc", "/etc", PathKind::Directory, false),
        Err(DocumentError::SandboxEscape("Access denied: path resolves outside the sandbox: ../etc".to_string()))
    );
    assert!(reg.is_empty());
}

#[test]
fn manage_rag_plans_actions() {
    let add = ManageRagArgs { action: "add".to_string(), path: Some("a.md".to_string()) };
    let plan = plan_manage_rag(&add, true).unwrap();
    assert_eq!(plan.description, "Wants to add RAG source [a.md]");
    assert!(!plan.needs_gate);
    assert!(matches!(plan.request, Ok(RagRequest::Add(ref p)) if p == "a.md"));
    let outside = plan_manage_rag(&add, false).unwrap();
    assert!(outside.needs_gate);
    let list = ManageRagArgs { action: "list".to_string(), path: None };
    let plan = plan_manage_rag(&list, false).unwrap();
    assert_eq!(plan.description, "Wants to list all RAG sources");
    assert!(!plan.needs_gate);
    let remove = ManageRagArgs { action: "remove".to_string(), path: None };
    let plan = plan_manage_rag(&remove, true).unwrap();
    assert_eq!(plan.description, "Wants to remove RAG source []");
    assert_eq!(plan.request.unwrap_err(), DocumentError::Rag("The 'path' argument is required for the 'remove' action".to_string()));
    let bad = ManageRagArgs { action: "drop".to_string(), path: None };
    assert_eq!(plan_manage_rag(&bad, true).unwrap_err(), DocumentError::Rag("Unknown action 'drop'. Valid actions: add, remove, list".to_string()));
}

#[test]
fn rag_outcome_messages() {
    assert_eq!(rag_outcome(&RagRequest::Add("a".to_string()), Ok(12)).unwrap(), "indexed 12 chunks");
    assert_eq!(rag_outcome(&RagRequest::Remove("a".to_string()), Ok(3)).unwrap(), "removed 3 chunks");
    assert_eq!(rag_outcome(&RagRequest::List, Err("boom".to_string())).unwrap_err(), DocumentError::Rag("boom".to_string()));
}

#[test]
fn glob_pattern_safety() {
    assert!(check_glob_pattern("src/**/*.rs").is_ok());
    assert!(check_glob_pattern("a..b/*.md").is_ok());
    assert_eq!(
        check_glob_pattern("/etc/*"),
        Err(DocumentError::SandboxEscape("Access denied: Absolute patterns or path traversals containing '..' are not allowed: /etc/*".to_string()))
    );
    assert!(check_glob_pattern("../x").is_err());
    assert!(check_glob_pattern("a/../b").is_err());
    assert!(check_glob_pattern("a/..").is_err());
}

#[test]
fn glob_matches_are_relative_and_deduplicated() {
    assert_eq!(normalized_match("/root/src/a.rs", "/root"), "src/a.rs");
    assert_eq!(normalized_match("/root", "/root"), "");
    assert_eq!(normalized_match("/rootless/a", "/root"), "/rootless/a");
    assert_eq!(normalized_match("/r/a\\b", "/r"), "a/b");
    let mut m = GlobMatches::new(2);
    assert!(!m.record("a".to_string()));
    assert!(!m.record("a".to_string()));
    assert!(m.record("b".to_string()));
    assert_eq!(m.into_matches(), exts(&["a", "b"]));
}

#[test]
fn glob_output_and_description() {
    let none: Vec<String> = vec![];
    assert_eq!(glob_output("*.md", &none), "No files matched pattern: '*.md'");
    assert_eq!(glob_output("*.md", &exts(&["a.md"])), "a.md");
    let args = GlobSearchArgs { pattern: "*.md".to_string(), directory: None };
    assert_eq!(glob_description(&args), "Wants to match glob pattern '*.md' in [.]");
    let tool: GlobSearchTool<(), NoGate> = GlobSearchTool::new((), PermissionPolicy::AllowAll);
    assert!(matches!(tool.policy, PermissionPolicy::AllowAll));
}

#[test]
fn lines_follow_str_lines() {
    assert_eq!(split_lines("a\r\nb\n\nc"), exts(&["a", "b", "", "c"]));
    assert_eq!(split_lines("a\n"), exts(&["a"]));
    assert_eq!(split_lines(""), Vec::<String>::new());
    assert_eq!(split_lines("x\r"), exts(&["x\r"]));
}

#[test]
fn search_content_reports_matching_lines() {
    let mut results = Vec::new();
    search_content("Hello\n  say HELLO  \nbye", "notes.md", "hello", false, &mut results, 100);
    assert_eq!(results, exts(&["notes.md:1: Hello", "notes.md:2: say HELLO"]));
    let mut cs = Vec::new();
    search_content("Hello\nhello", "f.txt", "hello", true, &mut cs, 100);
    assert_eq!(cs, exts(&["f.txt:2: hello"]));
    let mut capped = vec!["x".to_string()];
    search_content("a\na\na", "f", "a", true, &mut capped, 2);
    assert_eq!(capped, exts(&["x", "f:1: a"]));
}

#[test]
fn grep_helpers() {
    let allowed = exts(&["md", "txt"]);
    assert!(file_searchable("/r/a.md", &allowed));
    assert!(!file_searchable("/r/a.rs", &allowed));
    assert!(!file_searchable("/r/README", &allowed));
    assert_eq!(supported_list(&allowed), ".md, .txt");
    let none: Vec<String> = vec![];
    assert_eq!(grep_output("q", &none), "No matches found for query: 'q'");
    let args = GrepSearchArgs { query: "q".to_string(), path: Some("src".to_string()), case_sensitive: None };
    assert_eq!(grep_description(&args), "Wants to search for substring 'q' at [src]");
    let tool: GrepSearchTool<(), NoGate> = GrepSearchTool::new((), allowed.clone(), PermissionPolicy::DenyAll);
    assert_eq!(tool.allowed_extensions, allowed);
}

#[test]
fn directory_listing_orders_dirs_then_files() {
    let entries = vec![
        DirEntryInfo { name: "b.txt".to_string(), is_dir: false, size: 10 },
        DirEntryInfo { name: "Zeta".to_string(), is_dir: true, size: 0 },
        DirEntryInfo { name: "A.md".to_string(), is_dir: false, size: 3 },
        DirEntryInfo { name: "alpha".to_string(), is_dir: true, size: 0 },
    ];
    assert_eq!(
        directory_listing(entries),
        "[DIR]  alpha\n[DIR]  Zeta\n[FILE] A.md (3 bytes)\n[FILE] b.txt (10 bytes)"
    );
    assert_eq!(directory_listing(vec![]), "Directory is empty.");
    let sorted = sort_entries(vec![
        DirEntryInfo { name: "b".to_string(), is_dir: false, size: 1 },
        DirEntryInfo { name: "a".to_string(), is_dir: false, size: 2 },
    ]);
    assert_eq!(sorted[0].name, "a");
    let args = ListDirectoryArgs { path: None };
    assert_eq!(list_description(&args), "Wants to list directory content at [.]");
    let _tool: ListDirectoryTool<(), NoGate> = ListDirectoryTool::new((), PermissionPolicy::CliPrompt);
}

#[test]
fn document_tools_check_extensions() {
    let read: ReadDocumentTool<(), NoGate> = ReadDocumentTool::new((), exts(&["pdf", "md"]), PermissionPolicy::AllowAll);
    assert_eq!(read.read_kind("/r/a.pdf"), Ok(ReadKind::Pdf));
    assert_eq!(read.read_kind("/r/a.md"), Ok(ReadKind::Text));
    assert_eq!(read.read_kind("/r/a.exe"), Err(DocumentError::UnsupportedExtension("exe".to_string())));
    assert_eq!(read.description(), "Read the content of a document or text file. Supports: .pdf, .md. Paths are resolved within the configured sandbox root(s).");
    let write: WriteDocumentTool<(), NoGate> = WriteDocumentTool::new((), exts(&["md"]), PermissionPolicy::AllowAll);
    assert_eq!(write.write_mode("/r/a.md", Some(true)), Ok(WriteMode::Append));
    assert_eq!(write.write_mode("/r/a.md", None), Ok(WriteMode::Overwrite));
    assert_eq!(write.write_mode("/r/a.md", Some(false)), Ok(WriteMode::Overwrite));
    assert!(write.write_mode("/r/a.txt", Some(true)).is_err());
    assert_eq!(read_description("x.md"), "Wants to read file asset at [x.md]");
    assert_eq!(write_description("x.md"), "Wants to modify/write file asset at [x.md]");
    assert_eq!(write_confirmation("x.md"), "Successfully wrote to x.md");
}

#[test]
fn think_tool_echoes() {
    let out = ThinkTool.call(ThinkArgs { thought: "plan".to_string() });
    assert_eq!(out.thought, "plan");
    assert!(out.acknowledged);
}

#[test]
fn compact_prompt_wraps_text() {
    let p = compact_prompt(&CompactArgs { text: "hist".to_string() });
    assert!(p.starts_with("Summarize the following conversation history"));
    assert!(p.ends_with(":\n\nhist"));
}

#[test]
fn registry_adds_keep_registration_order() {
    let mut reg = RagSourceRegistry::new(exts(&["md"]));
    reg.add_source("b", "/r/b", PathKind::Directory, true).unwrap();
    reg.add_source("a.md", "/r/a.md", PathKind::File, true).unwrap();
    reg.add_source("b", "/r/b", PathKind::Directory, true).unwrap();
    let paths: Vec<String> = reg.sources().iter().map(|s| s.path.clone()).collect();
    assert_eq!(paths, vec!["/r/b".to_string(), "/r/a.md".to_string()]);
}
