//! Tests of the session loader.

use snek::model::snippet_code;
use snek::path::FilePath;
use snek::session_io::{
    load_snapshot, resolve_active_session, ActiveRecord, ActiveSessionError, Fetched, FileRead,
    FileState, SessionFiles, SessionReadError, SessionRecord,
};
use snek::snapshot::{CodeContext, Limits};

fn test_session_record() -> SessionRecord {
    SessionRecord {
        schema: 1,
        id: "test-session-123".to_string(),
        name: "test".to_string(),
        version: 42,
        limits: Limits { max_tokens: 2000 },
        updated_at: "2025-11-03T00:00:00Z".to_string(),
    }
}

fn snippet(uri: &str, start_line: u32, end_line: u32) -> CodeContext {
    CodeContext {
        uri: uri.to_string(),
        start_line,
        end_line,
        language_id: "rust".to_string(),
        description: None,
    }
}

fn text_file(path: &str, text: &str) -> FileRead {
    FileRead { path: FilePath::parse(path), state: FileState::Text(text.to_string()) }
}

fn files_with(snippets: Vec<CodeContext>, notes: Vec<FileRead>, sources: Vec<FileRead>) -> SessionFiles {
    SessionFiles {
        metadata: Fetched::Found(test_session_record()),
        snippets: Fetched::Found(snippets),
        notes,
        sources,
    }
}

#[test]
fn test_resolve_active_session() {
    let root = FilePath::parse("/tmp/workspace/.snek");
    let pointer = Fetched::Found(ActiveRecord {
        schema: 1,
        id: "test-session-123".to_string(),
        path: "sessions/test-session-123".to_string(),
    });

    let session_dir = resolve_active_session(&root, &pointer).unwrap();
    assert!(session_dir.to_text().unwrap().ends_with("sessions/test-session-123"));
    assert!(session_dir.starts_with(&root));
    assert_eq!(session_dir.to_text().unwrap(), "/tmp/workspace/.snek/sessions/test-session-123");
}

#[test]
fn test_resolve_active_session_errors() {
    let root = FilePath::parse("/tmp/workspace/.snek");
    assert_eq!(
        resolve_active_session(&root, &Fetched::Missing).unwrap_err(),
        ActiveSessionError::Unreadable
    );
    assert_eq!(
        resolve_active_session(&root, &Fetched::Unreadable).unwrap_err(),
        ActiveSessionError::Unreadable
    );
    assert_eq!(
        resolve_active_session(&root, &Fetched::Malformed).unwrap_err(),
        ActiveSessionError::Malformed
    );
}

#[test]
fn test_resolve_active_session_absolute_pointer() {
    let root = FilePath::parse("/tmp/workspace/.snek");
    let pointer = Fetched::Found(ActiveRecord {
        schema: 1,
        id: "x".to_string(),
        path: "/elsewhere/sessions/x".to_string(),
    });
    let session_dir = resolve_active_session(&root, &pointer).unwrap();
    assert_eq!(session_dir.to_text().unwrap(), "/elsewhere/sessions/x");
}

#[test]
fn test_load_snapshot() {
    let session_dir = FilePath::parse("/tmp/workspace/.snek/sessions/test-session-123");
    let files = SessionFiles {
        metadata: Fetched::Found(test_session_record()),
        snippets: Fetched::Missing,
        notes: vec![],
        sources: vec![],
    };
    let snapshot = load_snapshot(&session_dir, files).unwrap();

    assert_eq!(snapshot.session_id(), "test-session-123");
    assert_eq!(snapshot.version(), 42);
    assert_eq!(snapshot.limits().max_tokens, 2000);
    assert_eq!(snapshot.code_snippets().len(), 0);
    assert_eq!(snapshot.markdown_cache().len(), 0);
    assert_eq!(snapshot.file_cache().len(), 0);
    assert!(snapshot.session_dir().same(&session_dir));
}

#[test]
fn test_load_snapshot_metadata_errors() {
    let dir = FilePath::parse("/s");
    let with = |metadata: Fetched<SessionRecord>| SessionFiles {
        metadata,
        snippets: Fetched::Missing,
        notes: vec![],
        sources: vec![],
    };
    assert_eq!(
        load_snapshot(&dir, with(Fetched::Missing)).unwrap_err(),
        SessionReadError::MetadataUnreadable
    );
    assert_eq!(
        load_snapshot(&dir, with(Fetched::Unreadable)).unwrap_err(),
        SessionReadError::MetadataUnreadable
    );
    assert_eq!(
        load_snapshot(&dir, with(Fetched::Malformed)).unwrap_err(),
        SessionReadError::MetadataMalformed
    );
    let mut zero = test_session_record();
    zero.limits = Limits { max_tokens: 0 };
    assert_eq!(
        load_snapshot(&dir, with(Fetched::Found(zero))).unwrap_err(),
        SessionReadError::MetadataMalformed
    );
}

#[test]
fn test_load_snapshot_snippet_list_errors() {
    let dir = FilePath::parse("/s");
    let with = |snippets: Fetched<Vec<CodeContext>>| SessionFiles {
        metadata: Fetched::Found(test_session_record()),
        snippets,
        notes: vec![],
        sources: vec![],
    };
    assert_eq!(
        load_snapshot(&dir, with(Fetched::Unreadable)).unwrap_err(),
        SessionReadError::SnippetsUnreadable
    );
    assert_eq!(
        load_snapshot(&dir, with(Fetched::Malformed)).unwrap_err(),
        SessionReadError::SnippetsMalformed
    );
    assert!(load_snapshot(&dir, with(Fetched::Missing)).is_ok());
}

#[test]
fn test_metadata_error_comes_before_snippet_error() {
    let dir = FilePath::parse("/s");
    let files = SessionFiles {
        metadata: Fetched::Malformed,
        snippets: Fetched::Malformed,
        notes: vec![],
        sources: vec![],
    };
    assert_eq!(load_snapshot(&dir, files).unwrap_err(), SessionReadError::MetadataMalformed);
}

#[test]
fn test_update_context_from_file() {
    let content = "line 0\nline 1\nline 2\nline 3\nline 4\n";
    let uri = "file:///tmp/test.rs";
    let dir = FilePath::parse("/s");
    let files = files_with(vec![snippet(uri, 1, 3)], vec![], vec![text_file("/tmp/test.rs", content)]);
    let snapshot = load_snapshot(&dir, files).unwrap();

    let context = &snapshot.code_snippets()[0];
    assert_eq!(context.language_id, "rust");
    let cached = snapshot.file_cache().get(uri).unwrap();
    let code = snippet_code(cached, context.start_line, context.end_line).unwrap();
    assert_eq!(code, "line 1\nline 2");
    assert!(!cached.is_empty());
}

#[test]
fn test_update_context_invalid_range() {
    let content = "line 0\nline 1\n";
    let uri = "file:///tmp/test.rs";
    let dir = FilePath::parse("/s");
    let files = files_with(vec![snippet(uri, 10, 20)], vec![], vec![text_file("/tmp/test.rs", content)]);
    let snapshot = load_snapshot(&dir, files).unwrap();

    let context = &snapshot.code_snippets()[0];
    assert_eq!(context.language_id, "rust");
    let cached = snapshot.file_cache().get(uri).unwrap();
    let result = snippet_code(cached, context.start_line, context.end_line);
    assert!(result.is_none());
}

#[test]
fn test_scenario_whole_file_is_cached_and_range_selects_lines() {
    let content = "L0\nL1\nL2\nL3\nL4";
    let dir = FilePath::parse("/s");
    let files = files_with(
        vec![snippet("file:///a.rs", 1, 3)],
        vec![],
        vec![text_file("/a.rs", content)],
    );
    let snapshot = load_snapshot(&dir, files).unwrap();
    assert_eq!(snapshot.file_cache().get("file:///a.rs").unwrap(), content);
    assert_eq!(snippet_code(content, 1, 3).unwrap(), "L1\nL2");
}

#[test]
fn test_scenario_two_snippets_one_uri_one_entry() {
    let dir = FilePath::parse("/s");
    let files = files_with(
        vec![snippet("file:///a.rs", 0, 1), snippet("file:///a.rs", 2, 4)],
        vec![],
        vec![text_file("/a.rs", "x\ny\nz\n")],
    );
    let snapshot = load_snapshot(&dir, files).unwrap();
    assert_eq!(snapshot.code_snippets().len(), 2);
    assert_eq!(snapshot.file_cache().len(), 1);
    assert_eq!(snapshot.file_cache().get("file:///a.rs").unwrap(), "x\ny\nz\n");
}

#[test]
fn test_scenario_two_notes_two_keys() {
    let dir = FilePath::parse("/s");
    let files = files_with(
        vec![],
        vec![text_file("/s/context/a.md", "alpha"), text_file("/s/context/b.md", "beta")],
        vec![],
    );
    let snapshot = load_snapshot(&dir, files).unwrap();
    assert_eq!(snapshot.markdown_cache().len(), 2);
    assert_eq!(snapshot.markdown_cache().get("a.md").unwrap(), "alpha");
    assert_eq!(snapshot.markdown_cache().get("b.md").unwrap(), "beta");
    assert_eq!(snapshot.markdown_cache().sorted_keys(), vec!["a.md".to_string(), "b.md".to_string()]);
}

#[test]
fn test_notes_without_extension_or_text_are_left_out() {
    let dir = FilePath::parse("/s");
    let files = files_with(
        vec![],
        vec![
            text_file("/s/context/notes.txt", "no"),
            text_file("/s/context/.md", "no"),
            FileRead { path: FilePath::parse("/s/context/dir.md"), state: FileState::Unreadable },
            FileRead { path: FilePath::parse("/s/context/gone.md"), state: FileState::Missing },
            text_file("/s/context/yes.md", "yes"),
        ],
        vec![],
    );
    let snapshot = load_snapshot(&dir, files).unwrap();
    assert_eq!(snapshot.markdown_cache().len(), 1);
    assert_eq!(snapshot.markdown_cache().get("yes.md").unwrap(), "yes");
}

#[test]
fn test_unreadable_and_foreign_sources_are_left_out() {
    let dir = FilePath::parse("/s");
    let files = files_with(
        vec![
            snippet("file:///a.rs", 0, 1),
            snippet("file:///b.rs", 0, 1),
            snippet("https://example.com/c.rs", 0, 1),
            snippet("not a uri", 0, 1),
            snippet("file:///d.rs", 0, 1),
        ],
        vec![],
        vec![
            text_file("/a.rs", "a"),
            FileRead { path: FilePath::parse("/b.rs"), state: FileState::Unreadable },
            text_file("/c.rs", "c"),
            text_file("/unreferenced.rs", "u"),
        ],
    );
    let snapshot = load_snapshot(&dir, files).unwrap();
    assert_eq!(snapshot.code_snippets().len(), 5);
    assert_eq!(snapshot.file_cache().len(), 1);
    assert_eq!(snapshot.file_cache().get("file:///a.rs").unwrap(), "a");
    assert!(snapshot.file_cache().get("file:///b.rs").is_none());
    assert!(snapshot.file_cache().get("file:///d.rs").is_none());
}

#[test]
fn test_first_read_of_a_path_decides() {
    let dir = FilePath::parse("/s");
    let files = files_with(
        vec![snippet("file:///a.rs", 0, 1)],
        vec![],
        vec![text_file("/a.rs", "first"), text_file("/a.rs", "second")],
    );
    let snapshot = load_snapshot(&dir, files).unwrap();
    assert_eq!(snapshot.file_cache().get("file:///a.rs").unwrap(), "first");
}

#[test]
fn test_uri_is_resolved_by_the_url_rules() {
    // Percent-encoding and "localhost" name the same file; the cache is
    // keyed by the URI as the snippet writes it.
    let dir = FilePath::parse("/s");
    let files = files_with(
        vec![snippet("file:///my%20dir/a.rs", 0, 1), snippet("file://localhost/my%20dir/a.rs", 0, 1)],
        vec![],
        vec![text_file("/my dir/a.rs", "spaced")],
    );
    let snapshot = load_snapshot(&dir, files).unwrap();
    assert_eq!(snapshot.file_cache().len(), 2);
    assert_eq!(snapshot.file_cache().get("file:///my%20dir/a.rs").unwrap(), "spaced");
    assert_eq!(snapshot.file_cache().get("file://localhost/my%20dir/a.rs").unwrap(), "spaced");
}

#[test]
fn test_error_messages() {
    assert_eq!(ActiveSessionError::Unreadable.message(), "Failed to read active.json");
    assert_eq!(ActiveSessionError::Malformed.message(), "Failed to parse active.json");
    assert_eq!(SessionReadError::MetadataUnreadable.message(), "Failed to read session.json");
    assert_eq!(SessionReadError::MetadataMalformed.message(), "Failed to parse session.json");
    assert_eq!(SessionReadError::SnippetsUnreadable.message(), "Failed to read code_snippets.json");
    assert_eq!(SessionReadError::SnippetsMalformed.message(), "Failed to parse code_snippets.json");
}
