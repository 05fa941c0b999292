use notes_core::paths::{join_path, note_file_name, preview_file_name, PathError, Paths};

#[test]
fn file_names_use_the_hyphenated_identifier() {
    let id: u128 = 0xa1a2a3a4b1b2c1c2d1d2d3d4d5d6d7d8;
    assert_eq!(note_file_name(id), "a1a2a3a4-b1b2-c1c2-d1d2-d3d4d5d6d7d8.pdf");
    assert_eq!(preview_file_name(id), "a1a2a3a4-b1b2-c1c2-d1d2-d3d4d5d6d7d8.jpg");
    assert_eq!(note_file_name(0), "00000000-0000-0000-0000-000000000000.pdf");
    assert_eq!(note_file_name(u128::MAX), "ffffffff-ffff-ffff-ffff-ffffffffffff.pdf");
    assert_eq!(note_file_name(0x0123456789abcdef0123456789abcdef), "01234567-89ab-cdef-0123-456789abcdef.pdf");
}

#[test]
fn join_path_places_one_separator() {
    assert_eq!(join_path("notes/uploaded", "a.pdf"), "notes/uploaded/a.pdf");
    assert_eq!(join_path("notes/uploaded/", "a.pdf"), "notes/uploaded/a.pdf");
    assert_eq!(join_path("", "a.pdf"), "a.pdf");
    assert_eq!(join_path("notes", "/abs/a.pdf"), "/abs/a.pdf");
    assert_eq!(join_path("notes", ""), "notes/");
    assert_eq!(join_path("/", "a"), "/a");
}

#[test]
fn join_path_agrees_with_std_paths() {
    let cases = [
        ("notes/uploaded", "a.pdf"),
        ("notes/uploaded/", "a.pdf"),
        ("", "a.pdf"),
        ("notes", "/abs/a.pdf"),
        ("notes", ""),
        ("/", "a"),
        ("/srv/static", "notes/uploaded"),
        ("./static_files", "logs"),
    ];
    for (base, name) in cases {
        let expected = std::path::Path::new(base).join(name);
        assert_eq!(join_path(base, name), expected.to_string_lossy());
    }
}

#[test]
fn paths_lay_out_directories_and_addresses() {
    let paths = Paths::new("https://static.metakgp.org", "/app/static_files", "notes/uploaded", "previews/uploaded").unwrap();
    assert_eq!(paths.get_notes_dir(), "/app/static_files/notes/uploaded");
    assert_eq!(paths.get_previews_dir(), "/app/static_files/previews/uploaded");
    assert_eq!(paths.get_log_location(), "/app/static_files/logs");
    assert_eq!(paths.get_note_slug("x.pdf"), "notes/uploaded/x.pdf");
    assert_eq!(paths.get_preview_slug("x.jpg"), "previews/uploaded/x.jpg");
    assert_eq!(paths.get_note_path("x.pdf"), "/app/static_files/notes/uploaded/x.pdf");
    assert_eq!(paths.get_preview_path("x.jpg"), "/app/static_files/previews/uploaded/x.jpg");
    assert_eq!(paths.get_note_url("x.pdf").unwrap(), "https://static.metakgp.org/notes/uploaded/x.pdf");
    assert_eq!(paths.get_preview_url("x.jpg").unwrap(), "https://static.metakgp.org/previews/uploaded/x.jpg");
    assert_eq!(paths.get_url_from_slug("a/b c").unwrap(), "https://static.metakgp.org/a/b%20c");
    let copy = paths.duplicate();
    assert_eq!(copy.get_note_url("x.pdf").unwrap(), "https://static.metakgp.org/notes/uploaded/x.pdf");
}

#[test]
fn paths_refuse_a_text_that_is_no_address() {
    assert_eq!(Paths::new("not an address", "/srv", "n", "p").err(), Some(PathError::InvalidUrl));
    assert_eq!(Paths::new("", "/srv", "n", "p").err(), Some(PathError::InvalidUrl));
}

#[test]
fn an_address_that_cannot_be_a_base_gives_no_file_address() {
    let paths = Paths::new("mailto:someone@example.org", "/srv", "n", "p").unwrap();
    assert_eq!(paths.get_note_url("x.pdf"), Err(PathError::InvalidUrl));
    assert_eq!(paths.get_url_from_slug("x"), Err(PathError::InvalidUrl));
}

#[test]
fn development_paths_point_at_localhost() {
    let paths = Paths::development().unwrap();
    assert_eq!(paths.get_notes_dir(), "./static_files/notes/uploaded");
    assert_eq!(paths.get_previews_dir(), "./static_files/notes/previews");
    assert_eq!(paths.get_log_location(), "./static_files/logs");
    assert_eq!(paths.get_note_url("n.pdf").unwrap(), "http://localhost:3000/notes/uploaded/n.pdf");
}

#[test]
fn the_server_address_is_kept_as_parsed() {
    let paths = Paths::new("HTTPS://Static.Example.ORG", "/srv", "n", "p").unwrap();
    assert_eq!(paths.get_url_from_slug("").unwrap(), "https://static.example.org/");
    assert_eq!(paths.get_note_url("a.pdf").unwrap(), "https://static.example.org/n/a.pdf");
    let nested = Paths::new("https://example.org/files/", "/srv", "n", "p").unwrap();
    assert_eq!(nested.get_note_url("a.pdf").unwrap(), "https://example.org/files/n/a.pdf");
    let leaf = Paths::new("https://example.org/files", "/srv", "n", "p").unwrap();
    assert_eq!(leaf.get_note_url("a.pdf").unwrap(), "https://example.org/n/a.pdf");
}
