use mdb::config::Template;
use mdb::errors::NoteError;
use mdb::paths::{file_name_of, force_md_extension, join_path};

fn plain_template(content: Option<&str>) -> Template {
    Template {
        id: "default".to_string(),
        dir: None,
        content: content.map(|c| c.to_string()),
        name: None,
    }
}

#[test]
fn test_join_path_relative_and_absolute() {
    assert_eq!(join_path(&"/a/b".to_string(), &"c".to_string()), "/a/b/c");
    assert_eq!(join_path(&"/a/b/".to_string(), &"c".to_string()), "/a/b/c");
    assert_eq!(join_path(&"/a/b".to_string(), &"/x/y".to_string()), "/x/y");
    assert_eq!(join_path(&"".to_string(), &"c".to_string()), "c");
}

#[test]
fn test_force_md_extension_cases() {
    assert_eq!(force_md_extension(&"foo".to_string()), "foo.md");
    assert_eq!(force_md_extension(&"foo.txt".to_string()), "foo.md");
    assert_eq!(force_md_extension(&"/a.b/foo".to_string()), "/a.b/foo.md");
    assert_eq!(force_md_extension(&"/a/.hidden".to_string()), "/a/.hidden.md");
    assert_eq!(force_md_extension(&"/a/x.y.z".to_string()), "/a/x.y.md");
}

#[test]
fn test_file_name_of() {
    assert_eq!(file_name_of(&"/home/u/notes/foo.md".to_string()), "foo.md");
    assert_eq!(file_name_of(&"foo.md".to_string()), "foo.md");
}

#[test]
fn test_inject_variables_substitutes_all_tokens() {
    let out = Template::inject_variables(
        &"Hello $NAME on $DATE at $PATH ($PWD)".to_string(),
        &"foo".to_string(),
        &"2024-01-15".to_string(),
        &"/home/u/notes/foo.md".to_string(),
    );
    assert_eq!(out, "Hello foo on 2024-01-15 at /home/u/notes/foo.md (foo.md)");
}

#[test]
fn test_inject_variables_replaces_globally() {
    let out = Template::inject_variables(
        &"$NAME-$NAME".to_string(),
        &"x".to_string(),
        &"2024-01-15".to_string(),
        &"/n".to_string(),
    );
    assert_eq!(out, "x-x");
}

#[test]
fn test_create_keeps_existing_file_without_overwrite() {
    let t = plain_template(Some("body $NAME"));
    let plan = t
        .create(
            &"/notes".to_string(),
            &"today".to_string(),
            false,
            &None,
            &"2024-01-15".to_string(),
            &None,
            true,
            true,
        )
        .expect("create must succeed");
    assert_eq!(plan.path, "/notes/today.md");
    assert!(plan.content.is_none());
}

#[test]
fn test_create_overwrites_when_asked() {
    let t = plain_template(Some("body $NAME"));
    let plan = t
        .create(
            &"/notes".to_string(),
            &"today".to_string(),
            true,
            &None,
            &"2024-01-15".to_string(),
            &None,
            true,
            true,
        )
        .expect("create must succeed");
    assert_eq!(plan.path, "/notes/today.md");
    assert_eq!(plan.content, Some("body today".to_string()));
}

#[test]
fn test_create_uses_body_file_when_no_inline_content() {
    let t = plain_template(None);
    let plan = t
        .create(
            &"/notes".to_string(),
            &"today".to_string(),
            false,
            &Some("from file $DATE".to_string()),
            &"2024-01-15".to_string(),
            &None,
            true,
            false,
        )
        .expect("create must succeed");
    assert_eq!(plan.content, Some("from file 2024-01-15".to_string()));
}

#[test]
fn test_create_fails_without_any_content_source() {
    let t = plain_template(None);
    let r = t.create(
        &"/notes".to_string(),
        &"today".to_string(),
        false,
        &None,
        &"2024-01-15".to_string(),
        &None,
        true,
        false,
    );
    assert!(matches!(r, Err(NoteError::NotFound(_))));
}

#[test]
fn test_create_fails_when_directory_missing() {
    let t = plain_template(Some("body"));
    let r = t.create(
        &"/notes".to_string(),
        &"today".to_string(),
        false,
        &None,
        &"2024-01-15".to_string(),
        &None,
        false,
        false,
    );
    assert!(matches!(r, Err(NoteError::NotFound(_))));
}

#[test]
fn test_create_template_dir_overrides_callers_dir() {
    let t = Template {
        id: "default".to_string(),
        dir: Some("/else".to_string()),
        content: Some("body".to_string()),
        name: None,
    };
    let plan = t
        .create(
            &"/notes".to_string(),
            &"today".to_string(),
            false,
            &None,
            &"2024-01-15".to_string(),
            &Some("/else".to_string()),
            true,
            false,
        )
        .expect("create must succeed");
    assert_eq!(plan.path, "/else/today.md");
}

#[test]
fn test_error_messages_carried() {
    assert_eq!(NoteError::Io("broken".to_string()).message(), "broken");
    assert_eq!(NoteError::ExternalProcess("spawn".to_string()).message(), "spawn");
    assert_eq!(NoteError::NotFound("gone".to_string()).message(), "gone");
    assert_eq!(NoteError::InvalidInput("bad".to_string()).message(), "bad");
}
