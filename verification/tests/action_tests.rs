use mdb::action::{NamePlan, Resolution};
use mdb::config::{Action, Config, Data, ExecCommand, Named, Template, TemplateName};
use mdb::errors::NoteError;

fn sample_data() -> Data {
    Data {
        config: Config { data: "~/brain.toml".to_string() },
        templates: vec![
            Template {
                id: "default".to_string(),
                dir: None,
                content: Some("hello $NAME".to_string()),
                name: Some(TemplateName::Text("daily".to_string())),
            },
            Template {
                id: "unnamed".to_string(),
                dir: None,
                content: Some("x".to_string()),
                name: None,
            },
            Template {
                id: "scripted".to_string(),
                dir: None,
                content: None,
                name: Some(TemplateName::Exec(ExecCommand {
                    run: "date".to_string(),
                    args: vec!["+%A".to_string()],
                })),
            },
        ],
    }
}

#[test]
fn test_act_add_with_name_builds_md_path() {
    let data = sample_data();
    let r = Action::act(
        &data,
        Action::Add(Named::Name(Some("note".to_string()))),
        &"/work".to_string(),
    );
    match r {
        Ok(Resolution::AddPath(p)) => assert_eq!(p, "/work/note.md"),
        other => panic!("unexpected resolution: {:?}", other),
    }
}

#[test]
fn test_act_add_without_name_is_invalid_input() {
    let data = sample_data();
    let r = Action::act(&data, Action::Add(Named::Default), &"/work".to_string());
    match r {
        Err(NoteError::InvalidInput(m)) => assert_eq!(m, "Name must be set for add command"),
        other => panic!("unexpected result: {:?}", other),
    }
    let r2 = Action::act(
        &data,
        Action::Add(Named::Template(Some("default".to_string()))),
        &"/work".to_string(),
    );
    assert!(matches!(r2, Err(NoteError::InvalidInput(_))));
}

#[test]
fn test_act_list_resolves_to_listing() {
    let data = sample_data();
    let r = Action::act(&data, Action::List, &"/work".to_string());
    assert!(matches!(r, Ok(Resolution::ListEntries)));
}

#[test]
fn test_act_default_uses_default_template_name_source() {
    let data = sample_data();
    let r = Action::act(&data, Action::Default(Named::Default), &"/work".to_string());
    match r {
        Ok(Resolution::Render(job)) => {
            assert_eq!(job.template.id, "default");
            assert_eq!(job.inject_path, "/work");
            assert!(!job.overwrite);
            match job.name_plan {
                NamePlan::FromText(t) => assert_eq!(t, "daily"),
                other => panic!("unexpected name plan: {:?}", other),
            }
        }
        other => panic!("unexpected resolution: {:?}", other),
    }
}

#[test]
fn test_act_new_with_bare_name_renders_into_invocation_dir() {
    let data = sample_data();
    let r = Action::act(
        &data,
        Action::New(Named::Name(Some("trip".to_string()))),
        &"/work".to_string(),
    );
    match r {
        Ok(Resolution::Render(job)) => {
            assert_eq!(job.template.id, "default");
            assert_eq!(job.inject_path, "/work");
            assert!(job.overwrite);
            match job.name_plan {
                NamePlan::Given(n) => assert_eq!(n, "trip"),
                other => panic!("unexpected name plan: {:?}", other),
            }
        }
        other => panic!("unexpected resolution: {:?}", other),
    }
}

#[test]
fn test_act_template_with_name_renders_named_template() {
    let data = sample_data();
    let r = Action::act(
        &data,
        Action::New(Named::TemplateWithName(
            Some("unnamed".to_string()),
            Some("trip".to_string()),
        )),
        &"/work".to_string(),
    );
    match r {
        Ok(Resolution::Render(job)) => {
            assert_eq!(job.template.id, "unnamed");
            assert_eq!(job.inject_path, "/work");
            match job.name_plan {
                NamePlan::Given(n) => assert_eq!(n, "trip"),
                other => panic!("unexpected name plan: {:?}", other),
            }
        }
        other => panic!("unexpected resolution: {:?}", other),
    }
}

#[test]
fn test_act_exec_name_source_becomes_command_plan() {
    let data = sample_data();
    let r = Action::act(
        &data,
        Action::Default(Named::Template(Some("scripted".to_string()))),
        &"/work".to_string(),
    );
    match r {
        Ok(Resolution::Render(job)) => match job.name_plan {
            NamePlan::FromCommand(run, args) => {
                assert_eq!(run, "date");
                assert_eq!(args, vec!["+%A".to_string()]);
            }
            other => panic!("unexpected name plan: {:?}", other),
        },
        other => panic!("unexpected resolution: {:?}", other),
    }
}

#[test]
fn test_act_unset_name_source_fails_before_any_file_work() {
    let data = sample_data();
    let r = Action::act(
        &data,
        Action::Default(Named::Template(Some("unnamed".to_string()))),
        &"/work".to_string(),
    );
    assert!(matches!(r, Err(NoteError::NotFound(_))));
}

#[test]
fn test_act_missing_template_is_not_found() {
    let data = sample_data();
    let r = Action::act(
        &data,
        Action::Default(Named::Template(Some("missing".to_string()))),
        &"/work".to_string(),
    );
    assert!(matches!(r, Err(NoteError::NotFound(_))));
    let empty = Data { config: Config { data: "d".to_string() }, templates: vec![] };
    let r2 = Action::act(&empty, Action::Default(Named::Default), &"/work".to_string());
    assert!(matches!(r2, Err(NoteError::NotFound(_))));
}

#[test]
fn test_resolve_maps_subcommand_tags() {
    assert!(matches!(
        Action::resolve(&Some("new".to_string()), Named::Default),
        Action::New(Named::Default)
    ));
    assert!(matches!(
        Action::resolve(&Some("add".to_string()), Named::Default),
        Action::Add(Named::Default)
    ));
    assert!(matches!(Action::resolve(&Some("list".to_string()), Named::Default), Action::List));
    assert!(matches!(
        Action::resolve(&Some("templates".to_string()), Named::Default),
        Action::Default(Named::Default)
    ));
    assert!(matches!(Action::resolve(&None, Named::Default), Action::Default(Named::Default)));
}

#[test]
fn test_act_add_absolute_name_replaces_directory() {
    let data = sample_data();
    let r = Action::act(
        &data,
        Action::Add(Named::Name(Some("/elsewhere/note.txt".to_string()))),
        &"/work".to_string(),
    );
    match r {
        Ok(Resolution::AddPath(p)) => assert_eq!(p, "/elsewhere/note.md"),
        other => panic!("unexpected resolution: {:?}", other),
    }
}
