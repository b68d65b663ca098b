use mdb::config::{Data, Named, Template};

#[test]
fn test_named_from_template_and_name_default() {
    assert_eq!(Named::from_template_and_name(None, None), Named::Default);
}

#[test]
fn test_named_from_template_and_name_template() {
    assert_eq!(
        Named::from_template_and_name(Some("test".into()), None),
        Named::Template(Some("test".into()))
    );
}

#[test]
fn test_named_from_template_and_name_name() {
    assert_eq!(
        Named::from_template_and_name(None, Some("test".into())),
        Named::Name(Some("test".into()))
    );
}

#[test]
fn test_named_from_template_and_name_both() {
    assert_eq!(
        Named::from_template_and_name(Some("testt".into()), Some("testn".into())),
        Named::TemplateWithName(Some("testt".into()), Some("testn".into()))
    );
}

#[test]
fn test_template_exists_false() {
    assert_eq!(Data::template_file_exists(&String::from("nonexist")), false)
}

#[test]
fn test_get_template_finds_first_match() {
    let data = Data {
        config: mdb::config::Config { data: "~/brain.toml".to_string() },
        templates: vec![
            Template {
                id: "default".to_string(),
                dir: None,
                content: Some("hello".to_string()),
                name: None,
            },
            Template {
                id: "work".to_string(),
                dir: None,
                content: Some("work note".to_string()),
                name: None,
            },
        ],
    };
    let t = data.get_template(&"work".to_string()).expect("template must be found");
    assert_eq!(t.id, "work");
    let d = data.get_default_template().expect("default template must be found");
    assert_eq!(d.id, "default");
    assert!(data.get_template(&"missing".to_string()).is_none());
}

#[test]
fn test_get_path_composes_body_file_path() {
    let p = Template::get_path(&"daily".to_string(), &"/cfg/mdb".to_string());
    assert_eq!(p, "/cfg/mdb/daily.md");
}
