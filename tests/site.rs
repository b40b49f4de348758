use ims::command::{new_site, publish_site, show_site};
use ims::files::{copy_all_file, relative_path, relative_paths, template_names};
use ims::helpers::{file_path, format_date, int_string, Param};
use ims::site::{join, DirectoryMap, Error, Site};
use ims::site_command;
use ims::text::decimal_string;

#[test]
fn join_paths() {
    assert_eq!(join("a", "b"), "a/b");
    assert_eq!(join("a/", "b"), "a/b");
    assert_eq!(join("", "b"), "b");
    assert_eq!(join("a", "/b"), "/b");
    assert_eq!(join("a", ""), "a/");
}

#[test]
fn site_paths() {
    let site = Site::new(".");
    assert_eq!(site.get_theme_path(), "./theme/default");
    assert_eq!(site.get_content_path(), "./content");
    assert_eq!(site.get_data_path(), "./data");
    assert_eq!(site.get_build_path(), "./build");
    assert_eq!(site.get_publish_path(), "./publish");
}

#[test]
fn site_defaults() {
    let site = Site::new("/r");
    assert_eq!(site.title, "<Title>");
    assert_eq!(site.author, "<Author>");
    assert_eq!(site.subtitle, "<Subtitle>");
    assert_eq!(site.address, "/");
    assert_eq!(site.theme, "default");
    assert_eq!(site.root, "/r");
}

#[test]
fn directory_map_defaults() {
    let d = DirectoryMap::new();
    assert_eq!(
        vec![d.layout, d.content, d.data, d.build, d.publish, d.assets],
        vec!["layout", "content", "data", "build", "publish", "assets"]
    );
}

#[test]
fn new_site_refuses_existing() {
    assert_eq!(site_command::new("/x", true).err(), Some(Error::SiteExists));
    assert_eq!(site_command::new("/x", false).unwrap().root, "/x");
    assert_eq!(site_command::init(false).unwrap().root, ".");
    assert_eq!(new_site(true).err(), Some(Error::SiteExists));
    assert_eq!(new_site(false).unwrap().root, ".");
}

#[test]
fn info_fields_in_order() {
    let site = Site::new(".");
    let info = site_command::info(&site);
    let labels: Vec<&str> = info.iter().map(|(l, _)| l.as_str()).collect();
    assert_eq!(labels, vec!["Title", "Subtitle", "Author", "Address", "Theme"]);
    assert_eq!(info[0].1, "<Title>");
    assert_eq!(show_site(&site), info);
}

#[test]
fn server_address() {
    let site = Site::new("/srv");
    assert_eq!(
        site_command::server(&site, 8080),
        ("127.0.0.1:8080".to_string(), "/srv/build".to_string())
    );
}

#[test]
fn publish_copies_everything() {
    let site = Site::new("/s");
    let files = vec!["/s/build/index.html".to_string(), "/s/build/layout/x".to_string()];
    let expected = vec![
        ("/s/build/index.html".to_string(), "/s/publish/index.html".to_string()),
        ("/s/build/layout/x".to_string(), "/s/publish/layout/x".to_string()),
    ];
    assert_eq!(site_command::publish(&site, &files).unwrap(), expected);
    assert_eq!(publish_site(&site, &files).unwrap(), expected);
}

#[test]
fn copy_skips_layout_only() {
    let files = vec![
        "t/layout/a.hbs".to_string(),
        "t/layouts/b.css".to_string(),
        "t/layout".to_string(),
        "t/c.js".to_string(),
    ];
    let plan = copy_all_file("t", "out", &files, Some("layout")).unwrap();
    assert_eq!(
        plan,
        vec![
            ("t/layouts/b.css".to_string(), "out/layouts/b.css".to_string()),
            ("t/c.js".to_string(), "out/c.js".to_string()),
        ]
    );
}

#[test]
fn copy_rejects_outside_file() {
    let files = vec!["t/a".to_string(), "u/b".to_string()];
    assert_eq!(copy_all_file("t", "out", &files, None), Err(Error::NotUnderSource));
    assert_eq!(relative_paths("t", &files), Err(Error::NotUnderSource));
}

#[test]
fn relative_paths_of_listing() {
    assert_eq!(relative_path("c/a/b.md", "c"), Some("a/b.md".to_string()));
    assert_eq!(relative_path("c/a/b.md", "c/"), Some("a/b.md".to_string()));
    assert_eq!(relative_path("cx/a", "c"), None);
    assert_eq!(relative_path("c", "c"), Some(String::new()));
    let files = vec!["c/x.md".to_string(), "c/d/y.md".to_string()];
    assert_eq!(relative_paths("c", &files).unwrap(), vec!["x.md", "d/y.md"]);
}

#[test]
fn templates_by_extension() {
    let files = vec![
        "l/index.hbs".to_string(),
        "l/post/item.hbs".to_string(),
        "l/.hbs".to_string(),
        "l/notes.txt".to_string(),
        "l/hbs".to_string(),
    ];
    assert_eq!(
        template_names("l", &files).unwrap(),
        vec![
            ("l/index.hbs".to_string(), "index.hbs".to_string()),
            ("l/post/item.hbs".to_string(), "post/item.hbs".to_string()),
        ]
    );
    assert_eq!(
        template_names("l", &vec!["m/a.hbs".to_string()]),
        Err(Error::NotUnderSource)
    );
}

#[test]
fn file_helper_path() {
    let params = vec![
        Param::Text("post/".to_string()),
        Param::Int(-12),
        Param::Other,
        Param::Int(7),
        Param::Text(".html".to_string()),
    ];
    assert_eq!(file_path(&params), "post/-127.html");
    assert_eq!(file_path(&vec![]), "");
}

#[test]
fn decimal_strings() {
    assert_eq!(decimal_string(0), "0");
    assert_eq!(decimal_string(1234567890), "1234567890");
    assert_eq!(decimal_string(u64::MAX), u64::MAX.to_string());
    assert_eq!(int_string(i64::MIN), i64::MIN.to_string());
    assert_eq!(int_string(-3), "-3");
}

#[test]
fn date_format() {
    assert_eq!(format_date("2018-01-05T10:00:00Z"), Some("Jan  5, 2018".to_string()));
    assert_eq!(format_date("2018-11-25T10:00:00+08:00"), Some("Nov 25, 2018".to_string()));
    assert_eq!(format_date("not a date"), None);
}

#[test]
fn error_messages() {
    assert!(!Error::SiteExists.message().is_empty());
    assert_eq!(
        Error::NotUnderSource.message(),
        "The Path is not The child path of the parent path."
    );
}
