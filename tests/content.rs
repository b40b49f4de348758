use ims::content_command;
use ims::front_matter::{render_front_matter, split_front_matter};
use ims::model::{create_model, group_by_tag, sort_contents, Content, ItemGroup, Meta, Timestamp};
use ims::site::{Error, Site};
use ims::site_command::build;
use ims::sink::TemplateWriter;

fn record(title: &str, secs: i64, tags: &[&str], path: &str) -> Content {
    Content {
        id: format!("id-{}", title),
        title: title.to_string(),
        description: String::new(),
        target: "LIVE".to_string(),
        tags: tags.iter().map(|t| t.to_string()).collect(),
        create_time: Timestamp { secs, nanos: 0 },
        meta: Meta::Null,
        content: String::new(),
        path: path.to_string(),
    }
}

fn titles(cs: &[Content]) -> Vec<String> {
    cs.iter().map(|c| c.title.clone()).collect()
}

#[test]
fn contents_sorted_newest_first() {
    let cs = vec![record("a", 10, &[], "a"), record("b", 30, &[], "b"), record("c", 20, &[], "c")];
    assert_eq!(titles(&sort_contents(cs)), vec!["b", "c", "a"]);
}

#[test]
fn equal_times_keep_order() {
    let cs = vec![record("a", 10, &[], "a"), record("b", 10, &[], "b"), record("c", 11, &[], "c")];
    assert_eq!(titles(&sort_contents(cs)), vec!["c", "a", "b"]);
}

#[test]
fn nanoseconds_break_ties() {
    let mut a = record("a", 10, &[], "a");
    a.create_time.nanos = 5;
    let b = record("b", 10, &[], "b");
    assert_eq!(titles(&sort_contents(vec![b, a])), vec!["a", "b"]);
}

#[test]
fn tag_groups_by_size() {
    let cs = vec![record("one", 2, &["x"], "one"), record("two", 1, &["x", "y"], "two")];
    let model = create_model(cs);
    assert_eq!(model.tags.len(), 2);
    assert_eq!(model.tags[0].name, "x");
    assert_eq!(model.tags[0].list.len(), 2);
    assert_eq!(model.tags[1].name, "y");
    assert_eq!(model.tags[1].list.len(), 1);
}

#[test]
fn tag_groups_first_seen_order_and_ties() {
    let cs = vec![
        record("p", 3, &["b", "a"], "p"),
        record("q", 2, &["c", "a"], "q"),
        record("r", 1, &["c"], "r"),
    ];
    let groups = group_by_tag(&cs);
    let names: Vec<&str> = groups.iter().map(|g| g.name.as_str()).collect();
    assert_eq!(names, vec!["b", "a", "c"]);
    let model = create_model(cs);
    let sorted: Vec<(&str, Vec<usize>)> =
        model.tags.iter().map(|g| (g.name.as_str(), g.list.clone())).collect();
    assert_eq!(sorted, vec![("a", vec![0, 1]), ("c", vec![1, 2]), ("b", vec![0])]);
}

#[test]
fn duplicate_tags_are_kept() {
    let groups = group_by_tag(&vec![record("p", 1, &["x", "x"], "p")]);
    assert_eq!(groups.len(), 1);
    assert_eq!(groups[0].list, vec![0, 0]);
}

#[test]
fn archives_by_day_latest_first() {
    // 2017-07-14T02:40:00Z, 2017-07-14T12:00:00Z, 2018-01-01T00:00:00Z
    let cs = vec![
        record("a", 1_500_000_000, &[], "a"),
        record("b", 1_500_033_600, &[], "b"),
        record("c", 1_514_764_800, &[], "c"),
    ];
    let model = create_model(cs);
    assert_eq!(titles(&model.contents), vec!["c", "b", "a"]);
    let days: Vec<(&str, Vec<usize>)> =
        model.archives.iter().map(|g| (g.name.as_str(), g.list.clone())).collect();
    assert_eq!(days, vec![("2018-01-01", vec![0]), ("2017-07-14", vec![1, 2])]);
}

#[test]
fn item_group_new_is_empty() {
    let g: ItemGroup<usize> = ItemGroup::new("tag");
    assert_eq!(g.name, "tag");
    assert!(g.list.is_empty());
}

#[test]
fn front_matter_round_trip() {
    let text = render_front_matter("{\"id\": 1}", "# Body\n");
    assert_eq!(text, "``````` json\r\n{\"id\": 1}\r\n```````\r\n# Body\n");
    let (h, b) = split_front_matter(&text).unwrap();
    assert_eq!(h, "\r\n{\"id\": 1}\r\n");
    assert_eq!(b, "\r\n# Body\n");
}

#[test]
fn front_matter_leading_space_and_first_fence() {
    let text = " \n\t``````` json{}```````a```````b";
    let (h, b) = split_front_matter(text).unwrap();
    assert_eq!(h, "{}");
    assert_eq!(b, "a```````b");
}

#[test]
fn front_matter_missing() {
    assert_eq!(split_front_matter("no header"), None);
    assert_eq!(split_front_matter("``````` json {} but never closed"), None);
    assert_eq!(split_front_matter("x``````` json{}```````"), None);
    assert_eq!(content_command::load("plain"), Err(Error::MissingFrontMatter));
}

#[test]
fn content_load_splits() {
    let (h, b) = content_command::load("``````` json{\"title\":\"t\"}```````body").unwrap();
    assert_eq!(h, "{\"title\":\"t\"}");
    assert_eq!(b, "body");
}

#[test]
fn new_content_defaults() {
    let site = Site::new("/s");
    let now = Timestamp { secs: 5, nanos: 0 };
    let (file, c) = content_command::new(&site, "post/a.md", "uid", now);
    assert_eq!(file, "/s/content/post/a.md");
    assert_eq!(c.title, "TITLE");
    assert_eq!(c.description, "DESCRIPTION");
    assert_eq!(c.target, "DRAFT");
    assert!(c.tags.is_empty());
    assert_eq!(c.create_time, now);
    assert!(matches!(c.meta, Meta::Null));
    assert_eq!(c.content, "# Content \r\nmarkdown document.");
    assert_eq!(c.path, "post/a.md");
    assert_eq!(c.id, "uid");
}

#[test]
fn list_is_newest_first() {
    let cs = vec![record("old", 1, &[], "o"), record("new", 2, &[], "n")];
    assert_eq!(titles(&content_command::list(cs)), vec!["new", "old"]);
}

#[test]
fn end_to_end_build() {
    let t1 = record("First", 1_000, &[], "first.html");
    let t2 = record("Second", 2_000, &[], "second.html");
    let model = create_model(vec![t1, t2]);
    let mut w = TemplateWriter::new();
    for c in &model.contents {
        w.write(&format!("<h1>{}</h1>", c.title));
        w.capture(&c.path);
    }
    for c in &model.contents {
        w.write(&format!("<li>{}</li>", c.title));
    }
    w.capture("index.html");
    let site = Site::new("/site");
    let theme_files = vec![
        "/site/theme/default/layout/index.hbs".to_string(),
        "/site/theme/default/css/main.css".to_string(),
    ];
    let plan = build(&site, &vec![None, Some(w.into_files())], &theme_files).unwrap();
    let mut writes = plan.writes.clone();
    writes.sort();
    assert_eq!(
        writes,
        vec![
            ("/site/build/first.html".to_string(), "<h1>First</h1>".to_string()),
            ("/site/build/index.html".to_string(), "<li>Second</li><li>First</li>".to_string()),
            ("/site/build/second.html".to_string(), "<h1>Second</h1>".to_string()),
        ]
    );
    assert_eq!(
        plan.copies,
        vec![(
            "/site/theme/default/css/main.css".to_string(),
            "/site/build/css/main.css".to_string()
        )]
    );
}
