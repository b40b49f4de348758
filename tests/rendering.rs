use ims::anchor::identifier_for;
use ims::markdown::{anchor_fragment, markdown_to_html, markdown_toc, TocItem};
use ims::pagination::{page_size, paginate, Page, DEFAULT_PAGE_SIZE};
use ims::sink::TemplateWriter;

#[test]
fn identifier_is_deterministic() {
    let a = identifier_for("Intro");
    let b = identifier_for("Intro");
    assert_eq!(a, b);
    assert!(!a.is_empty());
    assert!(a.chars().all(|c| c.is_ascii_digit()));
}

#[test]
fn identifier_differs_for_different_texts() {
    assert_ne!(identifier_for("Intro"), identifier_for("Outro"));
    assert_ne!(identifier_for(""), identifier_for("Intro"));
}

#[test]
fn anchor_fragment_wraps_text() {
    let f = anchor_fragment("Intro");
    assert_eq!(f, format!("<a id=\"anchor_{}\"></a>Intro", identifier_for("Intro")));
}

#[test]
fn markdown_heading_gets_anchor() {
    let html = markdown_to_html("# Intro\n\nSome text.\n");
    let expected = format!(
        "<h1><a id=\"anchor_{}\"></a>Intro</h1>\n<p>Some text.</p>\n",
        identifier_for("Intro")
    );
    assert_eq!(html, expected);
}

#[test]
fn markdown_without_headings_is_plain() {
    assert_eq!(markdown_to_html("plain *words*\n"), "<p>plain <em>words</em></p>\n");
}

#[test]
fn toc_lists_headings_in_order() {
    let toc: Vec<TocItem> = markdown_toc("# One\n\ntext\n\n## Two\n\n### Three\n");
    let got: Vec<(String, i32)> = toc.into_iter().map(|t| (t.name, t.level)).collect();
    assert_eq!(
        got,
        vec![("One".to_string(), 1), ("Two".to_string(), 2), ("Three".to_string(), 3)]
    );
}

#[test]
fn toc_and_transform_share_identifiers() {
    let doc = "# Intro\n\n## Details\n\nbody\n";
    let html = markdown_to_html(doc);
    for item in markdown_toc(doc) {
        let anchor = format!("<a id=\"anchor_{}\"></a>", identifier_for(&item.name));
        assert!(html.contains(&anchor), "missing {}", anchor);
    }
}

#[test]
fn toc_of_empty_document() {
    assert!(markdown_toc("").is_empty());
    assert_eq!(markdown_to_html(""), "");
}

#[test]
fn toc_item_new() {
    let t = TocItem::new("Name", 2);
    assert_eq!(t.name, "Name");
    assert_eq!(t.level, 2);
}

fn pages_of(items: &[u32], size: usize) -> Vec<Vec<u32>> {
    paginate(items.len(), size)
        .iter()
        .map(|p| items[p.start..p.end].to_vec())
        .collect()
}

#[test]
fn pagination_empty_sequence_has_no_pages() {
    assert!(paginate(0, 10).is_empty());
}

#[test]
fn pagination_exact_multiple() {
    let items: Vec<u32> = (0..10).collect();
    let pages = pages_of(&items, 10);
    assert_eq!(pages.len(), 1);
    assert_eq!(pages[0], items);
}

#[test]
fn pagination_one_more_than_size() {
    let items: Vec<u32> = (0..11).collect();
    let pages = pages_of(&items, 10);
    assert_eq!(pages.len(), 2);
    assert_eq!(pages[0].len(), 10);
    assert_eq!(pages[1], vec![10]);
    assert_eq!(pages.concat(), items);
}

#[test]
fn pagination_two_full_pages() {
    let items: Vec<u32> = (0..20).collect();
    let pages = pages_of(&items, 10);
    assert_eq!(pages.len(), 2);
    assert!(pages.iter().all(|p| p.len() == 10));
    assert_eq!(pages.concat(), items);
}

#[test]
fn pagination_bindings() {
    let pages = paginate(7, 3);
    assert_eq!(
        pages,
        vec![
            Page { start: 0, end: 3, size: 3, index: 1, count: 3 },
            Page { start: 3, end: 6, size: 3, index: 2, count: 3 },
            Page { start: 6, end: 7, size: 3, index: 3, count: 3 },
        ]
    );
}

#[test]
fn pagination_size_one() {
    let items: Vec<u32> = (0..3).collect();
    let pages = pages_of(&items, 1);
    assert_eq!(pages, vec![vec![0], vec![1], vec![2]]);
}

#[test]
fn page_size_defaults() {
    assert_eq!(page_size(None), DEFAULT_PAGE_SIZE);
    assert_eq!(page_size(Some(0)), 10);
    assert_eq!(page_size(Some(4)), 4);
}

#[test]
fn sink_two_files() {
    let mut w = TemplateWriter::new();
    w.write("X");
    w.capture("a");
    w.write("Y");
    w.capture("b");
    let mut files = w.into_files();
    files.sort();
    assert_eq!(
        files,
        vec![("a".to_string(), "X".to_string()), ("b".to_string(), "Y".to_string())]
    );
}

#[test]
fn sink_later_capture_wins() {
    let mut w = TemplateWriter::new();
    w.write("first");
    w.capture("a");
    w.write("second");
    w.capture("a");
    assert_eq!(w.into_files(), vec![("a".to_string(), "second".to_string())]);
}

#[test]
fn sink_drops_unaddressed_text() {
    let mut w = TemplateWriter::new();
    w.write("head ");
    w.write("body");
    w.capture("page.html");
    w.write("trailing");
    assert_eq!(
        w.into_files(),
        vec![("page.html".to_string(), "head body".to_string())]
    );
}

#[test]
fn sink_capture_of_empty_buffer() {
    let mut w = TemplateWriter::new();
    w.capture("empty");
    assert_eq!(w.into_files(), vec![("empty".to_string(), String::new())]);
}
