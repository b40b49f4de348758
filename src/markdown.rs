//! Markdown to HTML with anchored headings, and table-of-contents extraction.
//!
//! Both scan the same event stream and both name a heading by
//! [`identifier_for`](crate::anchor::identifier_for), so a link built from a
//! table-of-contents entry reaches the anchor that the transform emitted.
use vstd::prelude::*;
use vstd::string::*;
use pulldown_cmark::{html, CowStr, Event, Parser, Tag, TagEnd};
use crate::anchor::{identifier, identifier_for};

verus! {

/// One event of a markdown document's event stream, as far as headings are concerned.
pub enum MdEvent {
    /// Start of a heading of the given level.
    HeadingStart(u8),
    HeadingEnd,
    Text(String),
    /// Any other event, kept as the parser produced it.
    Other,
}

/// The mathematical form of an [`MdEvent`].
pub enum Tok {
    Start(nat),
    End,
    Text(Seq<char>),
    Other,
}

impl View for MdEvent {
    type V = Tok;

    open spec fn view(&self) -> Tok {
        match self {
            MdEvent::HeadingStart(l) => Tok::Start(*l as nat),
            MdEvent::HeadingEnd => Tok::End,
            MdEvent::Text(t) => Tok::Text(t@),
            MdEvent::Other => Tok::Other,
        }
    }
}

pub open spec fn toks(evs: Seq<MdEvent>) -> Seq<Tok> {
    evs.map_values(|e: MdEvent| e@)
}

/// One piece of the transformed stream: the event at a position of the
/// parsed stream, or an inline HTML fragment that takes its place.
pub enum HtmlPiece {
    Keep(usize),
    Html(String),
}

pub enum Piece {
    Keep(nat),
    Html(Seq<char>),
}

impl View for HtmlPiece {
    type V = Piece;

    open spec fn view(&self) -> Piece {
        match self {
            HtmlPiece::Keep(k) => Piece::Keep(*k as nat),
            HtmlPiece::Html(h) => Piece::Html(h@),
        }
    }
}

pub open spec fn pieces_view(ps: Seq<HtmlPiece>) -> Seq<Piece> {
    ps.map_values(|p: HtmlPiece| p@)
}

/// A heading entry of a table of contents.
pub struct TocItem {
    pub name: String,
    pub level: i32,
}

impl TocItem {
    pub fn new(name: &str, level: i32) -> (r: TocItem)
        ensures
            r.name@ == name@,
            r.level == level,
    {
        TocItem { name: name.to_owned(), level }
    }
}

pub open spec fn toc_view(items: Seq<TocItem>) -> Seq<(Seq<char>, int)> {
    items.map_values(|t: TocItem| (t.name@, t.level as int))
}

/// The event stream of a document; it depends on the text alone.
pub uninterp spec fn events_of(doc: Seq<char>) -> Seq<Tok>;

/// The HTML rendering of a document's event stream with pieces replaced.
pub uninterp spec fn html_of(doc: Seq<char>, pieces: Seq<Piece>) -> Seq<char>;

/// Relies on `pulldown_cmark::Parser::new`: the document's event stream,
/// with heading starts, heading ends and text told apart and every other
/// event kept as `Other`, one entry per event.
#[verifier::external_body]
fn parse_markdown(doc: &str) -> (r: Vec<MdEvent>)
    ensures
        toks(r@) == events_of(doc@),
{
    Parser::new(doc).map(|e| match e {
        Event::Start(Tag::Heading { level, .. }) => MdEvent::HeadingStart(level as u8),
        Event::End(TagEnd::Heading(_)) => MdEvent::HeadingEnd,
        Event::Text(t) => MdEvent::Text(t.into_string()),
        _ => MdEvent::Other,
    }).collect()
}

/// Relies on `pulldown_cmark::html::push_html`, fed the document's own
/// events (`Parser::new`) in the order of `pieces`, with each `Html` piece
/// given as an HTML event.
#[verifier::external_body]
fn render_pieces(doc: &str, pieces: &Vec<HtmlPiece>) -> (r: String)
    requires
        forall|k: int|
            0 <= k < pieces@.len() ==> (#[trigger] pieces@[k] matches HtmlPiece::Keep(j) ==> j
                < events_of(doc@).len()),
    ensures
        r@ == html_of(doc@, pieces_view(pieces@)),
{
    let events: Vec<Event> = Parser::new(doc).collect();
    let mut out = String::new();
    html::push_html(&mut out, pieces.iter().map(|p| match p {
        HtmlPiece::Keep(k) => events[*k].clone(),
        HtmlPiece::Html(h) => Event::Html(CowStr::from(h.clone())),
    }));
    out
}

/// The level of the heading open just before position `k`, if any.
pub open spec fn heading_at(ev: Seq<Tok>, k: int) -> Option<nat>
    decreases k,
{
    if k <= 0 {
        None
    } else {
        match ev[k - 1] {
            Tok::Start(l) => Some(l),
            Tok::End => None,
            _ => heading_at(ev, k - 1),
        }
    }
}

/// The anchor element placed before a heading's text.
pub open spec fn anchor_html(t: Seq<char>) -> Seq<char> {
    "<a id=\"anchor_"@ + identifier(t) + "\"></a>"@ + t
}

pub open spec fn piece_at(ev: Seq<Tok>, k: int) -> Piece {
    match ev[k] {
        Tok::Text(t) => if heading_at(ev, k) is Some {
            Piece::Html(anchor_html(t))
        } else {
            Piece::Keep(k as nat)
        },
        _ => Piece::Keep(k as nat),
    }
}

/// The transformed stream: each text inside a heading becomes its anchored HTML.
pub open spec fn anchored(ev: Seq<Tok>) -> Seq<Piece> {
    Seq::new(ev.len(), |k: int| piece_at(ev, k))
}

/// The table-of-contents entries found in the first `n` events.
pub open spec fn toc_upto(ev: Seq<Tok>, n: int) -> Seq<(Seq<char>, int)>
    decreases n,
{
    if n <= 0 {
        Seq::empty()
    } else {
        let prev = toc_upto(ev, n - 1);
        match ev[n - 1] {
            Tok::Text(t) => match heading_at(ev, n - 1) {
                Some(l) => prev.push((t, l as int)),
                None => prev,
            },
            _ => prev,
        }
    }
}

/// The table of contents: each text inside a heading with that heading's level, in document order.
pub open spec fn toc_of(ev: Seq<Tok>) -> Seq<(Seq<char>, int)> {
    toc_upto(ev, ev.len() as int)
}

/// The anchored HTML fragment for a heading text.
pub fn anchor_fragment(text: &str) -> (r: String)
    ensures
        r@ == anchor_html(text@),
{
    let id = identifier_for(text);
    let mut s = "<a id=\"anchor_".to_owned();
    s.append(id.as_str());
    s.append("\"></a>");
    s.append(text);
    s
}

/// Replaces every text event inside a heading by its anchored HTML and keeps
/// every other event in place.
pub fn anchor_events(events: &Vec<MdEvent>) -> (r: Vec<HtmlPiece>)
    ensures
        pieces_view(r@) == anchored(toks(events@)),
        forall|k: int|
            0 <= k < r@.len() ==> (#[trigger] r@[k] matches HtmlPiece::Keep(j) ==> j < events@.len()),
{
    let ghost ev = toks(events@);
    let mut out: Vec<HtmlPiece> = Vec::new();
    let mut open: Option<u8> = None;
    let mut i: usize = 0;
    while i < events.len()
        invariant
            i <= events@.len(),
            ev == toks(events@),
            out@.len() == i,
            forall|k: int| 0 <= k < i ==> (#[trigger] out@[k])@ == piece_at(ev, k),
            forall|k: int|
                0 <= k < i ==> (#[trigger] out@[k] matches HtmlPiece::Keep(j) ==> j < events@.len()),
            match open {
                Some(l) => heading_at(ev, i as int) == Some(l as nat),
                None => heading_at(ev, i as int) is None,
            },
        decreases events@.len() - i,
    {
        assert(ev[i as int] == events@[i as int]@);
        match &events[i] {
            MdEvent::HeadingStart(l) => {
                out.push(HtmlPiece::Keep(i));
                open = Some(*l);
            },
            MdEvent::HeadingEnd => {
                out.push(HtmlPiece::Keep(i));
                open = None;
            },
            MdEvent::Text(t) => {
                if open.is_some() {
                    out.push(HtmlPiece::Html(anchor_fragment(t.as_str())));
                } else {
                    out.push(HtmlPiece::Keep(i));
                }
            },
            MdEvent::Other => {
                out.push(HtmlPiece::Keep(i));
            },
        }
        i = i + 1;
    }
    assert(pieces_view(out@) =~= anchored(ev));
    out
}

/// Collects each text inside a heading, with that heading's level, in order.
pub fn toc_entries(events: &Vec<MdEvent>) -> (r: Vec<TocItem>)
    ensures
        toc_view(r@) == toc_of(toks(events@)),
{
    let ghost ev = toks(events@);
    let mut out: Vec<TocItem> = Vec::new();
    let mut open: Option<u8> = None;
    let mut i: usize = 0;
    while i < events.len()
        invariant
            i <= events@.len(),
            ev == toks(events@),
            toc_view(out@) == toc_upto(ev, i as int),
            match open {
                Some(l) => heading_at(ev, i as int) == Some(l as nat),
                None => heading_at(ev, i as int) is None,
            },
        decreases events@.len() - i,
    {
        assert(ev[i as int] == events@[i as int]@);
        match &events[i] {
            MdEvent::HeadingStart(l) => {
                open = Some(*l);
            },
            MdEvent::HeadingEnd => {
                open = None;
            },
            MdEvent::Text(t) => {
                match open {
                    Some(l) => {
                        out.push(TocItem::new(t.as_str(), l as i32));
                        assert(toc_view(out@) =~= toc_upto(ev, i as int + 1));
                    },
                    None => {},
                }
            },
            MdEvent::Other => {},
        }
        i = i + 1;
    }
    out
}

/// Converts markdown to HTML, with an anchor before the text of each heading.
pub fn markdown_to_html(doc: &str) -> (r: String)
    ensures
        r@ == html_of(doc@, anchored(events_of(doc@))),
{
    let events = parse_markdown(doc);
    let pieces = anchor_events(&events);
    render_pieces(doc, &pieces)
}

/// The table of contents of a markdown document: heading texts with their
/// levels, in document order.
pub fn markdown_toc(doc: &str) -> (r: Vec<TocItem>)
    ensures
        toc_view(r@) == toc_of(events_of(doc@)),
{
    let events = parse_markdown(doc);
    toc_entries(&events)
}

proof fn lemma_toc_upto_anchored(ev: Seq<Tok>, n: int, i: int)
    requires
        0 <= n <= ev.len(),
        0 <= i < toc_upto(ev, n).len(),
    ensures
        exists|k: int|
            0 <= k < n && #[trigger] piece_at(ev, k) == Piece::Html(
                anchor_html(toc_upto(ev, n)[i].0),
            ),
    decreases n,
{
    if n > 0 {
        let prev = toc_upto(ev, n - 1);
        if i < prev.len() {
            lemma_toc_upto_anchored(ev, n - 1, i);
            assert(toc_upto(ev, n)[i] == prev[i]);
        } else {
            let k = n - 1;
            assert(piece_at(ev, k) == Piece::Html(anchor_html(toc_upto(ev, n)[i].0)));
        }
    }
}

/// The transform and the table of contents agree on anchors: for every
/// entry of the table of contents, the transformed stream holds, at some
/// position, the anchor whose identifier is computed from that entry's name.
pub proof fn lemma_toc_anchors_match(ev: Seq<Tok>, i: int)
    requires
        0 <= i < toc_of(ev).len(),
    ensures
        exists|k: int|
            0 <= k < ev.len() && #[trigger] anchored(ev)[k] == Piece::Html(
                "<a id=\"anchor_"@ + identifier(toc_of(ev)[i].0) + "\"></a>"@ + toc_of(ev)[i].0,
            ),
{
    lemma_toc_upto_anchored(ev, ev.len() as int, i);
    let k = choose|k: int|
        0 <= k < ev.len() && #[trigger] piece_at(ev, k) == Piece::Html(
            anchor_html(toc_of(ev)[i].0),
        );
    assert(anchored(ev)[k] == piece_at(ev, k));
}

} // verus!
