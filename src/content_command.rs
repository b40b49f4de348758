//! The decisions of the content commands.
use vstd::prelude::*;
use vstd::string::*;
use crate::front_matter::{front_matter_parts, split_front_matter};
use crate::model::{sort_contents, sorted_by, time_keys, Content, Meta, Timestamp};
use crate::site::{join, join_path, Error, Site};

verus! {

/// `c` is a new record at `path` with identifier `id`, created at `now`,
/// with the default fields.
pub open spec fn is_new_content(c: Content, path: Seq<char>, id: Seq<char>, now: Timestamp) -> bool {
    &&& c.id@ == id
    &&& c.title@ == "TITLE"@
    &&& c.description@ == "DESCRIPTION"@
    &&& c.target@ == "DRAFT"@
    &&& c.tags@.len() == 0
    &&& c.create_time == now
    &&& c.meta is Null
    &&& c.content@ == "# Content \r\nmarkdown document."@
    &&& c.path@ == path
}

/// A new content record at `path` (relative to the content directory),
/// with the file it is to be written to. The identifier and the creation
/// time are given by the caller.
pub fn new(site: &Site, path: &str, id: &str, now: Timestamp) -> (r: (String, Content))
    ensures
        r.0@ == join_path(join_path(site.root@, site.content_directory@), path@),
        is_new_content(r.1, path@, id@, now),
{
    let dir = site.get_content_path();
    let file = join(dir.as_str(), path);
    let c = Content {
        id: id.to_owned(),
        title: "TITLE".to_owned(),
        description: "DESCRIPTION".to_owned(),
        target: "DRAFT".to_owned(),
        tags: Vec::new(),
        create_time: now,
        meta: Meta::Null,
        content: "# Content \r\nmarkdown document.".to_owned(),
        path: path.to_owned(),
    };
    (file, c)
}

/// The records in listing order: newest first.
pub fn list(contents: Vec<Content>) -> (r: Vec<Content>)
    ensures
        sorted_by(time_keys(contents@), contents@, r@),
{
    sort_contents(contents)
}

/// The header and the body of a content file.
pub fn load(text: &str) -> (r: Result<(String, String), Error>)
    ensures
        match r {
            Ok((h, b)) => front_matter_parts(text@) == Some((h@, b@)),
            Err(e) => e == Error::MissingFrontMatter && front_matter_parts(text@) is None,
        },
{
    match split_front_matter(text) {
        Some(parts) => Ok(parts),
        None => Err(Error::MissingFrontMatter),
    }
}

} // verus!
