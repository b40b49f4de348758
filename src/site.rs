//! Site configuration, its directory layout, and the library's errors.
use vstd::prelude::*;
use vstd::string::*;
use crate::model::Meta;
use crate::text::{chars_of, concat_str};

verus! {

/// Why an operation of the library failed.
#[derive(Clone, Copy, Debug, PartialEq, Eq, Structural)]
pub enum Error {
    /// A site already exists where a new one was to be created.
    SiteExists,
    /// A listed file does not lie under the directory it was listed from.
    NotUnderSource,
    /// A content file does not open with a closed, fenced header.
    MissingFrontMatter,
}

/// The text that reports an error.
pub open spec fn error_text(e: Error) -> Seq<char> {
    match e {
        Error::SiteExists => "Failed to create a new site. because a site exists in the current directory."@,
        Error::NotUnderSource => "The Path is not The child path of the parent path."@,
        Error::MissingFrontMatter => "Failed to find mark info on the content."@,
    }
}

impl Error {
    pub fn message(&self) -> (r: String)
        ensures
            r@ == error_text(*self),
    {
        let r = match self {
            Error::SiteExists => {
                "Failed to create a new site. because a site exists in the current directory.".to_owned()
            },
            Error::NotUnderSource => "The Path is not The child path of the parent path.".to_owned(),
            Error::MissingFrontMatter => "Failed to find mark info on the content.".to_owned(),
        };
        r
    }
}

/// `base` and `p` joined with `/`: an absolute `p` replaces `base`, and no
/// separator is added after an empty `base` or one that ends with `/`.
pub open spec fn join_path(base: Seq<char>, p: Seq<char>) -> Seq<char> {
    if p.len() > 0 && p[0] == '/' {
        p
    } else if base.len() > 0 && base.last() != '/' {
        base + seq!['/'] + p
    } else {
        base + p
    }
}

/// Joins two paths with `/`, as `Path::join` does on Unix.
pub fn join(base: &str, p: &str) -> (r: String)
    ensures
        r@ == join_path(base@, p@),
{
    let pc = chars_of(p);
    if pc.len() > 0 && pc[0] == '/' {
        return p.to_owned();
    }
    let bc = chars_of(base);
    if bc.len() > 0 && bc[bc.len() - 1] != '/' {
        let mut s = concat_str(base, "/");
        s.append(p);
        proof {
            reveal_strlit("/");
            assert(s@ =~= base@ + seq!['/'] + p@);
        }
        s
    } else {
        concat_str(base, p)
    }
}

/// The configuration of a site.
pub struct Site {
    pub title: String,
    pub author: String,
    pub subtitle: String,
    pub address: String,
    pub theme: String,
    pub meta: Meta,
    pub theme_directory: String,
    pub content_directory: String,
    pub data_directory: String,
    pub build_directory: String,
    pub publish_directory: String,
    /// The directory the site lives in.
    pub root: String,
}

impl Site {
    /// The default configuration of a site rooted at `root_path`.
    pub fn new(root_path: &str) -> (r: Site)
        ensures
            r.title@ == "<Title>"@,
            r.author@ == "<Author>"@,
            r.subtitle@ == "<Subtitle>"@,
            r.address@ == "/"@,
            r.theme@ == "default"@,
            r.meta is Null,
            r.theme_directory@ == "theme"@,
            r.content_directory@ == "content"@,
            r.data_directory@ == "data"@,
            r.build_directory@ == "build"@,
            r.publish_directory@ == "publish"@,
            r.root@ == root_path@,
    {
        Site {
            title: "<Title>".to_owned(),
            author: "<Author>".to_owned(),
            subtitle: "<Subtitle>".to_owned(),
            address: "/".to_owned(),
            theme: "default".to_owned(),
            meta: Meta::Null,
            theme_directory: "theme".to_owned(),
            content_directory: "content".to_owned(),
            data_directory: "data".to_owned(),
            build_directory: "build".to_owned(),
            publish_directory: "publish".to_owned(),
            root: root_path.to_owned(),
        }
    }

    /// The directory of the site's theme: `root/theme_directory/theme`.
    pub fn get_theme_path(&self) -> (r: String)
        ensures
            r@ == join_path(join_path(self.root@, self.theme_directory@), self.theme@),
    {
        let d = join(self.root.as_str(), self.theme_directory.as_str());
        join(d.as_str(), self.theme.as_str())
    }

    /// The directory of the site's content records.
    pub fn get_content_path(&self) -> (r: String)
        ensures
            r@ == join_path(self.root@, self.content_directory@),
    {
        join(self.root.as_str(), self.content_directory.as_str())
    }

    /// The directory of the site's data files.
    pub fn get_data_path(&self) -> (r: String)
        ensures
            r@ == join_path(self.root@, self.data_directory@),
    {
        join(self.root.as_str(), self.data_directory.as_str())
    }

    /// The directory a build is written to.
    pub fn get_build_path(&self) -> (r: String)
        ensures
            r@ == join_path(self.root@, self.build_directory@),
    {
        join(self.root.as_str(), self.build_directory.as_str())
    }

    /// The directory a build is published to.
    pub fn get_publish_path(&self) -> (r: String)
        ensures
            r@ == join_path(self.root@, self.publish_directory@),
    {
        join(self.root.as_str(), self.publish_directory.as_str())
    }
}

/// The names of a site's directories.
pub struct DirectoryMap {
    pub layout: String,
    pub content: String,
    pub data: String,
    pub build: String,
    pub publish: String,
    pub assets: String,
}

impl DirectoryMap {
    pub fn new() -> (r: DirectoryMap)
        ensures
            r.layout@ == "layout"@,
            r.content@ == "content"@,
            r.data@ == "data"@,
            r.build@ == "build"@,
            r.publish@ == "publish"@,
            r.assets@ == "assets"@,
    {
        DirectoryMap {
            layout: "layout".to_owned(),
            content: "content".to_owned(),
            data: "data".to_owned(),
            build: "build".to_owned(),
            publish: "publish".to_owned(),
            assets: "assets".to_owned(),
        }
    }
}

} // verus!
