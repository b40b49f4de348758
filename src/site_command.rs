//! The decisions of the site commands; reading and writing files is left
//! to the caller, which hands in what it read and carries out what is returned.
use vstd::prelude::*;
use vstd::string::*;
use crate::files::{copy_all_file, copy_plan, pairs_view, strings_view};
use crate::site::{join, join_path, Error, Site};
use crate::text::{concat_str, decimal, decimal_string};

verus! {

/// `s` is the default configuration of a site rooted at `root`.
pub open spec fn is_default_site(s: Site, root: Seq<char>) -> bool {
    &&& s.title@ == "<Title>"@
    &&& s.author@ == "<Author>"@
    &&& s.subtitle@ == "<Subtitle>"@
    &&& s.address@ == "/"@
    &&& s.theme@ == "default"@
    &&& s.meta is Null
    &&& s.theme_directory@ == "theme"@
    &&& s.content_directory@ == "content"@
    &&& s.data_directory@ == "data"@
    &&& s.build_directory@ == "build"@
    &&& s.publish_directory@ == "publish"@
    &&& s.root@ == root
}

/// Creates a site in `root_path`: its default configuration, unless a
/// configuration file is already there.
pub fn new(root_path: &str, config_exists: bool) -> (r: Result<Site, Error>)
    ensures
        match r {
            Ok(s) => !config_exists && is_default_site(s, root_path@),
            Err(e) => config_exists && e == Error::SiteExists,
        },
{
    if config_exists {
        Err(Error::SiteExists)
    } else {
        Ok(Site::new(root_path))
    }
}

/// Creates a site in the current directory.
pub fn init(config_exists: bool) -> (r: Result<Site, Error>)
    ensures
        match r {
            Ok(s) => !config_exists && is_default_site(s, "."@),
            Err(e) => config_exists && e == Error::SiteExists,
        },
{
    new(".", config_exists)
}

/// The labelled fields that describe a site, in display order.
pub fn info(site: &Site) -> (r: Vec<(String, String)>)
    ensures
        pairs_view(r@) == seq![
            ("Title"@, site.title@),
            ("Subtitle"@, site.subtitle@),
            ("Author"@, site.author@),
            ("Address"@, site.address@),
            ("Theme"@, site.theme@),
        ],
{
    let mut r: Vec<(String, String)> = Vec::new();
    r.push(("Title".to_owned(), site.title.clone()));
    r.push(("Subtitle".to_owned(), site.subtitle.clone()));
    r.push(("Author".to_owned(), site.author.clone()));
    r.push(("Address".to_owned(), site.address.clone()));
    r.push(("Theme".to_owned(), site.theme.clone()));
    assert(pairs_view(r@) =~= seq![
        ("Title"@, site.title@),
        ("Subtitle"@, site.subtitle@),
        ("Author"@, site.author@),
        ("Address"@, site.address@),
        ("Theme"@, site.theme@),
    ]);
    r
}

pub open spec fn outputs_view(outs: Seq<Option<Vec<(String, String)>>>) -> Seq<Option<Seq<(Seq<char>, Seq<char>)>>> {
    outs.map_values(|o: Option<Vec<(String, String)>>| match o {
        Some(v) => Some(pairs_view(v@)),
        None => None,
    })
}

/// The files written for the template outputs, in order: each output file
/// placed under `dir`; a template that failed (`None`) writes nothing.
pub open spec fn template_writes(
    dir: Seq<char>,
    outs: Seq<Option<Seq<(Seq<char>, Seq<char>)>>>,
) -> Seq<(Seq<char>, Seq<char>)>
    decreases outs.len(),
{
    if outs.len() == 0 {
        Seq::empty()
    } else {
        template_writes(dir, outs.drop_last()) + match outs.last() {
            Some(fs) => fs.map_values(|p: (Seq<char>, Seq<char>)| (join_path(dir, p.0), p.1)),
            None => Seq::empty(),
        }
    }
}

/// What a build does: files to write (path, text), then files to copy (from, to).
pub struct BuildPlan {
    pub writes: Vec<(String, String)>,
    pub copies: Vec<(String, String)>,
}

/// Plans a build from the outputs of each top-level template (`None` for a
/// template that failed) and the files of the theme: every output is
/// written under the build directory, a later write to the same path
/// replacing an earlier one, and the theme's files outside its `layout`
/// directory are copied alongside.
pub fn build(
    site: &Site,
    rendered: &Vec<Option<Vec<(String, String)>>>,
    theme_files: &Vec<String>,
) -> (r: Result<BuildPlan, Error>)
    ensures
        ({
            let dir = join_path(site.root@, site.build_directory@);
            let theme = join_path(join_path(site.root@, site.theme_directory@), site.theme@);
            let plan = copy_plan(theme, dir, strings_view(theme_files@), Some("layout"@));
            match r {
                Ok(b) => pairs_view(b.writes@) == template_writes(dir, outputs_view(rendered@))
                    && plan == Some(pairs_view(b.copies@)),
                Err(e) => e == Error::NotUnderSource && plan is None,
            }
        }),
{
    let dir = site.get_build_path();
    let ghost ov = outputs_view(rendered@);
    let mut writes: Vec<(String, String)> = Vec::new();
    let mut i: usize = 0;
    while i < rendered.len()
        invariant
            i <= rendered@.len(),
            ov == outputs_view(rendered@),
            pairs_view(writes@) == template_writes(dir@, ov.subrange(0, i as int)),
        decreases rendered@.len() - i,
    {
        assert(ov.subrange(0, i + 1).drop_last() =~= ov.subrange(0, i as int));
        let ghost before = pairs_view(writes@);
        match &rendered[i] {
            Some(files) => {
                let mut j: usize = 0;
                while j < files.len()
                    invariant
                        j <= files@.len(),
                        pairs_view(writes@) == before + pairs_view(files@).subrange(0, j as int).map_values(
                            |p: (Seq<char>, Seq<char>)| (join_path(dir@, p.0), p.1),
                        ),
                    decreases files@.len() - j,
                {
                    let path = join(dir.as_str(), files[j].0.as_str());
                    let ghost w0 = pairs_view(writes@);
                    let ghost fj = pairs_view(files@)[j as int];
                    let text = files[j].1.clone();
                    writes.push((path, text));
                    assert(pairs_view(writes@) =~= w0.push((join_path(dir@, fj.0), fj.1)));
                    assert(pairs_view(files@).subrange(0, j + 1) =~= pairs_view(files@).subrange(0, j as int).push(fj));
                    assert(pairs_view(writes@) =~= before + pairs_view(files@).subrange(0, j + 1).map_values(
                        |p: (Seq<char>, Seq<char>)| (join_path(dir@, p.0), p.1),
                    ));
                    j = j + 1;
                }
                assert(pairs_view(files@).subrange(0, files@.len() as int) =~= pairs_view(files@));
                assert(ov[i as int] == Some(pairs_view(files@)));
            },
            None => {
                assert(pairs_view(writes@) =~= before + Seq::<(Seq<char>, Seq<char>)>::empty());
            },
        }
        i = i + 1;
    }
    assert(ov.subrange(0, rendered@.len() as int) =~= ov);
    let theme = site.get_theme_path();
    match copy_all_file(theme.as_str(), dir.as_str(), theme_files, Some("layout")) {
        Ok(copies) => Ok(BuildPlan { writes, copies }),
        Err(e) => Err(e),
    }
}

/// Plans the publication of a build: every file of the build directory
/// copied to the same place under the publish directory.
pub fn publish(site: &Site, build_files: &Vec<String>) -> (r: Result<Vec<(String, String)>, Error>)
    ensures
        ({
            let plan = copy_plan(
                join_path(site.root@, site.build_directory@),
                join_path(site.root@, site.publish_directory@),
                strings_view(build_files@),
                None,
            );
            match r {
                Ok(ps) => plan == Some(pairs_view(ps@)),
                Err(e) => e == Error::NotUnderSource && plan is None,
            }
        }),
{
    let from = site.get_build_path();
    let to = site.get_publish_path();
    copy_all_file(from.as_str(), to.as_str(), build_files, None)
}

/// Where a preview server listens (`127.0.0.1:<port>`) and the directory
/// it serves (`root/build`).
pub fn server(site: &Site, port: u64) -> (r: (String, String))
    ensures
        r.0@ == "127.0.0.1:"@ + decimal(port as nat),
        r.1@ == join_path(site.root@, "build"@),
{
    let digits = decimal_string(port);
    let address = concat_str("127.0.0.1:", digits.as_str());
    let served = join(site.root.as_str(), "build");
    (address, served)
}

} // verus!
