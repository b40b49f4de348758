//! Short forms of the site commands that act on the current directory.
use vstd::prelude::*;
use crate::files::{copy_plan, pairs_view, strings_view};
use crate::site::{join_path, Error, Site};
use crate::site_command::{self, is_default_site};

verus! {

/// Creates a site in the current directory.
pub fn new_site(config_exists: bool) -> (r: Result<Site, Error>)
    ensures
        match r {
            Ok(s) => !config_exists && is_default_site(s, "."@),
            Err(e) => config_exists && e == Error::SiteExists,
        },
{
    site_command::init(config_exists)
}

/// The labelled fields that describe a site.
pub fn show_site(site: &Site) -> (r: Vec<(String, String)>)
    ensures
        pairs_view(r@) == seq![
            ("Title"@, site.title@),
            ("Subtitle"@, site.subtitle@),
            ("Author"@, site.author@),
            ("Address"@, site.address@),
            ("Theme"@, site.theme@),
        ],
{
    site_command::info(site)
}

/// Plans the publication of a build.
pub fn publish_site(site: &Site, build_files: &Vec<String>) -> (r: Result<Vec<(String, String)>, Error>)
    ensures
        ({
            let plan = copy_plan(
                join_path(site.root@, site.build_directory@),
                join_path(site.root@, site.publish_directory@),
                strings_view(build_files@),
                None,
            );
            match r {
                Ok(ps) => plan == Some(pairs_view(ps@)),
                Err(e) => e == Error::NotUnderSource && plan is None,
            }
        }),
{
    site_command::publish(site, build_files)
}

} // verus!
