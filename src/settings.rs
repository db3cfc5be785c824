//! Blog settings.

use vstd::prelude::*;
use crate::watch::{trim_end_slashes, trim_trailing_slashes};

verus! {

/// Blog settings, as read from the defaults, `config.toml` and the
/// environment.
#[derive(Debug)]
pub struct Settings {
    /// Base URL of the site, without trailing slash.
    pub site_url: String,
    /// Name of the site.
    pub site_name: String,
    /// Motto of the site.
    pub site_motto: String,
    /// Note in the page footer.
    pub footer_note: String,
    /// Media directory, copied into the build.
    pub media_dir: String,
    /// Directory the site is built into.
    pub build_dir: String,
    /// Name of the theme.
    pub theme: String,
    /// Directory holding the themes.
    pub theme_root_dir: String,
    /// Least time between two rebuilds while serving, in seconds.
    pub rebuild_interval: u8,
    /// Posts on each index or tag page.
    pub posts_per_page: usize,
}

impl Default for Settings {
    fn default() -> (r: Settings)
        ensures
            r.site_url@ == ""@,
            r.site_name@ == "Mdblog"@,
            r.site_motto@ == "Simple is Beautiful!"@,
            r.footer_note@ == "Keep It Simple, Stupid!"@,
            r.media_dir@ == "media"@,
            r.build_dir@ == "_build"@,
            r.theme@ == "simple"@,
            r.theme_root_dir@ == "_themes"@,
            r.rebuild_interval == 2,
            r.posts_per_page == 20,
    {
        Settings {
            site_url: "".to_owned(),
            site_name: "Mdblog".to_owned(),
            site_motto: "Simple is Beautiful!".to_owned(),
            footer_note: "Keep It Simple, Stupid!".to_owned(),
            media_dir: "media".to_owned(),
            build_dir: "_build".to_owned(),
            theme: "simple".to_owned(),
            theme_root_dir: "_themes".to_owned(),
            rebuild_interval: 2,
            posts_per_page: 20,
        }
    }
}

impl Settings {
    /// The settings can drive a build: pages hold at least one post.
    pub open spec fn valid(&self) -> bool {
        self.posts_per_page > 0
    }

    /// Whether the settings can drive a build, see [`Settings::valid`].
    pub fn is_valid(&self) -> (r: bool)
        ensures
            r == self.valid(),
    {
        self.posts_per_page > 0
    }

    /// Removes the trailing slashes of the site URL.
    pub fn normalize_site_url(&mut self)
        ensures
            final(self).site_url@ == trim_end_slashes(old(self).site_url@),
            final(self).site_name@ == old(self).site_name@,
            final(self).build_dir@ == old(self).build_dir@,
            final(self).theme@ == old(self).theme@,
            final(self).rebuild_interval == old(self).rebuild_interval,
            final(self).posts_per_page == old(self).posts_per_page,
    {
        self.site_url = trim_trailing_slashes(self.site_url.as_str());
    }

    /// Debounce interval of rebuilds, in milliseconds.
    pub fn rebuild_interval_ms(&self) -> (r: u64)
        ensures
            r == self.rebuild_interval as u64 * 1000,
    {
        self.rebuild_interval as u64 * 1000
    }
}

} // verus!
