//! The blog: its directory, its settings and the site model of its last
//! successful build.

use vstd::prelude::*;
use vstd::string::StringExecFns;
use crate::error::Error;
use crate::page::Page;
use crate::paths::{file_stem, join_path, path_file_stem, path_joined, path_with_extension, with_extension};
use crate::page::pages_view;
use crate::post::{load_error, loaded_post, loaded_post_unique, post_loads, Post};
use crate::settings::Settings;
use crate::site::{build_site, posts_view, same_posts_same_model, visible, visible_posts, SiteModel};
use crate::tag::{tags_view, Tag};
use crate::watch::{dotfile_pattern, glob_match, glob_matches, inside_pattern, is_under_dir};

verus! {

broadcast use vstd::seq_lib::group_to_multiset_ensures;

/// A post file: its path from the blog directory and its text.
#[derive(Debug)]
pub struct SourceFile {
    /// Path of the file from the blog directory.
    pub path: String,
    /// Text of the file.
    pub content: String,
}

/// Every file of `files` loads as a post.
pub open spec fn files_load(files: Seq<SourceFile>) -> bool {
    forall|i: int| 0 <= i < files.len() ==> post_loads(#[trigger] files[i].path@, files[i].content@)
}

/// `posts` are the posts loaded from `files`, in order, under `root`.
pub open spec fn loaded_posts(posts: Seq<Post>, root: Seq<char>, files: Seq<SourceFile>) -> bool {
    &&& posts.len() == files.len()
    &&& forall|i: int| 0 <= i < posts.len() ==> loaded_post(#[trigger] posts[i], root, files[i].path@, files[i].content@)
}

/// `e` is the error of the first file of `files` that does not load.
pub open spec fn first_load_error(e: Error, files: Seq<SourceFile>) -> bool {
    exists|i: int| {
        &&& 0 <= i < files.len()
        &&& forall|j: int| 0 <= j < i ==> post_loads(#[trigger] files[j].path@, files[j].content@)
        &&& !post_loads(files[i].path@, files[i].content@)
        &&& load_error(e, #[trigger] files[i].path@, files[i].content@)
    }
}

/// Two builds from the same files give the same model: the same posts in
/// the same order, the same tags with the same posts, and the same index
/// and tag pages.
pub proof fn build_twice_same_model(
    a: SiteModel,
    b: SiteModel,
    la: Seq<Post>,
    lb: Seq<Post>,
    root: Seq<char>,
    files: Seq<SourceFile>,
    size: nat,
)
    requires
        a.built_from(la, size),
        b.built_from(lb, size),
        loaded_posts(la, root, files),
        loaded_posts(lb, root, files),
    ensures
        posts_view(a.posts@) == posts_view(b.posts@),
        tags_view(a.tags@) == tags_view(b.tags@),
        pages_view(a.index_pages@) == pages_view(b.index_pages@),
        a.tag_pages@.len() == b.tag_pages@.len(),
        forall|i: int| 0 <= i < a.tag_pages@.len() ==> pages_view(#[trigger] a.tag_pages@[i]@) == pages_view(b.tag_pages@[i]@),
{
    assert forall|i: int| 0 <= i < la.len() implies posts_view(la)[i] == posts_view(lb)[i] by {
        loaded_post_unique(la[i], lb[i], root, files[i].path@, files[i].content@);
    }
    assert(posts_view(la) =~= posts_view(lb));
    same_posts_same_model(a, b, la, lb, size);
}

/// Loads the post files `files` of the blog in `root`, in order, stopping
/// at the first that cannot be loaded.
pub fn load_posts(root: &str, files: &Vec<SourceFile>) -> (r: Result<Vec<Post>, Error>)
    ensures
        r is Ok <==> files_load(files@),
        r matches Ok(posts) ==> loaded_posts(posts@, root@, files@),
        r matches Err(e) ==> first_load_error(e, files@),
{
    let mut posts: Vec<Post> = Vec::new();
    let mut i: usize = 0;
    while i < files.len()
        invariant
            i <= files@.len(),
            posts@.len() == i,
            forall|k: int| 0 <= k < i ==> post_loads(#[trigger] files@[k].path@, files@[k].content@),
            forall|k: int| 0 <= k < i ==> loaded_post(#[trigger] posts@[k], root@, files@[k].path@, files@[k].content@),
        decreases files@.len() - i,
    {
        let f = &files[i];
        let post = match Post::new(root, f.path.as_str(), f.content.as_str()) {
            Ok(p) => p,
            Err(e) => {
                assert(load_error(e, files@[i as int].path@, files@[i as int].content@));
                return Err(e);
            },
        };
        posts.push(post);
        i += 1;
    }
    Ok(posts)
}

/// The directory that a directory setting names, once expanded: taken
/// from the blog directory `root` when relative.
pub fn get_dir(root: &str, expanded: &str) -> (r: String)
    ensures
        r@ == (if expanded@.len() > 0 && expanded@[0] == '/' {
            expanded@
        } else {
            path_joined(root@, expanded@)
        }),
{
    let cs = crate::text::chars_of(expanded);
    if cs.len() > 0 && cs[0] == '/' {
        expanded.to_owned()
    } else {
        join_path(root, expanded)
    }
}

/// A blog: its directory, its settings and the site model of the last
/// successful build.
pub struct Mdblog {
    /// The blog directory.
    pub root: String,
    /// The blog settings.
    pub settings: Settings,
    /// The site model of the last successful build.
    pub model: SiteModel,
}

impl Mdblog {
    /// A blog in `root` with the default settings and no posts loaded.
    pub fn new(root: &str) -> (r: Mdblog)
        ensures
            r.root@ == root@,
            r.settings.posts_per_page == 20,
            r.model.posts@.len() == 0,
            r.model.tags@.len() == 0,
            r.model.index_pages@.len() == 0,
    {
        let settings: Settings = Default::default();
        let model = SiteModel { posts: Vec::new(), tags: Vec::new(), index_pages: Vec::new(), tag_pages: Vec::new() };
        Mdblog { root: root.to_owned(), settings, model }
    }

    /// Directory holding the post files.
    pub fn post_root_dir(&self) -> (r: String)
        ensures
            r@ == path_joined(self.root@, "posts"@),
    {
        join_path(self.root.as_str(), "posts")
    }

    /// Loads `files` and builds the site model from them. The model is
    /// replaced only when every file loads; otherwise the first error is
    /// returned and the previous model is kept.
    pub fn build(&mut self, files: &Vec<SourceFile>) -> (r: Result<(), Error>)
        requires
            old(self).settings.valid(),
        ensures
            final(self).root@ == old(self).root@,
            final(self).settings == old(self).settings,
            r is Ok <==> files_load(files@),
            r is Ok ==> exists|loaded: Seq<Post>| {
                &&& final(self).model.built_from(loaded, final(self).settings.posts_per_page as nat)
                &&& loaded_posts(loaded, final(self).root@, files@)
            },
            r is Ok ==> final(self).model.posts@.len() == files@.len(),
            r matches Err(e) ==> first_load_error(e, files@) && final(self).model == old(self).model,
    {
        let posts = match load_posts(self.root.as_str(), files) {
            Ok(p) => p,
            Err(e) => {
                return Err(e);
            },
        };
        let ghost n = posts@.len();
        let ghost loaded = posts@;
        let model = build_site(posts, self.settings.posts_per_page);
        proof {
            assert(model.posts@.to_multiset().len() == n);
            assert(model.posts@.len() == n);
            assert(model.built_from(loaded, self.settings.posts_per_page as nat));
        }
        self.model = model;
        assert(self.model.built_from(loaded, self.settings.posts_per_page as nat));
        assert(loaded_posts(loaded, self.root@, files@));
        Ok(())
    }

    /// Path of the file of a new post at `path` from the posts directory.
    pub fn new_post_file(&self, path: &str) -> (r: String)
        ensures
            r@ == path_with_extension(path_joined(path_joined(self.root@, "posts"@), path@), "md"@),
    {
        let dir = self.post_root_dir();
        let file = join_path(dir.as_str(), path);
        proof {
            reveal_strlit("md");
            assert("md"@ =~= seq!['m', 'd']);
        }
        with_extension(file.as_str(), "md")
    }

    /// The tags of the last build.
    pub fn tags(&self) -> (r: &Vec<Tag>)
        ensures
            r == &self.model.tags,
    {
        &self.model.tags
    }

    /// The index pages of the last build.
    pub fn index_pages(&self) -> (r: &Vec<Page>)
        ensures
            r == &self.model.index_pages,
    {
        &self.model.index_pages
    }
}

/// Positions of the posts of the feed: the `n` newest visible posts of
/// `posts`, which is ordered newest first.
pub fn feed_posts(posts: &Vec<Post>, n: usize) -> (r: Vec<usize>)
    ensures
        r@ == (if visible(posts@).len() > n { visible(posts@).subrange(0, n as int) } else { visible(posts@) }),
{
    let all = visible_posts(posts);
    let mut r: Vec<usize> = Vec::new();
    let mut i: usize = 0;
    while i < all.len() && i < n
        invariant
            i <= all@.len(),
            i <= n,
            r@ == all@.subrange(0, i as int),
        decreases all@.len() - i,
    {
        r.push(all[i]);
        assert(r@ =~= all@.subrange(0, i + 1));
        i += 1;
    }
    assert(all@.subrange(0, all@.len() as int) =~= all@);
    r
}

/// The extension that `std::path::Path::extension` gives for `p`.
pub uninterp spec fn path_extension(p: Seq<char>) -> Option<Seq<char>>;

/// Relies on `std::path::Path::extension`: the extension of the file name.
#[verifier::external_body]
fn extension(p: &str) -> (r: Option<String>)
    ensures
        match r {
            Some(e) => path_extension(p@) == Some(e@),
            None => path_extension(p@) is None,
        },
{
    std::path::Path::new(p).extension().map(|e| e.to_string_lossy().into_owned())
}

/// A path, from the posts directory, under which a new post may be created:
/// relative, not empty, without extension, with a file name, not a dotfile
/// and not inside the build directory `build_dir`.
pub open spec fn new_post_path_ok(path: Seq<char>, build_dir: Seq<char>) -> bool {
    &&& path.len() > 0
    &&& path[0] != '/'
    &&& path_extension(path) is None
    &&& path_file_stem(path) is Some
    &&& !glob_match(dotfile_pattern(), path)
    &&& !glob_match(inside_pattern(build_dir), path)
}

/// Whether a new post may be created under `path`, see [`new_post_path_ok`].
pub fn check_new_post_path(path: &str, build_dir: &str) -> (r: bool)
    ensures
        r == new_post_path_ok(path@, build_dir@),
{
    let cs = crate::text::chars_of(path);
    if cs.len() == 0 || cs[0] == '/' {
        return false;
    }
    if extension(path).is_some() || file_stem(path).is_none() {
        return false;
    }
    proof {
        reveal_strlit("**/.*");
        assert("**/.*"@ =~= dotfile_pattern());
    }
    !glob_matches("**/.*", path) && !is_under_dir(path, build_dir)
}

/// `names` joined with `", "`.
pub open spec fn join_tags(names: Seq<Seq<char>>) -> Seq<char>
    decreases names.len(),
{
    if names.len() == 0 {
        Seq::empty()
    } else if names.len() == 1 {
        names[0]
    } else {
        join_tags(names.drop_last()) + seq![',', ' '] + names.last()
    }
}

/// Text of a new post created at `created`, with the tags `tags`.
pub open spec fn new_post_text(created: Seq<char>, tags: Seq<Seq<char>>) -> Seq<char> {
    "created: "@ + created + "\ntags: ["@ + join_tags(tags) + "]\n\nthis is a new post!\n"@
}

/// Text of a new post created at `created`, with the tags `tags`.
pub fn new_post_content(created: &str, tags: &Vec<String>) -> (r: String)
    ensures
        r@ == new_post_text(created@, tags@.map_values(|t: String| t@)),
{
    let ghost names = tags@.map_values(|t: String| t@);
    let mut joined = String::new();
    let mut i: usize = 0;
    while i < tags.len()
        invariant
            i <= tags@.len(),
            names == tags@.map_values(|t: String| t@),
            joined@ == join_tags(names.subrange(0, i as int)),
        decreases tags@.len() - i,
    {
        if i > 0 {
            joined.append(", ");
            proof {
                reveal_strlit(", ");
            }
        }
        joined.append(tags[i].as_str());
        assert(names.subrange(0, i + 1).drop_last() =~= names.subrange(0, i as int));
        i += 1;
    }
    assert(names.subrange(0, i as int) =~= names);
    let mut r = String::new();
    r.append("created: ");
    r.append(created);
    r.append("\ntags: [");
    r.append(joined.as_str());
    r.append("]\n\nthis is a new post!\n");
    r
}

} // verus!
