//! Paths as strings, and the rules on which files are posts.

use vstd::prelude::*;

verus! {

/// The file stem that `std::path::Path::file_stem` gives for `p`.
pub uninterp spec fn path_file_stem(p: Seq<char>) -> Option<Seq<char>>;

/// The path that `std::path::Path::with_extension` gives for `p` and `ext`.
pub uninterp spec fn path_with_extension(p: Seq<char>, ext: Seq<char>) -> Seq<char>;

/// The path that `std::path::Path::join` gives for `base` and `rel`.
pub uninterp spec fn path_joined(base: Seq<char>, rel: Seq<char>) -> Seq<char>;

/// Relies on `std::path::Path::file_stem`: the file name without its extension.
#[verifier::external_body]
pub(crate) fn file_stem(p: &str) -> (r: Option<String>)
    ensures
        match r {
            Some(s) => path_file_stem(p@) == Some(s@),
            None => path_file_stem(p@) is None,
        },
{
    std::path::Path::new(p).file_stem().map(|s| s.to_string_lossy().into_owned())
}

/// Relies on `std::path::Path::with_extension`: `p` with its extension
/// replaced by `ext`, which holds no path separator (std panics on one).
#[verifier::external_body]
pub(crate) fn with_extension(p: &str, ext: &str) -> (r: String)
    requires
        !ext@.contains('/'),
    ensures
        r@ == path_with_extension(p@, ext@),
{
    std::path::Path::new(p).with_extension(ext).to_string_lossy().into_owned()
}

/// Relies on `std::path::Path::join`: `rel` taken from `base`.
#[verifier::external_body]
pub(crate) fn join_path(base: &str, rel: &str) -> (r: String)
    ensures
        r@ == path_joined(base@, rel@),
{
    std::path::Path::new(base).join(rel).to_string_lossy().into_owned()
}

/// `s` ends with `suffix`.
pub open spec fn ends_with(s: Seq<char>, suffix: Seq<char>) -> bool {
    suffix.len() <= s.len() && s.subrange(s.len() - suffix.len(), s.len() as int) == suffix
}

/// A file or directory whose name starts with a dot is hidden.
pub open spec fn hidden_name(name: Seq<char>) -> bool {
    name.len() > 0 && name[0] == '.'
}

/// A post file's name ends in `.md` and starts with neither `.` nor `~`.
pub open spec fn content_file_name(name: Seq<char>) -> bool {
    &&& !(name.len() > 0 && (name[0] == '.' || name[0] == '~'))
    &&& ends_with(name, seq!['.', 'm', 'd'])
}

/// Whether `cs` ends with `suffix`.
pub fn chars_end_with(cs: &Vec<char>, suffix: &Vec<char>) -> (r: bool)
    ensures
        r == ends_with(cs@, suffix@),
{
    if suffix.len() > cs.len() {
        return false;
    }
    let n = cs.len();
    let off = n - suffix.len();
    let mut i: usize = 0;
    while i < suffix.len()
        invariant
            i <= suffix@.len(),
            n == cs@.len(),
            off + suffix@.len() == cs@.len(),
            forall|j: int| 0 <= j < i ==> cs@[off + j] == suffix@[j],
        decreases suffix@.len() - i,
    {
        assert(off + i < cs@.len());
        if cs[off + i] != suffix[i] {
            assert(cs@.subrange(off as int, cs@.len() as int)[i as int] != suffix@[i as int]);
            return false;
        }
        i += 1;
    }
    assert(cs@.subrange(off as int, cs@.len() as int) =~= suffix@);
    true
}

/// Whether a directory entry named `name` is hidden.
pub fn is_hidden(name: &str) -> (r: bool)
    ensures
        r == hidden_name(name@),
{
    let cs = crate::text::chars_of(name);
    cs.len() > 0 && cs[0] == '.'
}

/// Whether a file named `name` is a post file.
pub fn is_markdown_file(name: &str) -> (r: bool)
    ensures
        r == content_file_name(name@),
{
    let cs = crate::text::chars_of(name);
    if cs.len() > 0 && (cs[0] == '.' || cs[0] == '~') {
        return false;
    }
    let suffix = vec!['.', 'm', 'd'];
    chars_end_with(&cs, &suffix)
}

} // verus!
