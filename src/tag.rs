//! Tags and the index of posts by tag.

use vstd::prelude::*;
use crate::post::Post;

verus! {

/// A tag and the posts that carry it, by their position in the site's
/// post list.
#[derive(Debug)]
pub struct Tag {
    /// The tag's name.
    pub name: String,
    /// Number of posts in `posts`.
    pub num: usize,
    /// The posts carrying the tag, in the order of the post list.
    pub posts: Vec<usize>,
}

impl Tag {
    /// A tag named `name` with no posts yet.
    pub fn new(name: &str) -> (r: Tag)
        ensures
            r.name@ == name@,
            r.num == 0,
            r.posts@.len() == 0,
    {
        Tag { name: name.to_owned(), num: 0, posts: Vec::new() }
    }

    /// Adds the post at position `post` to the tag.
    pub fn add(&mut self, post: usize)
        ensures
            final(self).name@ == old(self).name@,
            final(self).posts@ == old(self).posts@.push(post),
            final(self).num == final(self).posts@.len(),
    {
        self.posts.push(post);
        self.num = self.posts.len();
    }
}

/// Post `p` carries the tag `name`.
pub open spec fn carries(p: Post, name: Seq<char>) -> bool {
    exists|k: int| 0 <= k < p.headers.tags@.len() && #[trigger] p.headers.tags@[k]@ == name
}

/// `t` is a well-formed tag over `posts`: it has at least one post, each
/// of them visible and carrying the tag, in the order of `posts`.
pub open spec fn tag_wf(t: Tag, posts: Seq<Post>) -> bool {
    &&& t.num == t.posts@.len()
    &&& t.posts@.len() >= 1
    &&& forall|k: int| 0 <= k < t.posts@.len() ==> {
        &&& #[trigger] t.posts@[k] < posts.len()
        &&& !posts[t.posts@[k] as int].headers.hidden
        &&& carries(posts[t.posts@[k] as int], t.name@)
    }
    &&& forall|a: int, b: int| 0 <= a < b < t.posts@.len() ==> t.posts@[a] <= t.posts@[b]
}

/// `tags` indexes the visible posts of `posts` by tag: every tag is
/// well-formed, no two tags share a name, and every tag of every visible
/// post has that post in its bucket.
pub open spec fn index_of(tags: Seq<Tag>, posts: Seq<Post>) -> bool {
    &&& forall|i: int| 0 <= i < tags.len() ==> tag_wf(#[trigger] tags[i], posts)
    &&& forall|i: int, j: int| 0 <= i < j < tags.len() ==> tags[i].name@ != tags[j].name@
    &&& forall|p: int, k: int|
        0 <= p < posts.len() && !posts[p].headers.hidden && 0 <= k < posts[p].headers.tags@.len()
            ==> tag_holds(tags, #[trigger] posts[p].headers.tags@[k]@, p)
}

/// Some tag of `tags` is named `name` and holds post `p`.
pub open spec fn tag_holds(tags: Seq<Tag>, name: Seq<char>, p: int) -> bool {
    exists|i: int| 0 <= i < tags.len() && #[trigger] tags[i].name@ == name && tags[i].posts@.contains(p as usize)
}

/// A tag as plain values: its name and its posts.
pub open spec fn tag_view(t: Tag) -> (Seq<char>, Seq<usize>) {
    (t.name@, t.posts@)
}

/// The tags `tags` as plain values.
pub open spec fn tags_view(tags: Seq<Tag>) -> Seq<(Seq<char>, Seq<usize>)> {
    tags.map_values(|t: Tag| tag_view(t))
}

/// Position of the first tag of `tv` at or after `i` named `name`.
pub open spec fn find_name_from(tv: Seq<(Seq<char>, Seq<usize>)>, name: Seq<char>, i: int) -> Option<int>
    decreases tv.len() - i,
{
    if i < 0 || i >= tv.len() {
        None
    } else if tv[i].0 == name {
        Some(i)
    } else {
        find_name_from(tv, name, i + 1)
    }
}

/// `tv` with post `p` added to the tag `name`, which is appended if new.
pub open spec fn add_to_tag(tv: Seq<(Seq<char>, Seq<usize>)>, name: Seq<char>, p: usize) -> Seq<(Seq<char>, Seq<usize>)> {
    match find_name_from(tv, name, 0) {
        Some(i) => tv.update(i, (tv[i].0, tv[i].1.push(p))),
        None => tv.push((name, seq![p])),
    }
}

/// `tv` with post `p` added to each of the first `k` tags of `names`.
pub open spec fn add_post_tags(tv: Seq<(Seq<char>, Seq<usize>)>, names: Seq<Seq<char>>, p: usize, k: int) -> Seq<(Seq<char>, Seq<usize>)>
    decreases k,
{
    if k <= 0 {
        tv
    } else {
        add_to_tag(add_post_tags(tv, names, p, k - 1), names[k - 1], p)
    }
}

/// The tag names of `post`.
pub open spec fn tag_names(post: Post) -> Seq<Seq<char>> {
    post.headers.tags@.map_values(|s: String| s@)
}

/// The tag index of the first `n` posts of `posts`: the visible posts are
/// taken in order, each added to its tags in the order written; a tag is
/// appended when first met.
pub open spec fn tag_index_upto(posts: Seq<Post>, n: int) -> Seq<(Seq<char>, Seq<usize>)>
    decreases n,
{
    if n <= 0 {
        Seq::empty()
    } else {
        let tv = tag_index_upto(posts, n - 1);
        if posts[n - 1].headers.hidden {
            tv
        } else {
            add_post_tags(tv, tag_names(posts[n - 1]), (n - 1) as usize, posts[n - 1].headers.tags@.len() as int)
        }
    }
}

/// The tag index of `posts`, see [`tag_index_upto`].
pub open spec fn tag_index(posts: Seq<Post>) -> Seq<(Seq<char>, Seq<usize>)> {
    tag_index_upto(posts, posts.len() as int)
}

/// Position of the tag named `name` in `tags`, if any.
fn find_tag(tags: &Vec<Tag>, name: &String) -> (r: Option<usize>)
    ensures
        match r {
            Some(i) => i < tags@.len() && tags@[i as int].name@ == name@,
            None => forall|i: int| 0 <= i < tags@.len() ==> tags@[i].name@ != name@,
        },
        match r {
            Some(i) => find_name_from(tags_view(tags@), name@, 0) == Some(i as int),
            None => find_name_from(tags_view(tags@), name@, 0) is None,
        },
{
    let ghost tv = tags_view(tags@);
    let mut i: usize = 0;
    while i < tags.len()
        invariant
            i <= tags@.len(),
            tv == tags_view(tags@),
            forall|j: int| 0 <= j < i ==> tags@[j].name@ != name@,
            find_name_from(tv, name@, 0) == find_name_from(tv, name@, i as int),
        decreases tags@.len() - i,
    {
        assert(tv[i as int] == tag_view(tags@[i as int]));
        if tags[i].name == *name {
            return Some(i);
        }
        i += 1;
    }
    None
}

/// Every post in `tags` is before position `bound`.
pub open spec fn all_before(tags: Seq<Tag>, bound: int) -> bool {
    forall|i: int, k: int| 0 <= i < tags.len() && 0 <= k < tags[i].posts@.len() ==> #[trigger] tags[i].posts@[k] < bound
}

/// The index so far: `tags` is made of well-formed, distinctly named tags
/// and holds every tag of the visible posts before `p`, and the first `k`
/// tags of post `p` if it is visible.
pub open spec fn index_upto(tags: Seq<Tag>, posts: Seq<Post>, p: int, k: int) -> bool {
    &&& forall|i: int| 0 <= i < tags.len() ==> tag_wf(#[trigger] tags[i], posts)
    &&& forall|i: int, j: int| 0 <= i < j < tags.len() ==> tags[i].name@ != tags[j].name@
    &&& forall|q: int, m: int|
        0 <= q < posts.len() && !posts[q].headers.hidden && 0 <= m < posts[q].headers.tags@.len()
            && (q < p || (q == p && m < k)) ==> tag_holds(tags, #[trigger] posts[q].headers.tags@[m]@, q)
}

proof fn lemma_push_keeps_holds(tags: Seq<Tag>, new_tags: Seq<Tag>, name: Seq<char>, q: int)
    requires
        tag_holds(tags, name, q),
        new_tags.len() >= tags.len(),
        forall|i: int| 0 <= i < tags.len() ==> (#[trigger] new_tags[i]).name@ == tags[i].name@ && (forall|x: usize|
            tags[i].posts@.contains(x) ==> new_tags[i].posts@.contains(x)),
    ensures
        tag_holds(new_tags, name, q),
{
    let i = choose|i: int| 0 <= i < tags.len() && #[trigger] tags[i].name@ == name && tags[i].posts@.contains(q as usize);
    assert(new_tags[i].name@ == name);
}

/// Indexes the visible posts of `posts` by tag: each tag lists the visible
/// posts that carry it, in the order of `posts`.
pub fn build_tags(posts: &Vec<Post>) -> (r: Vec<Tag>)
    ensures
        index_of(r@, posts@),
        tags_view(r@) == tag_index(posts@),
{
    let mut tags: Vec<Tag> = Vec::new();
    let mut p: usize = 0;
    while p < posts.len()
        invariant
            p <= posts@.len(),
            index_upto(tags@, posts@, p as int, 0),
            all_before(tags@, p as int),
            tags_view(tags@) == tag_index_upto(posts@, p as int),
        decreases posts@.len() - p,
    {
        let post = &posts[p];
        assert(all_before(tags@, p + 1));
        if !post.headers.hidden {
            let mut k: usize = 0;
            while k < post.headers.tags.len()
                invariant
                    p < posts@.len(),
                    *post == posts@[p as int],
                    !post.headers.hidden,
                    k <= post.headers.tags@.len(),
                    index_upto(tags@, posts@, p as int, k as int),
                    all_before(tags@, p + 1),
                    tags_view(tags@) == add_post_tags(tag_index_upto(posts@, p as int), tag_names(*post), p, k as int),
                decreases post.headers.tags@.len() - k,
            {
                let name = &post.headers.tags[k];
                let ghost before = tags@;
                proof {
                    assert(carries(posts@[p as int], name@)) by {
                        assert(posts@[p as int].headers.tags@[k as int]@ == name@);
                    }
                }
                match find_tag(&tags, name) {
                    Some(i) => {
                        let mut t = tags.remove(i);
                        t.add(p);
                        tags.insert(i, t);
                        proof {
                            assert(tags@ =~= before.update(i as int, tags@[i as int]));
                            let tvb = tags_view(before);
                            assert(tag_names(*post)[k as int] == name@);
                            assert(tags_view(tags@) =~= tvb.update(i as int, (tvb[i as int].0, tvb[i as int].1.push(p))));
                            assert(tags@[i as int].posts@.contains(p)) by {
                                assert(tags@[i as int].posts@[tags@[i as int].posts@.len() - 1] == p);
                            }
                            assert forall|j: int| 0 <= j < tags@.len() implies tag_wf(#[trigger] tags@[j], posts@) by {
                                if j == i {
                                    let np = tags@[j].posts@;
                                    assert forall|a: int, b: int| 0 <= a < b < np.len() implies np[a] <= np[b] by {
                                        if b < np.len() - 1 {
                                            assert(np[a] == before[j].posts@[a]);
                                            assert(np[b] == before[j].posts@[b]);
                                        } else {
                                            assert(np[a] == before[j].posts@[a]);
                                        }
                                    }
                                    assert forall|x: int| 0 <= x < np.len() implies {
                                        &&& #[trigger] np[x] < posts@.len()
                                        &&& !posts@[np[x] as int].headers.hidden
                                        &&& carries(posts@[np[x] as int], tags@[j].name@)
                                    } by {
                                        if x < np.len() - 1 {
                                            assert(np[x] == before[j].posts@[x]);
                                        }
                                    }
                                }
                            }
                            assert forall|j: int| 0 <= j < before.len() implies (#[trigger] tags@[j]).name@ == before[j].name@
                                && (forall|x: usize| before[j].posts@.contains(x) ==> tags@[j].posts@.contains(x)) by {
                                if j == i {
                                    assert forall|x: usize| before[j].posts@.contains(x) implies tags@[j].posts@.contains(x) by {
                                        let w = choose|w: int| 0 <= w < before[j].posts@.len() && before[j].posts@[w] == x;
                                        assert(tags@[j].posts@[w] == x);
                                    }
                                }
                            }
                            assert forall|q: int, m: int|
                                0 <= q < posts@.len() && !posts@[q].headers.hidden && 0 <= m < posts@[q].headers.tags@.len()
                                    && (q < p || (q == p && m < k + 1)) implies tag_holds(tags@, #[trigger] posts@[q].headers.tags@[m]@, q) by {
                                if q == p && m == k {
                                    assert(tags@[i as int].name@ == posts@[q].headers.tags@[m]@);
                                } else {
                                    lemma_push_keeps_holds(before, tags@, posts@[q].headers.tags@[m]@, q);
                                }
                            }
                        }
                    },
                    None => {
                        let mut t = Tag::new(name.as_str());
                        t.add(p);
                        tags.push(t);
                        proof {
                            let n = before.len() as int;
                            assert(tags@[n].posts@ =~= seq![p]);
                            assert(tag_names(*post)[k as int] == name@);
                            assert(tags@ =~= before.push(tags@[n]));
                            assert(tags_view(tags@) =~= tags_view(before).push((name@, seq![p])));
                            assert(tags@[n].posts@.contains(p)) by {
                                assert(tags@[n].posts@[0] == p);
                            }
                            assert(tag_wf(tags@[n], posts@));
                            assert forall|q: int, m: int|
                                0 <= q < posts@.len() && !posts@[q].headers.hidden && 0 <= m < posts@[q].headers.tags@.len()
                                    && (q < p || (q == p && m < k + 1)) implies tag_holds(tags@, #[trigger] posts@[q].headers.tags@[m]@, q) by {
                                if q == p && m == k {
                                    assert(tags@[n].name@ == posts@[q].headers.tags@[m]@);
                                } else {
                                    lemma_push_keeps_holds(before, tags@, posts@[q].headers.tags@[m]@, q);
                                }
                            }
                        }
                    },
                }
                k += 1;
            }
        }
        proof {
            assert(tags_view(tags@) == tag_index_upto(posts@, p + 1));
            assert forall|q: int, m: int|
                0 <= q < posts@.len() && !posts@[q].headers.hidden && 0 <= m < posts@[q].headers.tags@.len()
                    && q < p + 1 implies tag_holds(tags@, #[trigger] posts@[q].headers.tags@[m]@, q) by {
                if q == p {
                    assert(index_upto(tags@, posts@, p as int, posts@[q].headers.tags@.len() as int));
                }
            }
        }
        p += 1;
    }
    tags
}

} // verus!
