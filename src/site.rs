//! The site model: the posts newest first, the tag index and the pages.

use vstd::prelude::*;
use crate::page::{is_pagination, paginate, pages_view, pagination_is_unique, Page};
use crate::post::{post_view, Post};
use crate::tag::{build_tags, carries, index_of, tag_index, tag_index_upto, tag_names, tag_wf, tags_view, Tag};

verus! {

broadcast use vstd::seq_lib::group_to_multiset_ensures;

/// Post `a` was created at the same time as post `b` or later.
pub open spec fn not_older(a: Post, b: Post) -> bool {
    a.headers.created.not_before(b.headers.created)
}

/// `posts` is ordered newest first.
pub open spec fn newest_first(posts: Seq<Post>) -> bool {
    forall|i: int, j: int| 0 <= i < j < posts.len() ==> not_older(#[trigger] posts[i], #[trigger] posts[j])
}

/// Posts `a` and `b` were created at the same instant.
pub open spec fn same_instant(a: Post, b: Post) -> bool {
    a.headers.created.secs == b.headers.created.secs && a.headers.created.nanos == b.headers.created.nanos
}

/// `new` is `old` rearranged, post `k` of `new` being post `perm[k]` of
/// `old`, with posts created at the same instant kept in their order.
pub open spec fn stable_rearrangement(new: Seq<Post>, old: Seq<Post>, perm: Seq<int>) -> bool {
    &&& new.len() == old.len()
    &&& perm.len() == new.len()
    &&& forall|k: int| 0 <= k < perm.len() ==> 0 <= #[trigger] perm[k] < old.len() && new[k] == old[perm[k]]
    &&& forall|a: int, b: int| 0 <= a < b < perm.len() ==> #[trigger] perm[a] != #[trigger] perm[b]
    &&& forall|a: int, b: int| 0 <= a < b < perm.len() && same_instant(#[trigger] new[a], #[trigger] new[b]) ==> perm[a] < perm[b]
}

/// Where insertion sort puts `x` in `s`, scanning down from position `j`:
/// after the last of the first `j` posts that is not older than `x`.
pub open spec fn insert_index(s: Seq<Post>, x: Post, j: int) -> int
    decreases j,
{
    if j <= 0 {
        0
    } else if not_older(s[j - 1], x) {
        j
    } else {
        insert_index(s, x, j - 1)
    }
}

/// `s` ordered newest first by insertion sort.
pub open spec fn sorted_posts(s: Seq<Post>) -> Seq<Post>
    decreases s.len(),
{
    if s.len() == 0 {
        s
    } else {
        let pre = sorted_posts(s.drop_last());
        pre.insert(insert_index(pre, s.last(), pre.len() as int), s.last())
    }
}

proof fn lemma_insert_index_bounds(s: Seq<Post>, x: Post, j: int)
    requires
        0 <= j <= s.len(),
    ensures
        0 <= insert_index(s, x, j) <= j,
    decreases j,
{
    if j > 0 && !not_older(s[j - 1], x) {
        lemma_insert_index_bounds(s, x, j - 1);
    }
}

proof fn lemma_sorted_len(s: Seq<Post>)
    ensures
        sorted_posts(s).len() == s.len(),
    decreases s.len(),
{
    if s.len() > 0 {
        lemma_sorted_len(s.drop_last());
        let pre = sorted_posts(s.drop_last());
        lemma_insert_index_bounds(pre, s.last(), pre.len() as int);
    }
}

/// Orders `posts` newest first. The sort is stable: posts created at the
/// same instant keep their order.
pub fn sort_posts(posts: &mut Vec<Post>)
    ensures
        final(posts)@.to_multiset() == old(posts)@.to_multiset(),
        newest_first(final(posts)@),
        exists|perm: Seq<int>| stable_rearrangement(final(posts)@, old(posts)@, perm),
        final(posts)@ == sorted_posts(old(posts)@),
{
    let n = posts.len();
    let ghost orig = posts@;
    let ghost mut perm = Seq::new(n as nat, |k: int| k);
    if n == 0 {
        assert(stable_rearrangement(posts@, orig, perm));
        return;
    }
    proof {
        let one = orig.subrange(0, 1);
        assert(one.drop_last() =~= Seq::<Post>::empty());
        assert(sorted_posts(one.drop_last()) =~= Seq::<Post>::empty());
        assert(sorted_posts(one) =~= one);
        assert(posts@ =~= sorted_posts(orig.subrange(0, 1)) + orig.subrange(1, n as int));
    }
    let mut i: usize = 1;
    while i < n
        invariant
            1 <= i <= n == posts@.len(),
            orig == old(posts)@,
            orig.len() == n,
            posts@.to_multiset() == orig.to_multiset(),
            newest_first(posts@.subrange(0, i as int)),
            perm.len() == n,
            forall|k: int| 0 <= k < n ==> 0 <= #[trigger] perm[k] < n && posts@[k] == orig[perm[k]],
            forall|a: int, b: int| 0 <= a < b < n ==> #[trigger] perm[a] != #[trigger] perm[b],
            forall|k: int| i <= k < n ==> #[trigger] perm[k] == k,
            forall|k: int| 0 <= k < i ==> #[trigger] perm[k] < i,
            forall|a: int, b: int| 0 <= a < b < i && same_instant(#[trigger] posts@[a], #[trigger] posts@[b]) ==> perm[a] < perm[b],
            posts@ == sorted_posts(orig.subrange(0, i as int)) + orig.subrange(i as int, n as int),
        decreases n - i,
    {
        let ghost before = posts@;
        let ghost pb = perm;
        proof {
            lemma_sorted_len(orig.subrange(0, i as int));
            assert(before.subrange(0, i as int) =~= sorted_posts(orig.subrange(0, i as int)));
            assert(before[i as int] == orig.subrange(i as int, n as int)[0]);
        }
        let x = posts.remove(i);
        let ghost removed = posts@;
        assert(removed.subrange(0, i as int) =~= before.subrange(0, i as int));
        let mut j: usize = i;
        while j > 0 && !posts[j - 1].headers.created.is_not_before(&x.headers.created)
            invariant
                0 <= j <= i,
                i < n,
                posts@ == removed,
                removed.len() == n - 1,
                forall|k: int| j <= k < i ==> !not_older(#[trigger] removed[k], x),
                insert_index(removed.subrange(0, i as int), x, i as int) == insert_index(removed.subrange(0, i as int), x, j as int),
            decreases j,
        {
            j -= 1;
        }
        posts.insert(j, x);
        proof {
            let pre_r = removed.subrange(0, i as int);
            assert(insert_index(pre_r, x, j as int) == j as int);
            assert(pre_r =~= sorted_posts(orig.subrange(0, i as int)));
            assert(x == orig[i as int]);
            let next = orig.subrange(0, i + 1);
            assert(next.drop_last() =~= orig.subrange(0, i as int));
            assert(next.last() == x);
            assert(sorted_posts(next) == pre_r.insert(j as int, x));
            assert(removed.subrange(i as int, n - 1) =~= orig.subrange(i + 1, n as int));
            assert(posts@ =~= sorted_posts(next) + orig.subrange(i + 1, n as int));
            perm = pb.remove(i as int).insert(j as int, i as int);
            let s = posts@;
            let pre = before.subrange(0, i as int);
            assert(s == removed.insert(j as int, x));
            let src = |k: int| if k < j { k } else if k == j { i as int } else if k <= i { k - 1 } else { k };
            assert forall|k: int| 0 <= k < n implies perm[k] == pb[src(k)] && s[k] == before[src(k)] by {}
            assert forall|k: int| 0 <= k < n implies 0 <= #[trigger] perm[k] < n && s[k] == orig[perm[k]] by {
                assert(perm[k] == pb[src(k)]);
            }
            assert forall|a: int, b: int| 0 <= a < b < n implies #[trigger] perm[a] != #[trigger] perm[b] by {
                assert(perm[a] == pb[src(a)]);
                assert(perm[b] == pb[src(b)]);
                assert(src(a) != src(b));
            }
            assert forall|k: int| i + 1 <= k < n implies #[trigger] perm[k] == k by {
                assert(perm[k] == pb[k]);
            }
            assert forall|k: int| 0 <= k < i + 1 implies #[trigger] perm[k] < i + 1 by {
                assert(perm[k] == pb[src(k)]);
            }
            assert forall|a: int, b: int| 0 <= a < b < i + 1 && same_instant(#[trigger] s[a], #[trigger] s[b]) implies perm[a] < perm[b] by {
                assert(perm[a] == pb[src(a)]);
                assert(perm[b] == pb[src(b)]);
                if a == j {
                    assert(s[b] == removed[b - 1]);
                    assert(!not_older(removed[b - 1], x));
                } else if b == j {
                    assert(pb[a] < i);
                } else {
                    assert(s[a] == before[src(a)] && s[b] == before[src(b)]);
                    assert(src(a) < src(b));
                }
            }
            assert forall|a: int, b: int| 0 <= a < b < i + 1 implies not_older(
                #[trigger] s.subrange(0, i + 1)[a],
                #[trigger] s.subrange(0, i + 1)[b],
            ) by {
                assert(s.subrange(0, i + 1)[a] == s[a]);
                assert(s.subrange(0, i + 1)[b] == s[b]);
                if b < j {
                    assert(s[a] == pre[a] && s[b] == pre[b]);
                } else if b == j {
                    assert(s[a] == pre[a]);
                    assert(not_older(pre[a], pre[j - 1]) || a == j - 1);
                } else if a < j {
                    assert(s[a] == pre[a] && s[b] == pre[b - 1]);
                    if a < b - 1 {
                        assert(not_older(pre[a], pre[b - 1]));
                    }
                } else if a == j {
                    assert(s[b] == removed[b - 1]);
                    assert(!not_older(removed[b - 1], x));
                } else {
                    assert(s[a] == pre[a - 1] && s[b] == pre[b - 1]);
                }
            }
        }
        i += 1;
    }
    assert(posts@.subrange(0, n as int) =~= posts@);
    assert(stable_rearrangement(posts@, orig, perm));
    assert(orig.subrange(0, n as int) =~= orig);
    assert(orig.subrange(n as int, n as int) =~= Seq::<Post>::empty());
    assert(posts@ =~= sorted_posts(orig));
}

/// Every tag of an index over posts ordered newest first has at least one
/// post; each of its posts is visible and carries the tag; and its posts
/// are ordered newest first.
pub proof fn tag_buckets_newest_first(tags: Seq<Tag>, posts: Seq<Post>)
    requires
        index_of(tags, posts),
        newest_first(posts),
    ensures
        forall|i: int| 0 <= i < tags.len() ==> {
            &&& (#[trigger] tags[i]).posts@.len() >= 1
            &&& forall|k: int| 0 <= k < tags[i].posts@.len() ==> {
                &&& #[trigger] tags[i].posts@[k] < posts.len()
                &&& !posts[tags[i].posts@[k] as int].headers.hidden
                &&& carries(posts[tags[i].posts@[k] as int], tags[i].name@)
            }
            &&& forall|a: int, b: int| 0 <= a < b < tags[i].posts@.len() ==> not_older(
                posts[#[trigger] tags[i].posts@[a] as int],
                posts[#[trigger] tags[i].posts@[b] as int],
            )
        },
{
    assert forall|i: int, a: int, b: int| 0 <= i < tags.len() && 0 <= a < b < tags[i].posts@.len() implies not_older(
        posts[#[trigger] tags[i].posts@[a] as int],
        posts[#[trigger] tags[i].posts@[b] as int],
    ) by {
        assert(tag_wf(tags[i], posts));
        let pa = tags[i].posts@[a] as int;
        let pb = tags[i].posts@[b] as int;
        assert(pa < posts.len() && pb < posts.len());
        if pa < pb {
            assert(not_older(posts[pa], posts[pb]));
        }
    }
    assert forall|i: int| 0 <= i < tags.len() implies (#[trigger] tags[i]).posts@.len() >= 1 by {
        assert(tag_wf(tags[i], posts));
    }
}

/// Positions of the visible posts among the first `n` of `posts`, in order.
pub open spec fn visible_upto(posts: Seq<Post>, n: int) -> Seq<usize>
    decreases n,
{
    if n <= 0 {
        Seq::empty()
    } else if posts[n - 1].headers.hidden {
        visible_upto(posts, n - 1)
    } else {
        visible_upto(posts, n - 1).push((n - 1) as usize)
    }
}

/// Positions of the visible posts of `posts`, in order.
pub open spec fn visible(posts: Seq<Post>) -> Seq<usize> {
    visible_upto(posts, posts.len() as int)
}

/// Positions of the posts of `posts` that are not hidden, in order.
pub fn visible_posts(posts: &Vec<Post>) -> (r: Vec<usize>)
    ensures
        r@ == visible(posts@),
{
    let mut r: Vec<usize> = Vec::new();
    let mut i: usize = 0;
    while i < posts.len()
        invariant
            i <= posts@.len(),
            r@ == visible_upto(posts@, i as int),
        decreases posts@.len() - i,
    {
        if !posts[i].headers.hidden {
            r.push(i);
        }
        i += 1;
    }
    r
}

/// Everything a build renders: the posts newest first, the tag index, the
/// index pages and, for each tag in the same order, the tag's pages.
pub struct SiteModel {
    /// All posts, hidden ones included, newest first.
    pub posts: Vec<Post>,
    /// The tags of the visible posts.
    pub tags: Vec<Tag>,
    /// The pages of the site's index.
    pub index_pages: Vec<Page>,
    /// The pages of each tag, in the order of `tags`.
    pub tag_pages: Vec<Vec<Page>>,
}

/// `"index"` as characters.
pub open spec fn index_prefix() -> Seq<char> {
    seq!['i', 'n', 'd', 'e', 'x']
}

impl SiteModel {
    /// The model is consistent with a page size of `size`: posts newest
    /// first, tags indexing them, and the pages cutting the visible posts
    /// and each tag's posts.
    pub open spec fn wf(&self, size: nat) -> bool {
        &&& newest_first(self.posts@)
        &&& index_of(self.tags@, self.posts@)
        &&& is_pagination(self.index_pages@, visible(self.posts@), index_prefix(), size)
        &&& self.tag_pages@.len() == self.tags@.len()
        &&& forall|i: int| 0 <= i < self.tags@.len() ==> is_pagination(
            #[trigger] self.tag_pages@[i]@,
            self.tags@[i].posts@,
            self.tags@[i].name@,
            size,
        )
    }

    /// The model is the one built from `posts` with pages of `size`: the
    /// posts sorted newest first and the tag index of the sorted posts.
    pub open spec fn built_from(&self, posts: Seq<Post>, size: nat) -> bool {
        &&& self.wf(size)
        &&& self.posts@ == sorted_posts(posts)
        &&& tags_view(self.tags@) == tag_index(self.posts@)
    }
}

/// The posts `s` as plain values.
pub open spec fn posts_view(s: Seq<Post>) -> Seq<(
    Seq<char>,
    Seq<char>,
    Seq<char>,
    Seq<char>,
    crate::post::Timestamp,
    bool,
    Seq<Seq<char>>,
    Seq<char>,
    Seq<char>,
)> {
    s.map_values(|p: Post| post_view(p))
}

proof fn lemma_insert_index_view(s1: Seq<Post>, s2: Seq<Post>, x1: Post, x2: Post, j: int)
    requires
        posts_view(s1) == posts_view(s2),
        x1.headers.created == x2.headers.created,
        0 <= j <= s1.len(),
    ensures
        insert_index(s1, x1, j) == insert_index(s2, x2, j),
    decreases j,
{
    if j > 0 {
        assert(posts_view(s1).len() == s1.len() && posts_view(s2).len() == s2.len());
        assert(posts_view(s1)[j - 1] == post_view(s1[j - 1]));
        assert(posts_view(s2)[j - 1] == post_view(s2[j - 1]));
        assert(s1[j - 1].headers.created == s2[j - 1].headers.created);
        lemma_insert_index_view(s1, s2, x1, x2, j - 1);
    }
}

proof fn lemma_sorted_view(s1: Seq<Post>, s2: Seq<Post>)
    requires
        posts_view(s1) == posts_view(s2),
    ensures
        posts_view(sorted_posts(s1)) == posts_view(sorted_posts(s2)),
    decreases s1.len(),
{
    if s1.len() > 0 {
        assert(posts_view(s1).len() == s1.len() && posts_view(s2).len() == s2.len());
        assert(posts_view(s1.drop_last()) =~= posts_view(s2.drop_last())) by {
            assert forall|k: int| 0 <= k < s1.len() - 1 implies posts_view(s1.drop_last())[k] == posts_view(s2.drop_last())[k] by {
                assert(posts_view(s1)[k] == posts_view(s2)[k]);
            }
        }
        lemma_sorted_view(s1.drop_last(), s2.drop_last());
        let pre1 = sorted_posts(s1.drop_last());
        let pre2 = sorted_posts(s2.drop_last());
        lemma_sorted_len(s1.drop_last());
        lemma_sorted_len(s2.drop_last());
        assert(posts_view(s1)[s1.len() - 1] == posts_view(s2)[s1.len() - 1]);
        let x1 = s1.last();
        let x2 = s2.last();
        lemma_insert_index_view(pre1, pre2, x1, x2, pre1.len() as int);
        let k = insert_index(pre1, x1, pre1.len() as int);
        lemma_insert_index_bounds(pre1, x1, pre1.len() as int);
        assert(posts_view(pre1).len() == pre1.len());
        assert(posts_view(pre1.insert(k, x1)) =~= posts_view(pre1).insert(k, post_view(x1)));
        assert(posts_view(pre2.insert(k, x2)) =~= posts_view(pre2).insert(k, post_view(x2)));
    }
}

proof fn lemma_tag_index_view(s1: Seq<Post>, s2: Seq<Post>, n: int)
    requires
        posts_view(s1) == posts_view(s2),
        0 <= n <= s1.len(),
    ensures
        tag_index_upto(s1, n) == tag_index_upto(s2, n),
        visible_upto(s1, n) == visible_upto(s2, n),
    decreases n,
{
    if n > 0 {
        lemma_tag_index_view(s1, s2, n - 1);
        assert(posts_view(s1).len() == s1.len());
        assert(posts_view(s1)[n - 1] == posts_view(s2)[n - 1]);
        assert(tag_names(s1[n - 1]) == tag_names(s2[n - 1]));
        assert(tag_names(s1[n - 1]).len() == s1[n - 1].headers.tags@.len());
    }
}

/// Building the site from posts with the same plain values gives the same
/// model: the same posts in the same order, the same tags with the same
/// posts, and the same index and tag pages.
pub proof fn same_posts_same_model(a: SiteModel, b: SiteModel, pa: Seq<Post>, pb: Seq<Post>, size: nat)
    requires
        a.built_from(pa, size),
        b.built_from(pb, size),
        posts_view(pa) == posts_view(pb),
    ensures
        posts_view(a.posts@) == posts_view(b.posts@),
        tags_view(a.tags@) == tags_view(b.tags@),
        pages_view(a.index_pages@) == pages_view(b.index_pages@),
        a.tag_pages@.len() == b.tag_pages@.len(),
        forall|i: int| 0 <= i < a.tag_pages@.len() ==> pages_view(#[trigger] a.tag_pages@[i]@) == pages_view(b.tag_pages@[i]@),
{
    lemma_sorted_view(pa, pb);
    let sa = a.posts@;
    let sb = b.posts@;
    assert(posts_view(sa).len() == sa.len() && posts_view(sb).len() == sb.len());
    lemma_tag_index_view(sa, sb, sa.len() as int);
    pagination_is_unique(a.index_pages@, b.index_pages@, visible(sa), index_prefix(), size);
    assert(tags_view(a.tags@).len() == a.tags@.len());
    assert(tags_view(b.tags@).len() == b.tags@.len());
    assert forall|i: int| 0 <= i < a.tag_pages@.len() implies pages_view(#[trigger] a.tag_pages@[i]@) == pages_view(b.tag_pages@[i]@) by {
        assert(tags_view(a.tags@)[i] == tags_view(b.tags@)[i]);
        assert(a.tags@[i].posts@ == b.tags@[i].posts@);
        assert(a.tags@[i].name@ == b.tags@[i].name@);
        assert(is_pagination(a.tag_pages@[i]@, a.tags@[i].posts@, a.tags@[i].name@, size));
        assert(is_pagination(b.tag_pages@[i]@, b.tags@[i].posts@, b.tags@[i].name@, size));
        pagination_is_unique(a.tag_pages@[i]@, b.tag_pages@[i]@, a.tags@[i].posts@, a.tags@[i].name@, size);
    }
}

/// Builds the site model from the loaded posts, in any order, with pages
/// of `posts_per_page` posts.
pub fn build_site(posts: Vec<Post>, posts_per_page: usize) -> (r: SiteModel)
    requires
        posts_per_page > 0,
    ensures
        r.built_from(posts@, posts_per_page as nat),
        r.posts@.to_multiset() == posts@.to_multiset(),
{
    let mut posts = posts;
    sort_posts(&mut posts);
    let tags = build_tags(&posts);
    let visible_ids = visible_posts(&posts);
    let index_pages = paginate(&visible_ids, "index", posts_per_page);
    proof {
        reveal_strlit("index");
        assert("index"@ =~= index_prefix());
    }
    let mut tag_pages: Vec<Vec<Page>> = Vec::new();
    let mut i: usize = 0;
    while i < tags.len()
        invariant
            i <= tags@.len(),
            posts_per_page > 0,
            tag_pages@.len() == i,
            forall|k: int| 0 <= k < i ==> is_pagination(
                #[trigger] tag_pages@[k]@,
                tags@[k].posts@,
                tags@[k].name@,
                posts_per_page as nat,
            ),
        decreases tags@.len() - i,
    {
        let pages = paginate(&tags[i].posts, tags[i].name.as_str(), posts_per_page);
        tag_pages.push(pages);
        i += 1;
    }
    SiteModel { posts, tags, index_pages, tag_pages }
}

} // verus!
