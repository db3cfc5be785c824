//! What the page templates are given, beside the site settings: the tags in
//! display order, and the tags of a post.

use vstd::prelude::*;
use crate::post::Post;
use crate::tag::{carries, Tag};
use crate::text::chars_of;

verus! {

broadcast use vstd::seq_lib::group_to_multiset_ensures;

/// `s` in lower case, as `str::to_lowercase` gives it.
pub uninterp spec fn lower_of(s: Seq<char>) -> Seq<char>;

/// Relies on `str::to_lowercase`: `s` in lower case.
#[verifier::external_body]
fn lowercase(s: &str) -> (r: String)
    ensures
        r@ == lower_of(s@),
{
    s.to_lowercase()
}

/// `a` comes before `b`, or equals it, in the lexicographic order of
/// character codes.
pub open spec fn lex_le(a: Seq<char>, b: Seq<char>) -> bool
    decreases a.len(),
{
    if a.len() == 0 {
        true
    } else if b.len() == 0 {
        false
    } else if a[0] != b[0] {
        a[0] < b[0]
    } else {
        lex_le(a.drop_first(), b.drop_first())
    }
}

proof fn lemma_lex_total(a: Seq<char>, b: Seq<char>)
    ensures
        lex_le(a, b) || lex_le(b, a),
    decreases a.len(),
{
    if a.len() > 0 && b.len() > 0 && a[0] == b[0] {
        lemma_lex_total(a.drop_first(), b.drop_first());
    }
}

proof fn lemma_lex_refl(a: Seq<char>)
    ensures
        lex_le(a, a),
    decreases a.len(),
{
    if a.len() > 0 {
        lemma_lex_refl(a.drop_first());
    }
}

proof fn lemma_lex_trans(a: Seq<char>, b: Seq<char>, c: Seq<char>)
    requires
        lex_le(a, b),
        lex_le(b, c),
    ensures
        lex_le(a, c),
    decreases a.len(),
{
    if a.len() > 0 && b.len() > 0 && c.len() > 0 && a[0] == b[0] && b[0] == c[0] {
        lemma_lex_trans(a.drop_first(), b.drop_first(), c.drop_first());
    }
}

/// Whether `a` comes before `b`, or equals it, see [`lex_le`].
pub fn chars_lex_le(a: &Vec<char>, b: &Vec<char>) -> (r: bool)
    ensures
        r == lex_le(a@, b@),
{
    let mut i: usize = 0;
    assert(a@.subrange(0, a@.len() as int) =~= a@);
    assert(b@.subrange(0, b@.len() as int) =~= b@);
    while i < a.len() && i < b.len() && a[i] == b[i]
        invariant
            i <= a@.len(),
            i <= b@.len(),
            lex_le(a@, b@) == lex_le(a@.subrange(i as int, a@.len() as int), b@.subrange(i as int, b@.len() as int)),
        decreases a@.len() - i,
    {
        let ghost sa = a@.subrange(i as int, a@.len() as int);
        let ghost sb = b@.subrange(i as int, b@.len() as int);
        assert(sa.drop_first() =~= a@.subrange(i + 1, a@.len() as int));
        assert(sb.drop_first() =~= b@.subrange(i + 1, b@.len() as int));
        i += 1;
    }
    if i == a.len() {
        true
    } else if i == b.len() {
        false
    } else {
        a[i] < b[i]
    }
}

/// `order` lists the positions `0..n`, each once.
pub open spec fn is_permutation(order: Seq<usize>, n: nat) -> bool {
    &&& order.len() == n
    &&& forall|k: int| 0 <= k < order.len() ==> #[trigger] order[k] < n
    &&& forall|a: int, b: int| 0 <= a < b < order.len() ==> order[a] != order[b]
}

/// The positions of `tags` ordered by name, ignoring case.
pub open spec fn by_name_ignoring_case(order: Seq<usize>, tags: Seq<Tag>) -> bool {
    &&& is_permutation(order, tags.len())
    &&& forall|a: int, b: int| 0 <= a < b < order.len() ==> lex_le(
        lower_of(tags[#[trigger] order[a] as int].name@),
        lower_of(tags[#[trigger] order[b] as int].name@),
    )
}

/// Positions of `tags` in display order: by name, ignoring case. The sort
/// is stable: tags whose names are equal in lower case keep their order.
pub fn tags_display_order(tags: &Vec<Tag>) -> (r: Vec<usize>)
    ensures
        by_name_ignoring_case(r@, tags@),
        forall|a: int, b: int| 0 <= a < b < r@.len() && lower_of(tags@[#[trigger] r@[a] as int].name@) == lower_of(
            tags@[#[trigger] r@[b] as int].name@,
        ) ==> r@[a] < r@[b],
{
    let n = tags.len();
    let mut keys: Vec<Vec<char>> = Vec::new();
    let mut order: Vec<usize> = Vec::new();
    let mut i: usize = 0;
    while i < n
        invariant
            i <= n == tags@.len(),
            keys@.len() == i,
            order@.len() == i,
            forall|k: int| 0 <= k < i ==> (#[trigger] keys@[k])@ == lower_of(tags@[k].name@),
            forall|k: int| 0 <= k < i ==> #[trigger] order@[k] == k,
        decreases n - i,
    {
        let lower = lowercase(tags[i].name.as_str());
        keys.push(chars_of(lower.as_str()));
        order.push(i);
        i += 1;
    }
    assert(is_permutation(order@, n as nat));
    let mut i: usize = 1;
    while i < n
        invariant
            1 <= n ==> 1 <= i,
            i <= n || n == 0,
            n == tags@.len() == keys@.len() == order@.len(),
            forall|k: int| 0 <= k < n ==> (#[trigger] keys@[k])@ == lower_of(tags@[k].name@),
            is_permutation(order@, n as nat),
            forall|a: int, b: int| 0 <= a < b < i ==> lex_le(
                lower_of(tags@[#[trigger] order@[a] as int].name@),
                lower_of(tags@[#[trigger] order@[b] as int].name@),
            ),
            forall|k: int| i <= k < n ==> #[trigger] order@[k] == k,
            forall|k: int| 0 <= k < i && k < n ==> #[trigger] order@[k] < i,
            forall|a: int, b: int| 0 <= a < b < i && b < n && lower_of(tags@[#[trigger] order@[a] as int].name@) == lower_of(
                tags@[#[trigger] order@[b] as int].name@,
            ) ==> order@[a] < order@[b],
        decreases n - i,
    {
        let ghost before = order@;
        let x = order.remove(i);
        let ghost removed = order@;
        let mut j: usize = i;
        while j > 0 && !chars_lex_le(&keys[order[j - 1]], &keys[x])
            invariant
                0 <= j <= i < n,
                order@ == removed,
                removed.len() == n - 1,
                keys@.len() == n,
                tags@.len() == n,
                removed == before.remove(i as int),
                x == before[i as int],
                x < n,
                forall|k: int| 0 <= k < n ==> (#[trigger] keys@[k])@ == lower_of(tags@[k].name@),
                is_permutation(before, n as nat),
                forall|k: int| j <= k < i ==> !lex_le(
                    lower_of(tags@[#[trigger] removed[k] as int].name@),
                    lower_of(tags@[x as int].name@),
                ),
            decreases j,
        {
            j -= 1;
        }
        order.insert(j, x);
        proof {
            let s = order@;
            assert(s == removed.insert(j as int, x));
            assert forall|a: int, b: int| 0 <= a < b < s.len() implies s[a] != s[b] by {
                let oa = if a < j { a } else if a == j { i as int } else if a <= i { a - 1 } else { a };
                let ob = if b < j { b } else if b == j { i as int } else if b <= i { b - 1 } else { b };
                assert(s[a] == before[oa]);
                assert(s[b] == before[ob]);
                assert(oa != ob);
            }
            assert forall|k: int| 0 <= k < s.len() implies #[trigger] s[k] < n by {
                let ok = if k < j { k } else if k == j { i as int } else if k <= i { k - 1 } else { k };
                assert(s[k] == before[ok]);
            }
            assert forall|k: int| i + 1 <= k < n implies #[trigger] s[k] == k by {
                assert(s[k] == before[k]);
            }
            assert forall|k: int| 0 <= k < i + 1 implies #[trigger] s[k] < i + 1 by {
                let ok = if k < j { k } else if k == j { i as int } else { k - 1 };
                assert(s[k] == before[ok]);
            }
            assert forall|a: int, b: int| 0 <= a < b < i + 1 && lower_of(tags@[#[trigger] s[a] as int].name@) == lower_of(
                tags@[#[trigger] s[b] as int].name@,
            ) implies s[a] < s[b] by {
                let oa = if a < j { a } else if a == j { i as int } else { a - 1 };
                let ob = if b < j { b } else if b == j { i as int } else { b - 1 };
                assert(s[a] == before[oa]);
                assert(s[b] == before[ob]);
                if a == j {
                    assert(s[b] == removed[b - 1]);
                    lemma_lex_refl(lower_of(tags@[x as int].name@));
                }
            }
            assert forall|a: int, b: int| 0 <= a < b < i + 1 implies lex_le(
                lower_of(tags@[#[trigger] s[a] as int].name@),
                lower_of(tags@[#[trigger] s[b] as int].name@),
            ) by {
                let kx = lower_of(tags@[x as int].name@);
                if b < j {
                    assert(s[a] == before[a] && s[b] == before[b]);
                } else if b == j {
                    assert(s[a] == before[a]);
                    if a < j - 1 {
                        assert(s[a] == before[a]);
                        lemma_lex_trans(
                            lower_of(tags@[before[a] as int].name@),
                            lower_of(tags@[before[j - 1] as int].name@),
                            kx,
                        );
                    }
                } else if a < j {
                    assert(s[a] == before[a] && s[b] == before[b - 1]);
                    if a < b - 1 {
                        assert(lex_le(
                            lower_of(tags@[before[a] as int].name@),
                            lower_of(tags@[before[b - 1] as int].name@),
                        ));
                    }
                } else if a == j {
                    assert(s[b] == removed[b - 1]);
                    lemma_lex_total(lower_of(tags@[removed[b - 1] as int].name@), kx);
                } else {
                    assert(s[a] == before[a - 1] && s[b] == before[b - 1]);
                }
            }
        }
        i += 1;
    }
    order
}

/// `r` lists, in order, the positions of the tags of `tags` that `post`
/// carries.
pub open spec fn tags_of_post(r: Seq<usize>, tags: Seq<Tag>, post: Post) -> bool {
    &&& forall|k: int| 0 <= k < r.len() ==> #[trigger] r[k] < tags.len() && carries(post, tags[r[k] as int].name@)
    &&& forall|a: int, b: int| 0 <= a < b < r.len() ==> r[a] < r[b]
    &&& forall|i: int| 0 <= i < tags.len() && carries(post, (#[trigger] tags[i]).name@) ==> r.contains(i as usize)
}

/// Whether `name` is one of `names`.
fn contains_name(names: &Vec<String>, name: &String) -> (r: bool)
    ensures
        r == exists|k: int| 0 <= k < names@.len() && #[trigger] names@[k]@ == name@,
{
    let mut k: usize = 0;
    while k < names.len()
        invariant
            k <= names@.len(),
            forall|m: int| 0 <= m < k ==> names@[m]@ != name@,
        decreases names@.len() - k,
    {
        if names[k] == *name {
            return true;
        }
        k += 1;
    }
    false
}

/// Positions of the tags of `tags` that `post` carries, in the order of `tags`.
pub fn post_tags(tags: &Vec<Tag>, post: &Post) -> (r: Vec<usize>)
    ensures
        tags_of_post(r@, tags@, *post),
{
    let mut r: Vec<usize> = Vec::new();
    let mut i: usize = 0;
    while i < tags.len()
        invariant
            i <= tags@.len(),
            forall|k: int| 0 <= k < r@.len() ==> #[trigger] r@[k] < i && carries(*post, tags@[r@[k] as int].name@),
            forall|a: int, b: int| 0 <= a < b < r@.len() ==> r@[a] < r@[b],
            forall|m: int| 0 <= m < i && carries(*post, (#[trigger] tags@[m]).name@) ==> r@.contains(m as usize),
        decreases tags@.len() - i,
    {
        if contains_name(&post.headers.tags, &tags[i].name) {
            let ghost before = r@;
            r.push(i);
            assert forall|m: int| 0 <= m < i + 1 && carries(*post, (#[trigger] tags@[m]).name@) implies r@.contains(m as usize) by {
                if m == i {
                    assert(r@[r@.len() - 1] == i);
                } else {
                    let w = choose|w: int| 0 <= w < before.len() && before[w] == m as usize;
                    assert(r@[w] == m as usize);
                }
            }
        }
        i += 1;
    }
    r
}

} // verus!
