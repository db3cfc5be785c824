//! Pagination of an ordered sequence of posts.

use vstd::prelude::*;
use crate::text::{decimal, push_char, push_decimal};

verus! {

/// `".html"` as characters.
pub open spec fn html_suffix() -> Seq<char> {
    seq!['.', 'h', 't', 'm', 'l']
}

/// The name of page `i` out of `pages` pages whose first page is `prefix.html`:
/// empty when `i` is out of `1..=pages`, `prefix.html` for the first page and
/// `prefix-i.html` for the others.
pub open spec fn page_name(prefix: Seq<char>, i: nat, pages: nat) -> Seq<char> {
    if i == 0 || i > pages {
        Seq::empty()
    } else if i == 1 {
        prefix + html_suffix()
    } else {
        prefix + seq!['-'] + decimal(i) + html_suffix()
    }
}

/// Name of page `page` out of `pages` pages, see [`page_name`].
pub fn format_page_name(prefix: &str, page: usize, pages: usize) -> (r: String)
    ensures
        r@ == page_name(prefix@, page as nat, pages as nat),
{
    if page == 0 || page > pages {
        return String::new();
    }
    let mut s = prefix.to_owned();
    if page > 1 {
        push_char(&mut s, '-');
        push_decimal(&mut s, page);
    }
    push_char(&mut s, '.');
    push_char(&mut s, 'h');
    push_char(&mut s, 't');
    push_char(&mut s, 'm');
    push_char(&mut s, 'l');
    assert(s@ == page_name(prefix@, page as nat, pages as nat));
    s
}


/// Number of pages of at most `size` items needed for `total` items.
pub open spec fn page_count(total: nat, size: nat) -> nat
    recommends
        size > 0,
{
    if total % size == 0 {
        total / size
    } else {
        total / size + 1
    }
}

/// Index of the first item on page `i` (counted from 1).
pub open spec fn page_start(i: nat, size: nat) -> nat {
    ((i - 1) * size) as nat
}

/// Index one past the last item on page `i` (counted from 1).
pub open spec fn page_end(i: nat, size: nat, total: nat) -> nat {
    if i * size < total {
        i * size
    } else {
        total
    }
}

/// One page of an ordered sequence of posts. Posts are given by their
/// position in the site's post list.
#[derive(Debug)]
pub struct Page {
    /// Position of the page, counted from 1.
    pub index: usize,
    /// File name of the page.
    pub name: String,
    /// File name of the previous page, empty on the first.
    pub prev: String,
    /// File name of the next page, empty on the last.
    pub next: String,
    /// The posts on the page, in order.
    pub posts: Vec<usize>,
}

impl Page {
    /// `self` is page `i` (counted from 1) of `items` cut into pages of
    /// `size`, with names built on `prefix`.
    pub open spec fn is_page_of(&self, items: Seq<usize>, prefix: Seq<char>, size: nat, i: nat) -> bool {
        let pages = page_count(items.len(), size);
        &&& self.index == i
        &&& self.name@ == page_name(prefix, i, pages)
        &&& self.prev@ == (if i > 1 { page_name(prefix, (i - 1) as nat, pages) } else { Seq::empty() })
        &&& self.next@ == (if i < pages { page_name(prefix, i + 1, pages) } else { Seq::empty() })
        &&& self.posts@ == items.subrange(page_start(i, size) as int, page_end(i, size, items.len()) as int)
    }
}

/// `pages` is `items` cut into pages of `size`, named after `prefix`.
pub open spec fn is_pagination(pages: Seq<Page>, items: Seq<usize>, prefix: Seq<char>, size: nat) -> bool {
    &&& pages.len() == page_count(items.len(), size)
    &&& forall|k: int| 0 <= k < pages.len() ==> #[trigger] pages[k].is_page_of(items, prefix, size, (k + 1) as nat)
}

/// Number of pages of at most `size` items needed for `total` items.
pub fn count_pages(total: usize, size: usize) -> (r: usize)
    requires
        size > 0,
    ensures
        r == page_count(total as nat, size as nat),
{
    if total % size == 0 {
        total / size
    } else {
        assert(size != 1 && total != 0) by (nonlinear_arith)
            requires total % size != 0, size > 0;
        assert(total / size < total) by (nonlinear_arith)
            requires size > 1, total > 0, total % size != 0;
        total / size + 1
    }
}

proof fn lemma_page_bounds(total: nat, size: nat, i: nat)
    requires
        size > 0,
        1 <= i <= page_count(total, size),
    ensures
        page_start(i, size) < total,
        page_start(i, size) + size <= i * size,
        (i - 1) * size + size == i * size,
{
    let q = total / size;
    let r = total % size;
    assert(total == q * size + r) by (nonlinear_arith)
        requires size > 0, q == total / size, r == total % size;
    assert((i - 1) * size + size == i * size) by (nonlinear_arith)
        requires i >= 1;
    if r == 0 {
        assert(i <= q);
        assert((i - 1) * size < q * size) by (nonlinear_arith)
            requires i <= q, size > 0, i >= 1;
    } else {
        assert(i <= q + 1);
        assert((i - 1) * size <= q * size) by (nonlinear_arith)
            requires i <= q + 1, size > 0, i >= 1;
    }
}

/// Cuts `items` into consecutive pages of `size` items (the last one may be
/// shorter), named `prefix.html`, `prefix-2.html`, ... No page is made
/// when `items` is empty.
pub fn paginate(items: &Vec<usize>, prefix: &str, size: usize) -> (r: Vec<Page>)
    requires
        size > 0,
    ensures
        is_pagination(r@, items@, prefix@, size as nat),
{
    let total = items.len();
    let pages = count_pages(total, size);
    let mut r: Vec<Page> = Vec::new();
    let mut k: usize = 0;
    while k < pages
        invariant
            k <= pages,
            pages == page_count(total as nat, size as nat),
            total == items@.len(),
            size > 0,
            r@.len() == k,
            forall|k: int| 0 <= k < r@.len() ==> #[trigger] r@[k].is_page_of(items@, prefix@, size as nat, (k + 1) as nat),
        decreases pages - k,
    {
        let i = k + 1;
        proof {
            lemma_page_bounds(total as nat, size as nat, i as nat);
        }
        let start = (i - 1) * size;
        let end = if total - start > size { start + size } else { total };
        assert(end == page_end(i as nat, size as nat, total as nat));
        let mut posts: Vec<usize> = Vec::new();
        let mut j = start;
        while j < end
            invariant
                start <= j <= end <= total == items@.len(),
                posts@ == items@.subrange(start as int, j as int),
            decreases end - j,
        {
            posts.push(items[j]);
            assert(posts@ =~= items@.subrange(start as int, j + 1));
            j += 1;
        }
        let prev = if i > 1 { format_page_name(prefix, i - 1, pages) } else { String::new() };
        let next = if i < pages { format_page_name(prefix, i + 1, pages) } else { String::new() };
        let page = Page { index: i, name: format_page_name(prefix, i, pages), prev, next, posts };
        r.push(page);
        k += 1;
    }
    r
}

/// A page as plain values: position, name, previous and next names, posts.
pub open spec fn page_view(p: Page) -> (usize, Seq<char>, Seq<char>, Seq<char>, Seq<usize>) {
    (p.index, p.name@, p.prev@, p.next@, p.posts@)
}

/// The pages `pages` as plain values.
pub open spec fn pages_view(pages: Seq<Page>) -> Seq<(usize, Seq<char>, Seq<char>, Seq<char>, Seq<usize>)> {
    pages.map_values(|p: Page| page_view(p))
}

/// Cutting the same items into pages of the same size, under the same
/// prefix, always gives the same pages: same positions, names, links and
/// posts.
pub proof fn pagination_is_unique(a: Seq<Page>, b: Seq<Page>, items: Seq<usize>, prefix: Seq<char>, size: nat)
    requires
        is_pagination(a, items, prefix, size),
        is_pagination(b, items, prefix, size),
    ensures
        pages_view(a) == pages_view(b),
{
    assert forall|k: int| 0 <= k < a.len() implies #[trigger] page_view(a[k]) == page_view(b[k]) by {
        assert(a[k].is_page_of(items, prefix, size, (k + 1) as nat));
        assert(b[k].is_page_of(items, prefix, size, (k + 1) as nat));
    }
    assert(pages_view(a) =~= pages_view(b));
}

} // verus!
