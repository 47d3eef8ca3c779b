//! The stages of a crawl between the fetches: what was found on the pages of
//! one stage is put together, without repetitions, for the next.

use vstd::prelude::*;
use crate::crawlers::product_views;
use crate::product::{texts, Product, ProductView};
use crate::text::same_text;

verus! {

/// The views of lists of texts.
pub open spec fn text_groups(v: Seq<Vec<String>>) -> Seq<Seq<Seq<char>>> {
    Seq::new(v.len(), |i: int| texts(v[i]@))
}

/// The views of lists of products.
pub open spec fn product_groups(v: Seq<Vec<Product>>) -> Seq<Seq<ProductView>> {
    Seq::new(v.len(), |i: int| product_views(v[i]@))
}

/// The first `k` of `groups`, one after the other.
pub open spec fn joined_upto<T>(groups: Seq<Seq<T>>, k: int) -> Seq<T>
    decreases k,
{
    if k <= 0 {
        Seq::empty()
    } else {
        joined_upto(groups, k - 1) + groups[k - 1]
    }
}

/// All of `groups`, one after the other.
pub open spec fn joined<T>(groups: Seq<Seq<T>>) -> Seq<T> {
    joined_upto(groups, groups.len() as int)
}

/// Whether `x` stands among the first `k` of `s`.
pub open spec fn seen_before(s: Seq<Seq<char>>, x: Seq<char>, k: int) -> bool {
    exists|j: int| 0 <= j < k && j < s.len() && #[trigger] s[j] == x
}

/// The first `k` of `s` without repetitions: of equal texts the first
/// stays, and what stays keeps its order.
pub open spec fn first_seen_upto(s: Seq<Seq<char>>, k: int) -> Seq<Seq<char>>
    decreases k,
{
    if k <= 0 {
        Seq::empty()
    } else if seen_before(s, s[k - 1], k - 1) {
        first_seen_upto(s, k - 1)
    } else {
        first_seen_upto(s, k - 1).push(s[k - 1])
    }
}

/// `s` without repetitions.
pub open spec fn first_seen(s: Seq<Seq<char>>) -> Seq<Seq<char>> {
    first_seen_upto(s, s.len() as int)
}

/// Whether a later product of `s` has the address of the one at `i`.
pub open spec fn overwritten(s: Seq<ProductView>, i: int) -> bool {
    exists|j: int| i < j < s.len() && (#[trigger] s[j]).url == s[i].url
}

/// The first `k` of `s` without those that a later product of `s`
/// overwrites.
pub open spec fn last_writers_upto(s: Seq<ProductView>, k: int) -> Seq<ProductView>
    decreases k,
{
    if k <= 0 {
        Seq::empty()
    } else if overwritten(s, k - 1) {
        last_writers_upto(s, k - 1)
    } else {
        last_writers_upto(s, k - 1).push(s[k - 1])
    }
}

/// `s` with one product for each address: of products with the same
/// address the last stays, and what stays keeps its order.
pub open spec fn last_writers(s: Seq<ProductView>) -> Seq<ProductView> {
    last_writers_upto(s, s.len() as int)
}

/// Whether no two products of `s` have the same address.
pub open spec fn distinct_urls(s: Seq<ProductView>) -> bool {
    forall|a: int, b: int| 0 <= a < b < s.len() ==> (#[trigger] s[a]).url != (#[trigger] s[b]).url
}

/// What `first_seen_upto` keeps is exactly what stands among the first `k`.
pub proof fn lemma_first_seen_members(s: Seq<Seq<char>>, k: int)
    requires
        0 <= k <= s.len(),
    ensures
        forall|x: Seq<char>| first_seen_upto(s, k).contains(x) <==> seen_before(s, x, k),
        forall|a: int, b: int|
            0 <= a < b < first_seen_upto(s, k).len() ==> first_seen_upto(s, k)[a]
                != first_seen_upto(s, k)[b],
    decreases k,
{
    if k > 0 {
        lemma_first_seen_members(s, k - 1);
        let before = first_seen_upto(s, k - 1);
        let now = first_seen_upto(s, k);
        let last = s[k - 1];
        assert forall|x: Seq<char>| now.contains(x) <==> seen_before(s, x, k) by {
            if now.contains(x) {
                let i = choose|i: int| 0 <= i < now.len() && now[i] == x;
                if i < before.len() {
                    assert(before[i] == x);
                    assert(before.contains(x));
                    assert(seen_before(s, x, k - 1));
                    let j = choose|j: int| 0 <= j < k - 1 && j < s.len() && #[trigger] s[j] == x;
                    assert(0 <= j < k && j < s.len() && s[j] == x);
                } else {
                    assert(x == last);
                    assert(s[k - 1] == x);
                }
            }
            if seen_before(s, x, k) {
                let j = choose|j: int| 0 <= j < k && j < s.len() && s[j] == x;
                if j < k - 1 {
                    assert(seen_before(s, x, k - 1));
                    assert(before.contains(x));
                    let i = choose|i: int| 0 <= i < before.len() && before[i] == x;
                    assert(now[i] == x);
                } else if seen_before(s, last, k - 1) {
                    assert(before.contains(x));
                } else {
                    assert(now[before.len() as int] == x);
                }
            }
        }
        assert forall|a: int, b: int| 0 <= a < b < now.len() implies now[a] != now[b] by {
            if b == before.len() {
                assert(before.contains(now[a]));
            }
        }
    }
}

/// What `last_writers_upto` keeps are products of `s` that no later one
/// overwrites, and no two of them have the same address.
pub proof fn lemma_last_writers_distinct(s: Seq<ProductView>, k: int)
    requires
        0 <= k <= s.len(),
    ensures
        forall|a: int|
            0 <= a < last_writers_upto(s, k).len() ==> exists|i: int|
                0 <= i < k && #[trigger] s[i] == (#[trigger] last_writers_upto(s, k)[a])
                    && !overwritten(s, i),
        distinct_urls(last_writers_upto(s, k)),
    decreases k,
{
    if k > 0 {
        lemma_last_writers_distinct(s, k - 1);
        let before = last_writers_upto(s, k - 1);
        let now = last_writers_upto(s, k);
        assert forall|a: int| 0 <= a < now.len() implies exists|i: int|
            0 <= i < k && #[trigger] s[i] == (#[trigger] now[a]) && !overwritten(s, i) by {
            if a < before.len() {
                let i = choose|i: int|
                    0 <= i < k - 1 && #[trigger] s[i] == before[a] && !overwritten(s, i);
                assert(0 <= i < k && s[i] == now[a] && !overwritten(s, i));
            } else {
                assert(s[k - 1] == now[a] && !overwritten(s, k - 1));
            }
        }
        assert forall|a: int, b: int| 0 <= a < b < now.len() implies (#[trigger] now[a]).url != (
        #[trigger] now[b]).url by {
            if b == before.len() {
                let i = choose|i: int|
                    0 <= i < k - 1 && #[trigger] s[i] == before[a] && !overwritten(s, i);
                if now[a].url == now[b].url {
                    assert(s[k - 1].url == s[i].url);
                    assert(overwritten(s, i));
                }
            }
        }
    }
}

/// No two products that `last_writers` keeps have the same address.
pub proof fn lemma_last_writers_unique(s: Seq<ProductView>)
    ensures
        distinct_urls(last_writers(s)),
{
    lemma_last_writers_distinct(s, s.len() as int);
}

/// A product among the first `k` that no later product overwrites stays.
pub proof fn lemma_last_writer_stays(s: Seq<ProductView>, k: int, j: int)
    requires
        0 <= j < k <= s.len(),
        !overwritten(s, j),
    ensures
        last_writers_upto(s, k).contains(s[j]),
    decreases k,
{
    let now = last_writers_upto(s, k);
    if j == k - 1 {
        assert(now[now.len() - 1] == s[j]);
    } else {
        lemma_last_writer_stays(s, k - 1, j);
        let before = last_writers_upto(s, k - 1);
        let a = choose|a: int| 0 <= a < before.len() && before[a] == s[j];
        assert(now[a] == s[j]);
    }
}

/// The index of the last product of `s` at or after `i` that has the address
/// of the one at `i`.
pub open spec fn last_with_url(s: Seq<ProductView>, i: int, j: int) -> int
    decreases s.len() - j,
{
    if 0 <= j < s.len() {
        let later = last_with_url(s, i, j + 1);
        if later >= 0 {
            later
        } else if s[j].url == s[i].url {
            j
        } else {
            -1
        }
    } else {
        -1
    }
}

/// `last_with_url` finds a product with the address that no later product
/// overwrites, where there is a product with the address at all.
pub proof fn lemma_last_with_url(s: Seq<ProductView>, i: int, j: int)
    requires
        0 <= i < s.len(),
        0 <= j <= s.len(),
    ensures
        ({
            let last = last_with_url(s, i, j);
            &&& last >= 0 ==> j <= last < s.len() && s[last].url == s[i].url && forall|m: int|
                last < m < s.len() ==> (#[trigger] s[m]).url != s[i].url
            &&& last < 0 ==> forall|m: int| j <= m < s.len() ==> (#[trigger] s[m]).url != s[i].url
        }),
    decreases s.len() - j,
{
    if j < s.len() {
        lemma_last_with_url(s, i, j + 1);
    }
}

/// No address is lost: for every product found, a product with its address
/// stays.
pub proof fn lemma_every_url_stays(s: Seq<ProductView>, i: int)
    requires
        0 <= i < s.len(),
    ensures
        exists|a: int|
            0 <= a < last_writers(s).len() && (#[trigger] last_writers(s)[a]).url == s[i].url,
{
    lemma_last_with_url(s, i, 0);
    let last = last_with_url(s, i, 0);
    assert(s[i].url == s[i].url);
    assert(last >= 0);
    assert(!overwritten(s, last)) by {
        if overwritten(s, last) {
            let m = choose|m: int| last < m < s.len() && (#[trigger] s[m]).url == s[last].url;
            assert(s[m].url != s[i].url);
        }
    }
    lemma_last_writer_stays(s, s.len() as int, last);
    let kept = last_writers(s);
    let a = choose|a: int| 0 <= a < kept.len() && kept[a] == s[last];
    assert(kept[a].url == s[i].url);
}

/// Products whose addresses all differ all stay, in their order.
pub proof fn lemma_distinct_all_stay(s: Seq<ProductView>, k: int)
    requires
        distinct_urls(s),
        0 <= k <= s.len(),
    ensures
        last_writers_upto(s, k) == s.take(k),
    decreases k,
{
    if k > 0 {
        lemma_distinct_all_stay(s, k - 1);
        assert(!overwritten(s, k - 1));
        assert(s.take(k - 1).push(s[k - 1]) =~= s.take(k));
    } else {
        assert(s.take(0) =~= Seq::<ProductView>::empty());
    }
}

/// The addresses found on the pages of a stage, without repetitions and in
/// the order in which they were first found.
pub fn unique_links(found: &Vec<Vec<String>>) -> (r: Vec<String>)
    ensures
        texts(r@) == first_seen(joined(text_groups(found@))),
        forall|a: int, b: int| 0 <= a < b < r@.len() ==> texts(r@)[a] != texts(r@)[b],
{
    let mut all: Vec<String> = Vec::new();
    let mut g: usize = 0;
    assert(texts(all@) =~= joined_upto(text_groups(found@), 0));
    while g < found.len()
        invariant
            g <= found.len(),
            texts(all@) == joined_upto(text_groups(found@), g as int),
        decreases found.len() - g,
    {
        let group = &found[g];
        let ghost start = texts(all@);
        let mut i: usize = 0;
        assert(texts(all@) =~= start + texts(group@).take(0));
        while i < group.len()
            invariant
                i <= group.len(),
                texts(all@) == start + texts(group@).take(i as int),
            decreases group.len() - i,
        {
            let ghost before = texts(all@);
            let item = group[i].clone();
            all.push(item);
            assert(texts(all@) =~= before.push(texts(group@)[i as int]));
            i += 1;
            assert(texts(all@) =~= start + texts(group@).take(i as int));
        }
        assert(texts(group@).take(group.len() as int) =~= texts(group@));
        g += 1;
    }
    let ghost s = texts(all@);
    let mut out: Vec<String> = Vec::new();
    let mut k: usize = 0;
    assert(texts(out@) =~= first_seen_upto(s, 0));
    while k < all.len()
        invariant
            k <= all.len(),
            s == texts(all@),
            texts(out@) == first_seen_upto(s, k as int),
        decreases all.len() - k,
    {
        proof {
            lemma_first_seen_members(s, k as int);
        }
        let mut seen = false;
        let mut j: usize = 0;
        while j < out.len() && !seen
            invariant
                j <= out.len(),
                k < all.len(),
                s == texts(all@),
                seen <==> exists|m: int| 0 <= m < j && #[trigger] texts(out@)[m] == s[k as int],
            decreases out.len() - j + (if seen { 0int } else { 1int }),
        {
            if same_text(out[j].as_str(), all[k].as_str()) {
                seen = true;
                assert(texts(out@)[j as int] == s[k as int]);
            }
            j += 1;
        }
        proof {
            let x = s[k as int];
            if seen {
                let m = choose|m: int| 0 <= m < j && #[trigger] texts(out@)[m] == x;
                assert(texts(out@).contains(x));
            } else {
                if texts(out@).contains(x) {
                    let m = choose|m: int| 0 <= m < texts(out@).len() && texts(out@)[m] == x;
                    assert(false);
                }
            }
            assert(seen == seen_before(s, x, k as int));
        }
        if !seen {
            let ghost before = texts(out@);
            out.push(all[k].clone());
            assert(texts(out@) =~= before.push(s[k as int]));
        }
        k += 1;
    }
    proof {
        lemma_first_seen_members(s, s.len() as int);
    }
    out
}

/// The products found on the pages of the last stage, one for each address:
/// of products with the same address the last one found stays.
pub fn unique_products(found: &Vec<Vec<Product>>) -> (r: Vec<Product>)
    ensures
        product_views(r@) == last_writers(joined(product_groups(found@))),
        distinct_urls(product_views(r@)),
{
    let mut all: Vec<Product> = Vec::new();
    let mut g: usize = 0;
    assert(product_views(all@) =~= joined_upto(product_groups(found@), 0));
    while g < found.len()
        invariant
            g <= found.len(),
            product_views(all@) == joined_upto(product_groups(found@), g as int),
        decreases found.len() - g,
    {
        let group = &found[g];
        let ghost start = product_views(all@);
        let mut i: usize = 0;
        assert(product_views(all@) =~= start + product_views(group@).take(0));
        while i < group.len()
            invariant
                i <= group.len(),
                product_views(all@) == start + product_views(group@).take(i as int),
            decreases group.len() - i,
        {
            let ghost before = product_views(all@);
            let item = group[i].copy();
            all.push(item);
            assert(product_views(all@) =~= before.push(product_views(group@)[i as int]));
            i += 1;
            assert(product_views(all@) =~= start + product_views(group@).take(i as int));
        }
        assert(product_views(group@).take(group.len() as int) =~= product_views(group@));
        g += 1;
    }
    let ghost s = product_views(all@);
    let mut out: Vec<Product> = Vec::new();
    let mut k: usize = 0;
    assert(product_views(out@) =~= last_writers_upto(s, 0));
    while k < all.len()
        invariant
            k <= all.len(),
            s == product_views(all@),
            product_views(out@) == last_writers_upto(s, k as int),
        decreases all.len() - k,
    {
        let mut later = false;
        let mut j: usize = k + 1;
        while j < all.len() && !later
            invariant
                k < j <= all.len(),
                s == product_views(all@),
                later <==> exists|m: int| k < m < j && (#[trigger] s[m]).url == s[k as int].url,
            decreases all.len() - j + (if later { 0int } else { 1int }),
        {
            if same_text(all[j].url().as_str(), all[k].url().as_str()) {
                later = true;
                assert(s[j as int].url == s[k as int].url);
            }
            j += 1;
        }
        assert(later == overwritten(s, k as int));
        if !later {
            let ghost before = product_views(out@);
            let p = all[k].copy();
            out.push(p);
            assert(product_views(out@) =~= before.push(s[k as int]));
        }
        k += 1;
    }
    proof {
        lemma_last_writers_unique(s);
    }
    out
}

} // verus!
