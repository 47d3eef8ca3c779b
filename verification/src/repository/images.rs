//! The images of products: a product's images are kept as rows of their
//! own and are replaced as a whole.

use vstd::prelude::*;
use crate::product::texts;

verus! {

/// An image of a product.
pub struct ImageRow {
    pub product_id: i32,
    pub url: String,
}

/// The views of a list of images: for each the product and the address.
pub open spec fn image_views(v: Seq<ImageRow>) -> Seq<(i32, Seq<char>)> {
    Seq::new(v.len(), |i: int| (v[i].product_id, v[i].url@))
}

/// The addresses of the images of a product among the first `k` rows, in
/// the order of the rows.
pub open spec fn images_upto(rows: Seq<(i32, Seq<char>)>, product_id: i32, k: int) -> Seq<
    Seq<char>,
>
    decreases k,
{
    if k <= 0 {
        Seq::empty()
    } else if rows[k - 1].0 == product_id {
        images_upto(rows, product_id, k - 1).push(rows[k - 1].1)
    } else {
        images_upto(rows, product_id, k - 1)
    }
}

/// The rows that keep the images `urls` of a product.
pub open spec fn rows_for(product_id: i32, urls: Seq<Seq<char>>) -> Seq<(i32, Seq<char>)> {
    Seq::new(urls.len(), |i: int| (product_id, urls[i]))
}

/// The addresses of the images of one product among the rows listed for
/// several.
pub fn images_of(rows: &Vec<ImageRow>, product_id: i32) -> (r: Vec<String>)
    ensures
        texts(r@) == images_upto(image_views(rows@), product_id, rows@.len() as int),
{
    let mut out: Vec<String> = Vec::new();
    let mut k: usize = 0;
    assert(texts(out@) =~= Seq::<Seq<char>>::empty());
    while k < rows.len()
        invariant
            k <= rows.len(),
            texts(out@) == images_upto(image_views(rows@), product_id, k as int),
        decreases rows.len() - k,
    {
        if rows[k].product_id == product_id {
            let ghost before = texts(out@);
            let url = rows[k].url.clone();
            out.push(url);
            assert(texts(out@) =~= before.push(image_views(rows@)[k as int].1));
        }
        k += 1;
    }
    out
}

/// The rows that replace the images of a product: one for each address,
/// in order.
pub fn replace_product_images(product_id: i32, image_urls: &Vec<String>) -> (r: Vec<ImageRow>)
    ensures
        image_views(r@) == rows_for(product_id, texts(image_urls@)),
{
    let mut out: Vec<ImageRow> = Vec::new();
    let mut k: usize = 0;
    while k < image_urls.len()
        invariant
            k <= image_urls.len(),
            out.len() == k,
            forall|i: int|
                0 <= i < k ==> (#[trigger] out@[i]).product_id == product_id && out@[i].url@
                    == image_urls@[i]@,
        decreases image_urls.len() - k,
    {
        out.push(ImageRow { product_id, url: image_urls[k].clone() });
        k += 1;
    }
    assert(image_views(out@) =~= rows_for(product_id, texts(image_urls@)));
    out
}

/// What was replaced is what is listed: the images kept for a product are
/// found again as its images, in order.
pub proof fn lemma_replaced_images_are_listed(product_id: i32, urls: Seq<Seq<char>>, k: int)
    requires
        0 <= k <= urls.len(),
    ensures
        images_upto(rows_for(product_id, urls), product_id, k) == urls.take(k),
    decreases k,
{
    if k > 0 {
        lemma_replaced_images_are_listed(product_id, urls, k - 1);
        assert(urls.take(k - 1).push(urls[k - 1]) =~= urls.take(k));
    } else {
        assert(urls.take(0) =~= Seq::<Seq<char>>::empty());
    }
}

} // verus!
