//! The store `shop.rusteaco.ru`, whose product pages list their variants in
//! an attribute of the product form.

use vstd::prelude::*;
use crate::crawlers::{
    one_or_none, product_views, validated, variant_views, Payload, PayloadView, VariantView,
    WebstoreCrawler,
};
use crate::extract::{
    decode_entities, decoded_entities, first_attribute, first_attribute_of, first_text,
    first_text_of, links, links_of, page_links, page_links_of, trail, trail_of,
};
use crate::number::{one_view, zero_view, Decimal};
use crate::pipeline::distinct_urls;
use crate::product::{
    build_product, lemma_variant_urls_distinct, piece_units, product_of, texts, variant_fields,
    variant_to_product, variant_url, Product, ProductView, RawProduct, Variant,
};
use crate::text::text_of;

verus! {

/// The crawler of `shop.rusteaco.ru`.
pub struct WebstoreCrawlerRusteaco {
    crawler_id: i32,
    concurrency: usize,
}

/// The products that the first `k` variants of a page give: each variant's
/// record where it passes validation, in the order of the variants.
pub open spec fn variant_products_upto(
    crawler_id: i32,
    variants: Seq<VariantView>,
    name: Seq<char>,
    category: Seq<char>,
    description: Seq<char>,
    url: Seq<char>,
    k: int,
) -> Seq<ProductView>
    decreases k,
{
    if k <= 0 {
        Seq::empty()
    } else {
        let before = variant_products_upto(
            crawler_id,
            variants,
            name,
            category,
            description,
            url,
            k - 1,
        );
        let v = variants[k - 1];
        match product_of(
            variant_fields(crawler_id, v.sku, v.price, v.weight, name, category, description, url),
        ) {
            Some(p) => before.push(p),
            None => before,
        }
    }
}

/// The record of one variant of a page.
pub open spec fn variant_record(
    crawler_id: i32,
    v: VariantView,
    name: Seq<char>,
    category: Seq<char>,
    description: Seq<char>,
    url: Seq<char>,
) -> Option<ProductView> {
    product_of(
        variant_fields(crawler_id, v.sku, v.price, v.weight, name, category, description, url),
    )
}

/// Where each of the first `k` variants of a page passes validation, the
/// page gives one product for each of them, in order: the product has the
/// variant's sku and is kept under the variant's address, the page's
/// address, `#` and the sku. Where the skus differ, so do the addresses.
pub proof fn lemma_one_product_for_each_variant(
    crawler_id: i32,
    variants: Seq<VariantView>,
    name: Seq<char>,
    category: Seq<char>,
    description: Seq<char>,
    url: Seq<char>,
    k: int,
)
    requires
        0 <= k <= variants.len(),
        forall|i: int|
            0 <= i < k ==> variant_record(
                crawler_id,
                #[trigger] variants[i],
                name,
                category,
                description,
                url,
            ) is Some,
    ensures
        ({
            let found = variant_products_upto(
                crawler_id,
                variants,
                name,
                category,
                description,
                url,
                k,
            );
            &&& found.len() == k
            &&& forall|i: int|
                0 <= i < k ==> (#[trigger] found[i]).sku == variants[i].sku && found[i].url
                    == variant_url(url, variants[i].sku) && found[i].crawler_id == crawler_id
            &&& (forall|i: int, j: int|
                0 <= i < j < k ==> (#[trigger] variants[i]).sku != (#[trigger] variants[j]).sku)
                ==> distinct_urls(found)
        }),
    decreases k,
{
    if k > 0 {
        lemma_one_product_for_each_variant(
            crawler_id,
            variants,
            name,
            category,
            description,
            url,
            k - 1,
        );
        let before = variant_products_upto(
            crawler_id,
            variants,
            name,
            category,
            description,
            url,
            k - 1,
        );
        let found = variant_products_upto(
            crawler_id,
            variants,
            name,
            category,
            description,
            url,
            k,
        );
        let v = variants[k - 1];
        assert(variant_record(crawler_id, v, name, category, description, url) is Some);
        assert(found == before.push(
            variant_record(crawler_id, v, name, category, description, url)->0,
        ));
        if forall|i: int, j: int|
            0 <= i < j < k ==> (#[trigger] variants[i]).sku != (#[trigger] variants[j]).sku {
            assert forall|a: int, b: int| 0 <= a < b < found.len() implies (#[trigger] found[a]).url
                != (#[trigger] found[b]).url by {
                assert(variants[a].sku != variants[b].sku);
                lemma_variant_urls_distinct(url, variants[a].sku, variants[b].sku);
            }
        }
    }
}

impl WebstoreCrawlerRusteaco {
    /// A crawler that lets `concurrency` requests be under way at once and
    /// marks each product with `crawler_id`.
    pub fn new(concurrency: usize, crawler_id: i32) -> (r: Self)
        ensures
            r.id() == crawler_id,
            r.permits() == concurrency,
            r.landing_page() == "https://shop.rusteaco.ru/"@,
    {
        WebstoreCrawlerRusteaco { crawler_id, concurrency }
    }

    /// The crawler's identity.
    pub closed spec fn id(&self) -> i32 {
        self.crawler_id
    }

    /// What a product page without a variant list says, before validation:
    /// one piece, at no price.
    pub open spec fn plain_fields(&self, url: Seq<char>, d: Seq<char>) -> ProductView {
        ProductView {
            crawler_id: self.id(),
            sku: first_text_of(d, "span.sku-value"@),
            name: first_text_of(d, "h1.product__title"@),
            price: zero_view(),
            category: Some(trail_of(d, "ul.breadcrumb li a"@)),
            units: Some(piece_units()),
            amount: Some(one_view()),
            description: Some(first_text_of(d, "div.product__short-description"@)),
            url,
            images: Seq::empty(),
        }
    }
}

impl WebstoreCrawler for WebstoreCrawlerRusteaco {
    open spec fn landing_page(&self) -> Seq<char> {
        "https://shop.rusteaco.ru/"@
    }

    closed spec fn permits(&self) -> usize {
        self.concurrency
    }

    open spec fn category_links_of(&self, document: Option<Seq<char>>) -> Seq<Seq<char>> {
        match document {
            Some(d) => links_of(d, "a.header__collections-link"@, "https://shop.rusteaco.ru/"@),
            None => Seq::empty(),
        }
    }

    open spec fn listing_pages_of(&self, url: Seq<char>, document: Option<Seq<char>>) -> Seq<
        Seq<char>,
    > {
        page_links_of(
            url,
            document,
            "https://shop.rusteaco.ru/"@,
            "div.pagination-items"@,
            "a.pagination-link"@,
            "page"@,
        )
    }

    open spec fn product_links_of(&self, document: Option<Seq<char>>) -> Seq<Seq<char>> {
        match document {
            Some(d) => links_of(
                d,
                "div.product-preview__title > a"@,
                "https://shop.rusteaco.ru/"@,
            ),
            None => Seq::empty(),
        }
    }

    /// The variant list of the page: the attribute `data-product-json` of
    /// the product form, with its character references decoded.
    open spec fn payload_of(&self, document: Option<Seq<char>>) -> Option<Seq<char>> {
        match document {
            Some(d) => match first_attribute_of(d, "form.product"@, "data-product-json"@) {
                Some(Some(list)) => Some(decoded_entities(list)),
                _ => None,
            },
            None => None,
        }
    }

    /// A page without a product form gives nothing. A page whose form
    /// holds a variant list gives the products of the decoded variants, and
    /// nothing where the list was not decoded. A page whose form holds no
    /// list gives the page's own record.
    open spec fn products_of(
        &self,
        url: Seq<char>,
        document: Option<Seq<char>>,
        payload: PayloadView,
    ) -> Seq<ProductView> {
        match document {
            Some(d) => match first_attribute_of(d, "form.product"@, "data-product-json"@) {
                Some(Some(list)) => match payload {
                    PayloadView::Variants(variants) => variant_products_upto(
                        self.id(),
                        variants,
                        first_text_of(d, "h1.product__title"@),
                        trail_of(d, "ul.breadcrumb li a"@),
                        first_text_of(d, "div.product__short-description"@),
                        url,
                        variants.len() as int,
                    ),
                    _ => Seq::empty(),
                },
                Some(None) => one_or_none(self.plain_fields(url, d)),
                None => Seq::empty(),
            },
            None => Seq::empty(),
        }
    }

    fn landing_url(&self) -> (r: String) {
        String::from_str("https://shop.rusteaco.ru/")
    }

    fn concurrency(&self) -> (r: usize) {
        self.concurrency
    }

    /// The categories that the landing page links to.
    fn get_category_links(&self, document: Option<&str>) -> (r: Vec<String>) {
        match document {
            Some(d) => links(d, "a.header__collections-link", "https://shop.rusteaco.ru/"),
            None => {
                let r: Vec<String> = Vec::new();
                assert(texts(r@) =~= Seq::<Seq<char>>::empty());
                r
            },
        }
    }

    /// The pages of the listing at `url`: `url` itself and the pages up to
    /// the last that the document shows, numbered by the parameter `page`.
    fn get_page_links(&self, url: &str, document: Option<&str>) -> (r: Vec<String>) {
        page_links(
            url,
            document,
            "https://shop.rusteaco.ru/",
            "div.pagination-items",
            "a.pagination-link",
            "page",
        )
    }

    /// The product pages that a page of a listing links to.
    fn get_product_links(&self, document: Option<&str>) -> (r: Vec<String>) {
        match document {
            Some(d) => links(d, "div.product-preview__title > a", "https://shop.rusteaco.ru/"),
            None => {
                let r: Vec<String> = Vec::new();
                assert(texts(r@) =~= Seq::<Seq<char>>::empty());
                r
            },
        }
    }

    /// The text of the page's variant list, ready to be decoded.
    fn get_product_payload(&self, document: Option<&str>) -> (r: Option<String>) {
        match document {
            Some(d) => match first_attribute(d, "form.product", "data-product-json") {
                Some(Some(list)) => Some(decode_entities(list.as_str())),
                _ => None,
            },
            None => None,
        }
    }

    /// The products that the page at `url` describes: one for each variant
    /// that passes validation, each under the variant's own address.
    fn get_product(&self, url: &str, document: Option<&str>, payload: Payload) -> (r: Vec<
        Product,
    >) {
        let mut out: Vec<Product> = Vec::new();
        assert(product_views(out@) =~= Seq::<ProductView>::empty());
        let d = match document {
            Some(d) => d,
            None => {
                return out;
            },
        };
        let name = first_text(d, "h1.product__title");
        let description = first_text(d, "div.product__short-description");
        let category = trail(d, "ul.breadcrumb li a");
        match first_attribute(d, "form.product", "data-product-json") {
            None => out,
            Some(Some(_)) => {
                match payload {
                    Payload::Variants(variants) => {
                        let mut k: usize = 0;
                        while k < variants.len()
                            invariant
                                k <= variants.len(),
                                product_views(out@) == variant_products_upto(
                                    self.crawler_id,
                                    variant_views(variants@),
                                    name@,
                                    category@,
                                    description@,
                                    url@,
                                    k as int,
                                ),
                            decreases variants.len() - k,
                        {
                            let ghost before = product_views(out@);
                            let v = &variants[k];
                            let copy = Variant {
                                sku: v.sku.clone(),
                                price: v.price.clone(),
                                weight: match &v.weight {
                                    Some(w) => Some(w.clone()),
                                    None => None,
                                },
                            };
                            let raw = variant_to_product(
                                copy,
                                name.as_str(),
                                category.as_str(),
                                description.as_str(),
                                url,
                                self.crawler_id,
                            );
                            match build_product(self.crawler_id, raw) {
                                Some(p) => {
                                    out.push(p);
                                    assert(product_views(out@) =~= before.push(p@));
                                },
                                None => {},
                            }
                            k += 1;
                        }
                        out
                    },
                    _ => out,
                }
            },
            Some(None) => {
                let sku = first_text(d, "span.sku-value");
                let mut units: Vec<char> = Vec::new();
                units.push('ш');
                units.push('т');
                assert(units@ =~= piece_units());
                let raw = RawProduct {
                    sku,
                    name,
                    price: Decimal::zero(),
                    category: Some(category),
                    units: Some(text_of(&units)),
                    amount: Some(Decimal::one()),
                    description: Some(description),
                    url: String::from_str(url),
                    images: Vec::new(),
                };
                assert(raw.fields(self.crawler_id).images =~= Seq::<Seq<char>>::empty());
                assert(raw.fields(self.crawler_id) == self.plain_fields(url@, d@));
                validated(self.crawler_id, raw)
            },
        }
    }
}

} // verus!
