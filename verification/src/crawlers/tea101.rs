//! The store `101tea.ru`.

use vstd::prelude::*;
use crate::crawlers::{
    number_or_zero, one_or_none, product_views, read_number_or_zero, validated, Payload,
    PayloadView, WebstoreCrawler,
};
use crate::extract::{
    first_text, first_text_of, links, links_of, page_links, page_links_of, trail,
    trail_of,
};
use crate::product::{texts, Product, ProductView, RawProduct};

verus! {

/// The crawler of `101tea.ru`.
pub struct WebstoreCrawler101Tea {
    crawler_id: i32,
    concurrency: usize,
}

impl WebstoreCrawler101Tea {
    /// A crawler that lets `concurrency` requests be under way at once and
    /// marks each product with `crawler_id`.
    pub fn new(concurrency: usize, crawler_id: i32) -> (r: Self)
        ensures
            r.id() == crawler_id,
            r.permits() == concurrency,
            r.landing_page() == "https://101tea.ru/"@,
    {
        WebstoreCrawler101Tea { crawler_id, concurrency }
    }

    /// The crawler's identity.
    pub closed spec fn id(&self) -> i32 {
        self.crawler_id
    }

    /// What a product page says, before validation.
    pub open spec fn raw_fields(&self, url: Seq<char>, d: Seq<char>) -> ProductView {
        ProductView {
            crawler_id: self.id(),
            sku: first_text_of(d, "div.product_art span:nth-child(2)"@),
            name: first_text_of(d, "h1"@),
            price: number_or_zero(first_text_of(d, "span.js-price-val"@)),
            category: Some(trail_of(d, "a.breadcrumbs__list-link"@)),
            units: Some(first_text_of(d, "span.product-card__calculus-unit"@)),
            amount: Some(number_or_zero(first_text_of(d, "span.js-product-calc-value"@))),
            description: Some(
                first_text_of(d, "div.catalog-table_content-item_about_product"@),
            ),
            url,
            images: Seq::empty(),
        }
    }
}

impl WebstoreCrawler for WebstoreCrawler101Tea {
    open spec fn landing_page(&self) -> Seq<char> {
        "https://101tea.ru/"@
    }

    closed spec fn permits(&self) -> usize {
        self.concurrency
    }

    open spec fn category_links_of(&self, document: Option<Seq<char>>) -> Seq<Seq<char>> {
        match document {
            Some(d) => links_of(d, "a.catalog-nav__link"@, "https://101tea.ru/"@),
            None => Seq::empty(),
        }
    }

    open spec fn listing_pages_of(&self, url: Seq<char>, document: Option<Seq<char>>) -> Seq<
        Seq<char>,
    > {
        page_links_of(
            url,
            document,
            "https://101tea.ru/"@,
            "div.pagination"@,
            "a.pagination-links"@,
            "PAGEN_1"@,
        )
    }

    open spec fn product_links_of(&self, document: Option<Seq<char>>) -> Seq<Seq<char>> {
        match document {
            Some(d) => links_of(d, "div.product-card__info-bottom > a"@, "https://101tea.ru/"@),
            None => Seq::empty(),
        }
    }

    open spec fn payload_of(&self, document: Option<Seq<char>>) -> Option<Seq<char>> {
        None
    }

    open spec fn products_of(
        &self,
        url: Seq<char>,
        document: Option<Seq<char>>,
        payload: PayloadView,
    ) -> Seq<ProductView> {
        match document {
            Some(d) => one_or_none(self.raw_fields(url, d)),
            None => Seq::empty(),
        }
    }

    fn landing_url(&self) -> (r: String) {
        String::from_str("https://101tea.ru/")
    }

    fn concurrency(&self) -> (r: usize) {
        self.concurrency
    }

    /// The categories that the landing page links to.
    fn get_category_links(&self, document: Option<&str>) -> (r: Vec<String>) {
        match document {
            Some(d) => links(d, "a.catalog-nav__link", "https://101tea.ru/"),
            None => {
                let r: Vec<String> = Vec::new();
                assert(texts(r@) =~= Seq::<Seq<char>>::empty());
                r
            },
        }
    }

    /// The pages of the listing at `url`: `url` itself and the pages up to
    /// the last that the document shows, numbered by the parameter
    /// `PAGEN_1`.
    fn get_page_links(&self, url: &str, document: Option<&str>) -> (r: Vec<String>) {
        page_links(
            url,
            document,
            "https://101tea.ru/",
            "div.pagination",
            "a.pagination-links",
            "PAGEN_1",
        )
    }

    /// The product pages that a page of a listing links to.
    fn get_product_links(&self, document: Option<&str>) -> (r: Vec<String>) {
        match document {
            Some(d) => links(d, "div.product-card__info-bottom > a", "https://101tea.ru/"),
            None => {
                let r: Vec<String> = Vec::new();
                assert(texts(r@) =~= Seq::<Seq<char>>::empty());
                r
            },
        }
    }

    /// This store's pages hold no variant list.
    fn get_product_payload(&self, document: Option<&str>) -> (r: Option<String>) {
        None
    }

    /// The product that the page at `url` describes, where it passes
    /// validation. Price, units and amount each have an element of their
    /// own; a price or an amount that is missing or is no number counts as
    /// zero, which validation rejects.
    fn get_product(&self, url: &str, document: Option<&str>, payload: Payload) -> (r: Vec<
        Product,
    >) {
        let d = match document {
            Some(d) => d,
            None => {
                let r: Vec<Product> = Vec::new();
                assert(product_views(r@) =~= Seq::<ProductView>::empty());
                return r;
            },
        };
        let name = first_text(d, "h1");
        let description = first_text(d, "div.catalog-table_content-item_about_product");
        let category = trail(d, "a.breadcrumbs__list-link");
        let price = first_text(d, "span.js-price-val");
        let sku = first_text(d, "div.product_art span:nth-child(2)");
        let units = first_text(d, "span.product-card__calculus-unit");
        let amount = first_text(d, "span.js-product-calc-value");
        let raw = RawProduct {
            sku,
            name,
            price: read_number_or_zero(price.as_str()),
            category: Some(category),
            units: Some(units),
            amount: Some(read_number_or_zero(amount.as_str())),
            description: Some(description),
            url: String::from_str(url),
            images: Vec::new(),
        };
        assert(raw.fields(self.crawler_id).images =~= Seq::<Seq<char>>::empty());
        assert(raw.fields(self.crawler_id) == self.raw_fields(url@, d@));
        validated(self.crawler_id, raw)
    }
}

} // verus!
