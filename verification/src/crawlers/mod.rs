//! The stores that are crawled. Each store has its selectors and its way of
//! stating a product's price and amount; what is read from a page goes
//! through the same validation.

pub mod gutenberg;
pub mod rusteaco;
pub mod tea101;

use vstd::prelude::*;
use crate::extract::opt_str;
use crate::number::{number_of, zero_view, Decimal, DecimalView};
use crate::product::{
    build_product, opt_text, product_of, texts, Product, ProductView, RawProduct, Variant,
};

verus! {

/// The views of a list of products.
pub open spec fn product_views(v: Seq<Product>) -> Seq<ProductView> {
    Seq::new(v.len(), |i: int| v[i]@)
}

/// One variant of a product as mathematical values.
pub struct VariantView {
    pub sku: Seq<char>,
    pub price: Seq<char>,
    pub weight: Option<Seq<char>>,
}

impl View for Variant {
    type V = VariantView;

    open spec fn view(&self) -> VariantView {
        VariantView { sku: self.sku@, price: self.price@, weight: opt_text(self.weight) }
    }
}

/// The views of a list of variants.
pub open spec fn variant_views(v: Seq<Variant>) -> Seq<VariantView> {
    Seq::new(v.len(), |i: int| v[i]@)
}

/// What the decoding of a page's variant list gave.
pub enum Payload {
    /// The page holds no variant list.
    Absent,
    /// The page holds one, and it could not be decoded.
    Unreadable,
    /// The variants that the list holds.
    Variants(Vec<Variant>),
}

/// What the decoding of a page's variant list gave, as mathematical
/// values.
pub enum PayloadView {
    Absent,
    Unreadable,
    Variants(Seq<VariantView>),
}

impl View for Payload {
    type V = PayloadView;

    open spec fn view(&self) -> PayloadView {
        match self {
            Payload::Absent => PayloadView::Absent,
            Payload::Unreadable => PayloadView::Unreadable,
            Payload::Variants(v) => PayloadView::Variants(variant_views(v@)),
        }
    }
}

/// The number that a price or amount field writes; zero where it writes
/// none.
pub open spec fn number_or_zero(t: Seq<char>) -> DecimalView {
    match number_of(t) {
        Some(d) => d,
        None => zero_view(),
    }
}

/// The products that one raw record gives: the validated product, or none.
pub open spec fn one_or_none(raw: ProductView) -> Seq<ProductView> {
    match product_of(raw) {
        Some(p) => seq![p],
        None => Seq::empty(),
    }
}

/// Reads a price or amount field; zero where it holds no number.
pub fn read_number_or_zero(text: &str) -> (r: Decimal)
    ensures
        r@ == number_or_zero(text@),
        r@.wf(),
{
    match Decimal::parse(text) {
        Some(d) => d,
        None => Decimal::zero(),
    }
}

/// Validates one raw record and gives the product in a list, or the empty
/// list where the record is rejected.
pub fn validated(crawler_id: i32, raw: RawProduct) -> (r: Vec<Product>)
    ensures
        product_views(r@) == one_or_none(raw.fields(crawler_id)),
{
    let mut out: Vec<Product> = Vec::new();
    match build_product(crawler_id, raw) {
        Some(p) => {
            out.push(p);
            assert(product_views(out@) =~= seq![p@]);
        },
        None => {
            assert(product_views(out@) =~= Seq::<ProductView>::empty());
        },
    }
    out
}

/// A store whose pages can be read.
///
/// The documents are fetched elsewhere; a page that could not be fetched is
/// handed over as `None` and gives nothing.
pub trait WebstoreCrawler {
    /// The categories that the landing page links to.
    spec fn category_links_of(&self, document: Option<Seq<char>>) -> Seq<Seq<char>>;

    /// The pages of the listing at `url`.
    spec fn listing_pages_of(&self, url: Seq<char>, document: Option<Seq<char>>) -> Seq<
        Seq<char>,
    >;

    /// The product pages that a page of a listing links to.
    spec fn product_links_of(&self, document: Option<Seq<char>>) -> Seq<Seq<char>>;

    /// The variant list that a product page holds, as text to be decoded.
    spec fn payload_of(&self, document: Option<Seq<char>>) -> Option<Seq<char>>;

    /// The products that the page at `url` describes.
    spec fn products_of(
        &self,
        url: Seq<char>,
        document: Option<Seq<char>>,
        payload: PayloadView,
    ) -> Seq<ProductView>;

    /// The address of the store's landing page.
    spec fn landing_page(&self) -> Seq<char>;

    /// The number of requests to the store that may be under way at once.
    spec fn permits(&self) -> usize;

    /// The address of the store's landing page.
    fn landing_url(&self) -> (r: String)
        ensures
            r@ == self.landing_page(),
    ;

    /// How many requests to the store may be under way at once.
    fn concurrency(&self) -> (r: usize)
        ensures
            r == self.permits(),
    ;

    /// The addresses of the categories that the landing page links to.
    fn get_category_links(&self, document: Option<&str>) -> (r: Vec<String>)
        ensures
            texts(r@) == self.category_links_of(opt_str(document)),
    ;

    /// The pages of the listing at `url`, the first of which is `document`.
    fn get_page_links(&self, url: &str, document: Option<&str>) -> (r: Vec<String>)
        ensures
            texts(r@) == self.listing_pages_of(url@, opt_str(document)),
    ;

    /// The product pages that a page of a listing links to.
    fn get_product_links(&self, document: Option<&str>) -> (r: Vec<String>)
        ensures
            texts(r@) == self.product_links_of(opt_str(document)),
    ;

    /// The text of the variant list that a product page holds, if it holds
    /// one. It is decoded elsewhere and handed to `get_product`.
    fn get_product_payload(&self, document: Option<&str>) -> (r: Option<String>)
        ensures
            opt_text(r) == self.payload_of(opt_str(document)),
    ;

    /// The validated products that the page at `url` describes.
    fn get_product(&self, url: &str, document: Option<&str>, payload: Payload) -> (r: Vec<Product>)
        ensures
            product_views(r@) == self.products_of(url@, opt_str(document), payload@),
    ;
}

} // verus!
