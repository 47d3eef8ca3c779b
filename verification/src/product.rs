//! Products: the record that an extractor fills, and the validated record
//! that may be stored.

use vstd::prelude::*;
use crate::number::{number_of, one_view, zero_view, Decimal, DecimalView};
use crate::text::{chars_of, slice_of, text_of, trim, trimmed};

verus! {

/// The view of an optional text.
pub open spec fn opt_text(o: Option<String>) -> Option<Seq<char>> {
    match o {
        Some(s) => Some(s@),
        None => None,
    }
}

/// The view of an optional number.
pub open spec fn opt_number(o: Option<Decimal>) -> Option<DecimalView> {
    match o {
        Some(d) => Some(d@),
        None => None,
    }
}

/// The view of a list of texts.
pub open spec fn texts(v: Seq<String>) -> Seq<Seq<char>> {
    Seq::new(v.len(), |i: int| v[i]@)
}

/// What an extractor read from a product page, not yet validated.
pub struct RawProduct {
    pub sku: String,
    pub name: String,
    pub price: Decimal,
    pub category: Option<String>,
    pub units: Option<String>,
    pub amount: Option<Decimal>,
    pub description: Option<String>,
    pub url: String,
    pub images: Vec<String>,
}

/// The fields of a product as mathematical values.
pub struct ProductView {
    pub crawler_id: i32,
    pub sku: Seq<char>,
    pub name: Seq<char>,
    pub price: DecimalView,
    pub category: Option<Seq<char>>,
    pub units: Option<Seq<char>>,
    pub amount: Option<DecimalView>,
    pub description: Option<Seq<char>>,
    pub url: Seq<char>,
    pub images: Seq<Seq<char>>,
}

impl RawProduct {
    /// The fields of the record; `crawler_id` says whose crawl it is from.
    pub open spec fn fields(&self, crawler_id: i32) -> ProductView {
        ProductView {
            crawler_id,
            sku: self.sku@,
            name: self.name@,
            price: self.price@,
            category: opt_text(self.category),
            units: opt_text(self.units),
            amount: opt_number(self.amount),
            description: opt_text(self.description),
            url: self.url@,
            images: texts(self.images@),
        }
    }
}

/// Whether a text is empty, or white space only.
pub open spec fn blank(t: Seq<char>) -> bool {
    t.len() == 0 || trimmed(t).len() == 0
}

impl ProductView {
    /// What every stored product satisfies: sku, name and url are not
    /// empty, nor white space only; the price is greater than zero, and so
    /// is the amount where there is one.
    pub open spec fn valid(self) -> bool {
        &&& !blank(self.sku)
        &&& !blank(self.name)
        &&& !blank(self.url)
        &&& self.price.wf()
        &&& self.price.is_positive()
        &&& (self.amount matches Some(a) ==> a.wf() && a.is_positive())
    }
}

/// An optional text, trimmed; absent where nothing but white space is left.
pub open spec fn collapsed(t: Option<Seq<char>>) -> Option<Seq<char>> {
    match t {
        Some(s) => if trimmed(s).len() == 0 {
            None
        } else {
            Some(trimmed(s))
        },
        None => None,
    }
}

/// The record with its optional texts trimmed, and absent where they are
/// empty. Sku, name and url identify the product and stay as they were
/// read.
pub open spec fn normalized(raw: ProductView) -> ProductView {
    ProductView {
        crawler_id: raw.crawler_id,
        sku: raw.sku,
        name: raw.name,
        price: raw.price,
        category: collapsed(raw.category),
        units: collapsed(raw.units),
        amount: raw.amount,
        description: collapsed(raw.description),
        url: raw.url,
        images: raw.images,
    }
}

/// The product that a raw record gives: the normalized record where that
/// is valid, none otherwise.
pub open spec fn product_of(raw: ProductView) -> Option<ProductView> {
    if normalized(raw).valid() {
        Some(normalized(raw))
    } else {
        None
    }
}

/// A record gives no product if its price or its amount is not greater than
/// zero, or if its sku, its name or its url is empty: such a record is
/// never stored.
pub proof fn lemma_invalid_record_is_rejected(raw: ProductView)
    requires
        !raw.price.is_positive() || (raw.amount matches Some(a) && !a.is_positive())
            || raw.sku.len() == 0 || raw.name.len() == 0 || raw.url.len() == 0 || blank(raw.sku)
            || blank(raw.name) || blank(raw.url),
    ensures
        product_of(raw) is None,
{
}

/// A validated product, ready to be stored.
pub struct Product {
    crawler_id: i32,
    sku: String,
    name: String,
    price: Decimal,
    category: Option<String>,
    units: Option<String>,
    amount: Option<Decimal>,
    description: Option<String>,
    url: String,
    images: Vec<String>,
}

impl View for Product {
    type V = ProductView;

    closed spec fn view(&self) -> ProductView {
        ProductView {
            crawler_id: self.crawler_id,
            sku: self.sku@,
            name: self.name@,
            price: self.price@,
            category: opt_text(self.category),
            units: opt_text(self.units),
            amount: opt_number(self.amount),
            description: opt_text(self.description),
            url: self.url@,
            images: texts(self.images@),
        }
    }
}

/// A copy of an optional text.
pub fn copy_opt_text(t: &Option<String>) -> (r: Option<String>)
    ensures
        opt_text(r) == opt_text(*t),
{
    match t {
        Some(s) => Some(s.clone()),
        None => None,
    }
}

/// A copy of a list of texts.
pub fn copy_texts(v: &Vec<String>) -> (r: Vec<String>)
    ensures
        texts(r@) == texts(v@),
{
    let mut r: Vec<String> = Vec::new();
    let mut i: usize = 0;
    while i < v.len()
        invariant
            i <= v.len(),
            r.len() == i,
            forall|k: int| 0 <= k < i ==> r@[k]@ == v@[k]@,
        decreases v.len() - i,
    {
        r.push(v[i].clone());
        i += 1;
    }
    assert(texts(r@) =~= texts(v@));
    r
}

/// Trims an optional text and drops it where nothing is left.
fn collapse(t: Option<String>) -> (r: Option<String>)
    ensures
        opt_text(r) == collapsed(opt_text(t)),
{
    match t {
        Some(s) => {
            let trimmed_text = trim(s.as_str());
            if trimmed_text.as_str().unicode_len() == 0 {
                None
            } else {
                Some(trimmed_text)
            }
        },
        None => None,
    }
}

/// Whether a text is empty, or white space only.
pub fn is_blank(text: &str) -> (r: bool)
    ensures
        r == blank(text@),
{
    text.unicode_len() == 0 || trim(text).as_str().unicode_len() == 0
}

/// Validates and normalizes a raw record.
///
/// Optional texts are trimmed, and one that is empty after that is absent.
/// Sku, name and url stay as they were read. The record is rejected where
/// sku, name or url is empty or white space only, where the price is not
/// greater than zero, or where an amount is given that is not greater than
/// zero.
pub fn build_product(crawler_id: i32, raw: RawProduct) -> (r: Option<Product>)
    ensures
        match r {
            Some(p) => product_of(raw.fields(crawler_id)) == Some(p@) && p@.valid(),
            None => product_of(raw.fields(crawler_id)) is None,
        },
        r is Some <==> normalized(raw.fields(crawler_id)).valid(),
{
    let ghost fields = raw.fields(crawler_id);
    let RawProduct { sku, name, price, category, units, amount, description, url, images } = raw;
    if is_blank(sku.as_str()) || is_blank(name.as_str()) || is_blank(url.as_str()) {
        return None;
    }
    proof {
        use_type_invariant(&price);
    }
    if !price.is_positive() {
        return None;
    }
    match &amount {
        Some(a) => {
            proof {
                use_type_invariant(a);
            }
            if !a.is_positive() {
                return None;
            }
        },
        None => {},
    }
    let category = collapse(category);
    let units = collapse(units);
    let description = collapse(description);
    let p = Product {
        crawler_id,
        sku,
        name,
        price,
        category,
        units,
        amount,
        description,
        url,
        images,
    };
    assert(p@ == normalized(fields));
    Some(p)
}

impl Product {
    /// Every product satisfies the validators.
    #[verifier::type_invariant]
    pub open spec fn validated(&self) -> bool {
        self@.valid()
    }

    /// A copy of the product.
    pub fn copy(&self) -> (r: Product)
        ensures
            r@ == self@,
    {
        proof {
            use_type_invariant(self);
        }
        let r = Product {
            crawler_id: self.crawler_id,
            sku: self.sku.clone(),
            name: self.name.clone(),
            price: self.price.copy(),
            category: copy_opt_text(&self.category),
            units: copy_opt_text(&self.units),
            amount: match &self.amount {
                Some(a) => Some(a.copy()),
                None => None,
            },
            description: copy_opt_text(&self.description),
            url: self.url.clone(),
            images: copy_texts(&self.images),
        };
        r
    }

    /// The crawler that found the product.
    pub fn crawler_id(&self) -> (r: i32)
        ensures
            r == self@.crawler_id,
    {
        self.crawler_id
    }

    /// The product's sku; never empty.
    pub fn sku(&self) -> (r: &String)
        ensures
            r@ == self@.sku,
            r@.len() > 0,
    {
        proof {
            use_type_invariant(self);
        }
        &self.sku
    }

    /// The product's name; never empty.
    pub fn name(&self) -> (r: &String)
        ensures
            r@ == self@.name,
            r@.len() > 0,
    {
        proof {
            use_type_invariant(self);
        }
        &self.name
    }

    /// The product's price; greater than zero.
    pub fn price(&self) -> (r: &Decimal)
        ensures
            r@ == self@.price,
            r@.is_positive(),
    {
        proof {
            use_type_invariant(self);
        }
        &self.price
    }

    /// The product's category, where it has one.
    pub fn category(&self) -> (r: &Option<String>)
        ensures
            opt_text(*r) == self@.category,
    {
        &self.category
    }

    /// The units in which the amount is given, where they are known.
    pub fn units(&self) -> (r: &Option<String>)
        ensures
            opt_text(*r) == self@.units,
    {
        &self.units
    }

    /// The product's amount; greater than zero where it is given.
    pub fn amount(&self) -> (r: &Option<Decimal>)
        ensures
            opt_number(*r) == self@.amount,
            r matches Some(a) ==> a@.is_positive(),
    {
        proof {
            use_type_invariant(self);
        }
        &self.amount
    }

    /// The product's description, where it has one.
    pub fn description(&self) -> (r: &Option<String>)
        ensures
            opt_text(*r) == self@.description,
    {
        &self.description
    }

    /// The address of the product's page; never empty. Together with the
    /// crawler it is the product's natural key.
    pub fn url(&self) -> (r: &String)
        ensures
            r@ == self@.url,
            r@.len() > 0,
    {
        proof {
            use_type_invariant(self);
        }
        &self.url
    }

    /// The addresses of the product's images.
    pub fn images(&self) -> (r: &Vec<String>)
        ensures
            texts(r@) == self@.images,
    {
        &self.images
    }
}

/// One variant of a product, as a store's page lists it.
pub struct Variant {
    pub sku: String,
    pub price: String,
    pub weight: Option<String>,
}

/// The first index at or after `i` that holds `#`; the length of `s` if
/// there is none.
pub open spec fn find_fragment(s: Seq<char>, i: int) -> int
    decreases s.len() - i,
{
    if 0 <= i < s.len() && s[i] != '#' {
        find_fragment(s, i + 1)
    } else {
        i
    }
}

/// `url` without its fragment, that is without its first `#` and what
/// follows it.
pub open spec fn page_of(url: Seq<char>) -> Seq<char> {
    let k = find_fragment(url, 0);
    if 0 <= k <= url.len() {
        url.subrange(0, k)
    } else {
        url
    }
}

/// The address under which the variant `sku` of the page at `url` is kept:
/// the page's address, `#`, and the sku.
pub open spec fn variant_url(url: Seq<char>, sku: Seq<char>) -> Seq<char> {
    page_of(url) + seq!['#'] + sku
}

/// `find_fragment` stays within the text, and passes over no `#`.
pub proof fn lemma_find_fragment(s: Seq<char>, i: int)
    requires
        0 <= i <= s.len(),
    ensures
        i <= find_fragment(s, i) <= s.len(),
        forall|k: int| i <= k < find_fragment(s, i) ==> #[trigger] s[k] != '#',
    decreases s.len() - i,
{
    if i < s.len() && s[i] != '#' {
        lemma_find_fragment(s, i + 1);
    }
}

/// The variants of one page are kept under addresses that differ wherever
/// their skus differ.
pub proof fn lemma_variant_urls_distinct(url: Seq<char>, sku1: Seq<char>, sku2: Seq<char>)
    requires
        sku1 != sku2,
    ensures
        variant_url(url, sku1) != variant_url(url, sku2),
{
    let head = page_of(url) + seq!['#'];
    let u1 = variant_url(url, sku1);
    let u2 = variant_url(url, sku2);
    if u1 == u2 {
        assert(u1.subrange(head.len() as int, u1.len() as int) =~= sku1);
        assert(u2.subrange(head.len() as int, u2.len() as int) =~= sku2);
    }
}

/// Where the page's address has no fragment, a variant is kept under that
/// address, `#`, and the sku.
pub proof fn lemma_variant_url_of_plain_address(url: Seq<char>, sku: Seq<char>)
    requires
        forall|i: int| 0 <= i < url.len() ==> #[trigger] url[i] != '#',
    ensures
        variant_url(url, sku) == url + seq!['#'] + sku,
{
    lemma_find_fragment(url, 0);
    let k = find_fragment(url, 0);
    if k < url.len() {
        lemma_find_fragment_stops(url, 0, k);
    }
    assert(page_of(url) =~= url);
}

/// Reading a variant's address again gives the same page: the address of a
/// variant of that address is the address of the variant of the page.
pub proof fn lemma_variant_url_stable(url: Seq<char>, sku1: Seq<char>, sku2: Seq<char>)
    ensures
        variant_url(variant_url(url, sku1), sku2) == variant_url(url, sku2),
{
    lemma_find_fragment(url, 0);
    let page = page_of(url);
    let v = variant_url(url, sku1);
    lemma_find_fragment(v, 0);
    lemma_find_fragment(page, 0);
    let k = find_fragment(v, 0);
    assert(v[page.len() as int] == '#');
    assert forall|j: int| 0 <= j < page.len() implies v[j] != '#' by {
        assert(v[j] == url[j]);
    }
    if k < page.len() {
        lemma_find_fragment_stops(v, 0, k);
    }
    if k > page.len() {
        assert(v[page.len() as int] != '#');
    }
    assert(page_of(v) =~= page);
}

/// Where `find_fragment` stops before the end, it stops at a `#`.
proof fn lemma_find_fragment_stops(s: Seq<char>, i: int, k: int)
    requires
        0 <= i <= k < s.len(),
        k == find_fragment(s, i),
    ensures
        s[k] == '#',
    decreases s.len() - i,
{
    if s[i] != '#' {
        lemma_find_fragment(s, i + 1);
        lemma_find_fragment_stops(s, i + 1, k);
    }
}

/// The address of the variant `sku` of the page at `url`.
pub fn make_variant_url(url: &str, sku: &str) -> (r: String)
    ensures
        r@ == variant_url(url@, sku@),
{
    let u = chars_of(url);
    let s = chars_of(sku);
    let mut k: usize = 0;
    while k < u.len() && u[k] != '#'
        invariant
            k <= u.len(),
            find_fragment(u@, k as int) == find_fragment(u@, 0),
        decreases u.len() - k,
    {
        k += 1;
    }
    let mut out = slice_of(&u, 0, k);
    out.push('#');
    let ghost head = out@;
    let mut i: usize = 0;
    while i < s.len()
        invariant
            i <= s.len(),
            out@ == head + s@.take(i as int),
        decreases s.len() - i,
    {
        out.push(s[i]);
        i += 1;
        assert(out@ =~= head + s@.take(i as int));
    }
    assert(s@.take(s.len() as int) =~= s@);
    assert(out@ =~= variant_url(url@, sku@));
    text_of(&out)
}

/// The units of a variant that states its weight: kilograms.
pub open spec fn weight_units() -> Seq<char> {
    seq!['к', 'г']
}

/// The units of a variant that states no weight: pieces.
pub open spec fn piece_units() -> Seq<char> {
    seq!['ш', 'т']
}

/// The record that a variant of a page gives. A weight that reads as a
/// number is the amount, in kilograms; otherwise the amount is one piece.
/// A price that does not read as a number is zero. The record is kept under
/// the variant's own address.
pub open spec fn variant_fields(
    crawler_id: i32,
    sku: Seq<char>,
    price: Seq<char>,
    weight: Option<Seq<char>>,
    name: Seq<char>,
    category: Seq<char>,
    description: Seq<char>,
    url: Seq<char>,
) -> ProductView {
    let weighed = weight matches Some(w) && number_of(w) is Some;
    ProductView {
        crawler_id,
        sku,
        name,
        price: match number_of(price) {
            Some(p) => p,
            None => zero_view(),
        },
        category: Some(category),
        units: Some(if weighed { weight_units() } else { piece_units() }),
        amount: Some(
            if weighed {
                number_of(weight->0)->0
            } else {
                one_view()
            },
        ),
        description: Some(description),
        url: variant_url(url, sku),
        images: Seq::empty(),
    }
}

/// Turns a variant of the page at `url` into a raw record.
pub fn variant_to_product(
    v: Variant,
    name: &str,
    category: &str,
    description: &str,
    url: &str,
    crawler_id: i32,
) -> (r: RawProduct)
    ensures
        r.fields(crawler_id) == variant_fields(
            crawler_id,
            v.sku@,
            v.price@,
            opt_text(v.weight),
            name@,
            category@,
            description@,
            url@,
        ),
{
    let Variant { sku, price, weight } = v;
    let weight_number = match &weight {
        Some(w) => Decimal::parse(w.as_str()),
        None => None,
    };
    let (units, amount) = match weight_number {
        Some(w) => {
            let mut u: Vec<char> = Vec::new();
            u.push('к');
            u.push('г');
            assert(u@ =~= weight_units());
            (text_of(&u), w)
        },
        None => {
            let mut u: Vec<char> = Vec::new();
            u.push('ш');
            u.push('т');
            assert(u@ =~= piece_units());
            (text_of(&u), Decimal::one())
        },
    };
    let price = match Decimal::parse(price.as_str()) {
        Some(p) => p,
        None => Decimal::zero(),
    };
    let variant_address = make_variant_url(url, sku.as_str());
    let r = RawProduct {
        sku,
        name: String::from_str(name),
        price,
        category: Some(String::from_str(category)),
        units: Some(units),
        amount: Some(amount),
        description: Some(String::from_str(description)),
        url: variant_address,
        images: Vec::new(),
    };
    assert(r.fields(crawler_id).images =~= Seq::<Seq<char>>::empty());
    r
}

} // verus!
