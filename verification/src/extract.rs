//! Reading a store's pages: the texts and links that selectors pick, and
//! the addresses of the pages of a listing.

use vstd::prelude::*;
use crate::count::{count_of, count_text, digits_of, parse_count};
use crate::product::{opt_text, texts};
use crate::text::{same_text, trim, trimmed};

verus! {

/// The texts of the elements of `document` that `selector` matches, in the
/// order in which the parser holds them; none where `selector` is no
/// selector.
pub uninterp spec fn selected_texts(document: Seq<char>, selector: Seq<char>) -> Option<
    Seq<Seq<char>>,
>;

/// For each element of `document` that `selector` matches, the value of its
/// attribute `attribute`, where it has one; none where `selector` is no
/// selector.
pub uninterp spec fn selected_attributes(
    document: Seq<char>,
    selector: Seq<char>,
    attribute: Seq<char>,
) -> Option<Seq<Option<Seq<char>>>>;

/// For each element of `document` that `outer` matches, the texts of the
/// elements below it that `inner` matches; none where either is no selector.
pub uninterp spec fn nested_texts(
    document: Seq<char>,
    outer: Seq<char>,
    inner: Seq<char>,
) -> Option<Seq<Seq<Seq<char>>>>;

/// The address that `reference` names when read relative to `base`; none
/// where either cannot be parsed.
pub uninterp spec fn joined_url(base: Seq<char>, reference: Seq<char>) -> Option<Seq<char>>;

/// The names and values of the query of `url`, decoded; none where `url`
/// cannot be parsed.
pub uninterp spec fn query_pairs_of(url: Seq<char>) -> Option<Seq<(Seq<char>, Seq<char>)>>;

/// `url` with its query replaced by `pairs`, encoded; none where `url`
/// cannot be parsed.
pub uninterp spec fn url_with_query(url: Seq<char>, pairs: Seq<(Seq<char>, Seq<char>)>) -> Option<
    Seq<char>,
>;

/// `text` with its character references replaced by the characters that
/// they name.
pub uninterp spec fn decoded_entities(text: Seq<char>) -> Seq<char>;

/// The view of a list of optional texts.
pub open spec fn attribute_views(v: Seq<Option<String>>) -> Seq<Option<Seq<char>>> {
    Seq::new(v.len(), |i: int| opt_text(v[i]))
}

/// The view of a list of lists of texts.
pub open spec fn group_views(v: Seq<Vec<String>>) -> Seq<Seq<Seq<char>>> {
    Seq::new(v.len(), |i: int| texts(v[i]@))
}

/// The view of a list of pairs of texts.
pub open spec fn pair_views(v: Seq<(String, String)>) -> Seq<(Seq<char>, Seq<char>)> {
    Seq::new(v.len(), |i: int| (v[i].0@, v[i].1@))
}

/// `scraper::Selector::parse`, `scraper::Html::parse_document`,
/// `Html::select` and `ElementRef::text`: parses the document, and gives for
/// each element that the selector matches the concatenation of its text
/// nodes. The result is named [`selected_texts`]; `None` stands for a
/// selector that does not parse.
#[verifier::external_body]
fn select_texts(document: &str, selector: &str) -> (r: Option<Vec<String>>)
    ensures
        match r {
            Some(v) => selected_texts(document@, selector@) == Some(texts(v@)),
            None => selected_texts(document@, selector@) is None,
        },
{
    let selector = scraper::Selector::parse(selector).ok()?;
    let html = scraper::Html::parse_document(document);
    Some(html.select(&selector).map(|e| e.text().collect::<String>()).collect())
}

/// `scraper::Selector::parse`, `scraper::Html::parse_document`,
/// `Html::select` and `Element::attr`: parses the document, and gives for
/// each element that the selector matches the value of the named attribute.
/// The result is named [`selected_attributes`]; `None` stands for a selector
/// that does not parse.
#[verifier::external_body]
fn select_attributes(document: &str, selector: &str, attribute: &str) -> (r: Option<
    Vec<Option<String>>,
>)
    ensures
        match r {
            Some(v) => selected_attributes(document@, selector@, attribute@) == Some(
                attribute_views(v@),
            ),
            None => selected_attributes(document@, selector@, attribute@) is None,
        },
{
    let selector = scraper::Selector::parse(selector).ok()?;
    let html = scraper::Html::parse_document(document);
    Some(html.select(&selector).map(|e| e.value().attr(attribute).map(String::from)).collect())
}

/// `scraper::Selector::parse`, `scraper::Html::parse_document`,
/// `Html::select`, `ElementRef::select` and `ElementRef::text`: parses the
/// document, and gives for each element that `outer` matches the texts of
/// its descendants that `inner` matches. The result is named
/// [`nested_texts`]; `None` stands for a selector that does not parse.
#[verifier::external_body]
fn select_nested_texts(document: &str, outer: &str, inner: &str) -> (r: Option<Vec<Vec<String>>>)
    ensures
        match r {
            Some(v) => nested_texts(document@, outer@, inner@) == Some(group_views(v@)),
            None => nested_texts(document@, outer@, inner@) is None,
        },
{
    let outer = scraper::Selector::parse(outer).ok()?;
    let inner = scraper::Selector::parse(inner).ok()?;
    let html = scraper::Html::parse_document(document);
    let texts_below = |e: scraper::ElementRef| -> Vec<String> {
        e.select(&inner).map(|f| f.text().collect::<String>()).collect()
    };
    Some(html.select(&outer).map(texts_below).collect())
}

/// `url::Url::parse` and `Url::join`: the address that `reference` names
/// relative to `base`, written out as `Url` displays it. The result is
/// named [`joined_url`]; `None` stands for a parse error of either call.
#[verifier::external_body]
fn join_url(base: &str, reference: &str) -> (r: Option<String>)
    ensures
        opt_text(r) == joined_url(base@, reference@),
{
    let base = url::Url::parse(base).ok()?;
    base.join(reference).ok().map(|u| u.to_string())
}

/// `url::Url::parse` and `Url::query_pairs`: the names and values of the
/// query, decoded, in their order. The result is named [`query_pairs_of`];
/// `None` stands for a parse error.
#[verifier::external_body]
fn query_pairs(url: &str) -> (r: Option<Vec<(String, String)>>)
    ensures
        match r {
            Some(v) => query_pairs_of(url@) == Some(pair_views(v@)),
            None => query_pairs_of(url@) is None,
        },
{
    let url = url::Url::parse(url).ok()?;
    Some(url.query_pairs().map(|(k, v)| (k.into_owned(), v.into_owned())).collect())
}

/// `url::Url::parse`, `Url::set_query(None)` and
/// `Url::query_pairs_mut().extend_pairs(..)`: the address with its query
/// replaced by the given pairs, written out as `Url` displays it. The
/// result is named [`url_with_query`]; `None` stands for a parse error.
#[verifier::external_body]
fn with_query(url: &str, pairs: &Vec<(String, String)>) -> (r: Option<String>)
    ensures
        opt_text(r) == url_with_query(url@, pair_views(pairs@)),
{
    let mut url = url::Url::parse(url).ok()?;
    url.set_query(None);
    url.query_pairs_mut().extend_pairs(pairs.iter());
    Some(url.to_string())
}

/// `html_escape::decode_html_entities`: the text with its character
/// references decoded. The result is named [`decoded_entities`].
#[verifier::external_body]
pub(crate) fn decode_entities(text: &str) -> (r: String)
    ensures
        r@ == decoded_entities(text@),
{
    html_escape::decode_html_entities(text).into_owned()
}

/// The trimmed text of the first element that `selector` matches; empty
/// where it matches none.
pub open spec fn first_text_of(document: Seq<char>, selector: Seq<char>) -> Seq<char> {
    match selected_texts(document, selector) {
        Some(found) => if found.len() > 0 {
            trimmed(found[0])
        } else {
            Seq::empty()
        },
        None => Seq::empty(),
    }
}

/// The attribute `attribute` of the first element that `selector` matches:
/// none where it matches no element, and none inside where that element
/// lacks the attribute.
pub open spec fn first_attribute_of(
    document: Seq<char>,
    selector: Seq<char>,
    attribute: Seq<char>,
) -> Option<Option<Seq<char>>> {
    match selected_attributes(document, selector, attribute) {
        Some(found) => if found.len() > 0 {
            Some(found[0])
        } else {
            None
        },
        None => None,
    }
}

/// What stands between the steps of a trail.
pub open spec fn trail_separator() -> Seq<char> {
    seq![' ', '/', ' ']
}

/// The first `k` of `parts`, each trimmed, with the separator between them.
pub open spec fn trail_upto(parts: Seq<Seq<char>>, k: int) -> Seq<char>
    decreases k,
{
    if k <= 0 {
        Seq::empty()
    } else if k == 1 {
        trimmed(parts[0])
    } else {
        trail_upto(parts, k - 1) + trail_separator() + trimmed(parts[k - 1])
    }
}

/// The trimmed texts of all elements that `selector` matches, with ` / `
/// between them.
pub open spec fn trail_of(document: Seq<char>, selector: Seq<char>) -> Seq<char> {
    match selected_texts(document, selector) {
        Some(found) => trail_upto(found, found.len() as int),
        None => Seq::empty(),
    }
}

/// The addresses that the first `k` references name relative to `base`;
/// an element without the attribute, or with a reference that names no
/// address, gives none.
pub open spec fn links_upto(references: Seq<Option<Seq<char>>>, base: Seq<char>, k: int) -> Seq<
    Seq<char>,
>
    decreases k,
{
    if k <= 0 {
        Seq::empty()
    } else {
        let before = links_upto(references, base, k - 1);
        match references[k - 1] {
            Some(reference) => match joined_url(base, reference) {
                Some(address) => before.push(address),
                None => before,
            },
            None => before,
        }
    }
}

/// The addresses that the `href` attributes of the elements matched by
/// `selector` name, relative to `base`.
pub open spec fn links_of(document: Seq<char>, selector: Seq<char>, base: Seq<char>) -> Seq<
    Seq<char>,
> {
    match selected_attributes(document, selector, "href"@) {
        Some(references) => links_upto(references, base, references.len() as int),
        None => Seq::empty(),
    }
}

/// The number of the last page of a listing: the count that the trimmed
/// text of the last `link` below the first `container` writes.
pub open spec fn last_page_of(document: Seq<char>, container: Seq<char>, link: Seq<char>) -> Option<
    usize,
> {
    match nested_texts(document, container, link) {
        Some(groups) => if groups.len() > 0 && groups[0].len() > 0 {
            count_of(trimmed(groups[0][groups[0].len() - 1]))
        } else {
            None
        },
        None => None,
    }
}

/// The first `k` of `pairs`, without those named `name`.
pub open spec fn pairs_without(pairs: Seq<(Seq<char>, Seq<char>)>, name: Seq<char>, k: int) -> Seq<
    (Seq<char>, Seq<char>),
>
    decreases k,
{
    if k <= 0 {
        Seq::empty()
    } else if pairs[k - 1].0 == name {
        pairs_without(pairs, name, k - 1)
    } else {
        pairs_without(pairs, name, k - 1).push(pairs[k - 1])
    }
}

/// The addresses of the pages 2 to `last` of the listing at `address`:
/// for each, the query `kept` with the page's number added under `name`. A
/// number for which no address can be written gives none.
pub open spec fn numbered_pages(
    address: Seq<char>,
    kept: Seq<(Seq<char>, Seq<char>)>,
    name: Seq<char>,
    last: int,
) -> Seq<Seq<char>>
    decreases last,
{
    if last < 2 {
        Seq::empty()
    } else {
        let before = numbered_pages(address, kept, name, last - 1);
        match url_with_query(address, kept.push((name, digits_of(last as nat)))) {
            Some(page) => before.push(page),
            None => before,
        }
    }
}

/// The addresses of the further pages of the listing at `url`: none where
/// the document shows no last page or `url` names no address relative to
/// `base`; otherwise the pages 2 to the last, each with the query of the
/// address, less its page number, and the new page number.
pub open spec fn further_pages(
    url: Seq<char>,
    document: Seq<char>,
    base: Seq<char>,
    container: Seq<char>,
    link: Seq<char>,
    name: Seq<char>,
) -> Seq<Seq<char>> {
    match (last_page_of(document, container, link), joined_url(base, url)) {
        (Some(last), Some(address)) => match query_pairs_of(address) {
            Some(pairs) => numbered_pages(
                address,
                pairs_without(pairs, name, pairs.len() as int),
                name,
                last as int,
            ),
            None => Seq::empty(),
        },
        _ => Seq::empty(),
    }
}

/// The pages of the listing at `url`: none for a page that could not be
/// fetched; otherwise `url` itself and then the further pages.
pub open spec fn page_links_of(
    url: Seq<char>,
    document: Option<Seq<char>>,
    base: Seq<char>,
    container: Seq<char>,
    link: Seq<char>,
    name: Seq<char>,
) -> Seq<Seq<char>> {
    match document {
        Some(d) => seq![url] + further_pages(url, d, base, container, link, name),
        None => Seq::empty(),
    }
}

/// The view of an optional borrowed text.
pub open spec fn opt_str(o: Option<&str>) -> Option<Seq<char>> {
    match o {
        Some(s) => Some(s@),
        None => None,
    }
}

/// The trimmed text of the first element that `selector` matches.
pub fn first_text(document: &str, selector: &str) -> (r: String)
    ensures
        r@ == first_text_of(document@, selector@),
{
    match select_texts(document, selector) {
        Some(found) => {
            if found.len() > 0 {
                trim(found[0].as_str())
            } else {
                String::new()
            }
        },
        None => String::new(),
    }
}

/// The view of an attribute that may be missing on an element that may be
/// missing.
pub open spec fn opt_opt_text(o: Option<Option<String>>) -> Option<Option<Seq<char>>> {
    match o {
        Some(inner) => Some(opt_text(inner)),
        None => None,
    }
}

/// The attribute `attribute` of the first element that `selector` matches.
pub fn first_attribute(document: &str, selector: &str, attribute: &str) -> (r: Option<
    Option<String>,
>)
    ensures
        opt_opt_text(r) == first_attribute_of(document@, selector@, attribute@),
{
    match select_attributes(document, selector, attribute) {
        Some(found) => {
            if found.len() > 0 {
                match &found[0] {
                    Some(value) => Some(Some(value.clone())),
                    None => Some(None),
                }
            } else {
                None
            }
        },
        None => None,
    }
}

/// The trimmed texts of all elements that `selector` matches, joined by
/// ` / `.
pub fn trail(document: &str, selector: &str) -> (r: String)
    ensures
        r@ == trail_of(document@, selector@),
{
    match select_texts(document, selector) {
        Some(found) => {
            let mut out = String::new();
            let mut k: usize = 0;
            while k < found.len()
                invariant
                    k <= found.len(),
                    out@ == trail_upto(texts(found@), k as int),
                decreases found.len() - k,
            {
                if k > 0 {
                    proof {
                        reveal_strlit(" / ");
                    }
                    out.append(" / ");
                    assert(" / "@ =~= trail_separator());
                }
                let part = trim(found[k].as_str());
                out.append(part.as_str());
                k += 1;
                assert(out@ =~= trail_upto(texts(found@), k as int));
            }
            out
        },
        None => String::new(),
    }
}

/// The addresses of the links that `selector` matches, relative to `base`.
pub fn links(document: &str, selector: &str, base: &str) -> (r: Vec<String>)
    ensures
        texts(r@) == links_of(document@, selector@, base@),
{
    let mut out: Vec<String> = Vec::new();
    match select_attributes(document, selector, "href") {
        Some(references) => {
            let mut k: usize = 0;
            assert(texts(out@) =~= Seq::<Seq<char>>::empty());
            while k < references.len()
                invariant
                    k <= references.len(),
                    texts(out@) == links_upto(attribute_views(references@), base@, k as int),
                decreases references.len() - k,
            {
                let ghost before = texts(out@);
                match &references[k] {
                    Some(reference) => {
                        match join_url(base, reference.as_str()) {
                            Some(address) => {
                                out.push(address);
                                assert(texts(out@) =~= before.push(address@));
                            },
                            None => {},
                        }
                    },
                    None => {},
                }
                k += 1;
            }
            out
        },
        None => {
            assert(texts(out@) =~= Seq::<Seq<char>>::empty());
            out
        },
    }
}

/// The number of the last page that the document shows.
pub fn last_page(document: &str, container: &str, link: &str) -> (r: Option<usize>)
    ensures
        r == last_page_of(document@, container@, link@),
{
    match select_nested_texts(document, container, link) {
        Some(groups) => {
            if groups.len() > 0 && groups[0].len() > 0 {
                let first = &groups[0];
                let text = trim(first[first.len() - 1].as_str());
                parse_count(text.as_str())
            } else {
                None
            }
        },
        None => None,
    }
}

/// The pages of the listing at `url`, whose document is `document`: `url`
/// itself, and the pages from 2 to the last page that the document shows.
/// An address of a page holds the query of `url` without the parameter
/// `name`, and then `name` with the page's number. With no document there
/// is no page.
pub fn page_links(
    url: &str,
    document: Option<&str>,
    base: &str,
    container: &str,
    link: &str,
    name: &str,
) -> (r: Vec<String>)
    ensures
        texts(r@) == page_links_of(url@, opt_str(document), base@, container@, link@, name@),
{
    let mut out: Vec<String> = Vec::new();
    let document = match document {
        Some(d) => d,
        None => {
            assert(texts(out@) =~= Seq::<Seq<char>>::empty());
            return out;
        },
    };
    out.push(String::from_str(url));
    assert(texts(out@) =~= seq![url@]);
    let last = match last_page(document, container, link) {
        Some(n) => n,
        None => {
            assert(texts(out@) =~= seq![url@] + Seq::<Seq<char>>::empty());
            return out;
        },
    };
    let address = match join_url(base, url) {
        Some(a) => a,
        None => {
            assert(texts(out@) =~= seq![url@] + Seq::<Seq<char>>::empty());
            return out;
        },
    };
    let pairs = match query_pairs(address.as_str()) {
        Some(p) => p,
        None => {
            assert(texts(out@) =~= seq![url@] + Seq::<Seq<char>>::empty());
            return out;
        },
    };
    let mut kept: Vec<(String, String)> = Vec::new();
    let mut k: usize = 0;
    assert(pair_views(kept@) =~= Seq::<(Seq<char>, Seq<char>)>::empty());
    while k < pairs.len()
        invariant
            k <= pairs.len(),
            pair_views(kept@) == pairs_without(pair_views(pairs@), name@, k as int),
        decreases pairs.len() - k,
    {
        let ghost before = pair_views(kept@);
        if !same_text(pairs[k].0.as_str(), name) {
            let pair = (pairs[k].0.clone(), pairs[k].1.clone());
            kept.push(pair);
            assert(pair_views(kept@) =~= before.push(pair_views(pairs@)[k as int]));
        }
        k += 1;
    }
    let ghost kept_view = pair_views(kept@);
    let kept_len = kept.len();
    if last < 2 {
        assert(texts(out@) =~= seq![url@] + numbered_pages(
            address@,
            kept_view,
            name@,
            last as int,
        ));
        return out;
    }
    let mut page: usize = 2;
    assert(texts(out@) =~= seq![url@] + numbered_pages(address@, kept_view, name@, 1));
    loop
        invariant_except_break
            2 <= page <= last,
            kept.len() == kept_len,
            pair_views(kept@) == kept_view,
            texts(out@) == seq![url@] + numbered_pages(address@, kept_view, name@, page - 1),
        ensures
            texts(out@) == seq![url@] + numbered_pages(address@, kept_view, name@, last as int),
        decreases last - page,
    {
        let ghost before = texts(out@);
        kept.push((String::from_str(name), count_text(page)));
        assert(pair_views(kept@) =~= kept_view.push((name@, digits_of(page as nat))));
        match with_query(address.as_str(), &kept) {
            Some(numbered) => {
                out.push(numbered);
                assert(texts(out@) =~= before.push(numbered@));
            },
            None => {},
        }
        kept.pop();
        assert(pair_views(kept@) =~= kept_view);
        assert(texts(out@) =~= seq![url@] + numbered_pages(
            address@,
            kept_view,
            name@,
            page as int,
        ));
        if page == last {
            break;
        }
        page += 1;
    }
    out
}

} // verus!
