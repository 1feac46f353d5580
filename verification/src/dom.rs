//! The trusted boundary around the `scraper` crate, and the page-level entry
//! points that read a parsed HTML document.
//!
//! Each wrapper selects one fixed region of the site template and hands back
//! plain values: text nodes and attribute values, with every absence kept as
//! an `Option`. Nothing is decided here — every rule that turns these values
//! into records is a verified function of the neighbouring modules, and the
//! exact contracts live there (`extract_listings`, `extract_detail`,
//! `page_count`).
use vstd::prelude::*;

use crate::detail::{extract_detail, spec_extract_detail};
use crate::listing::{extract_listings, spec_extract_listings, spec_shop_id, Anchor};
use crate::pagination;
use crate::records::{ExtractError, PartData, PartDataView, PartWithDetails};
use crate::text::{is_decimal_token, lemma_digits_value_nonneg, spec_all_digits};

verus! {

#[verifier::external_type_specification]
#[verifier::external_body]
pub struct ExHtml(scraper::Html);

/// What the pagination selection reads from a document: nothing when the
/// document has no `.pagination` region, else one entry per `li` of the first
/// such region, each holding the text nodes of the element's first `a`. A
/// function of the document value alone.
pub uninterp spec fn pagination_links_of(html: scraper::Html) -> Option<Vec<Option<Vec<String>>>>;

/// Relies on scraper's CSS selection: the first `.pagination` region, its
/// `li` elements, and each one's first `a` anchor with its text nodes.
/// Selection walks the document tree, so the result depends on the document
/// value alone.
#[verifier::external_body]
fn pagination_region(html: &scraper::Html) -> (r: Option<Vec<Option<Vec<String>>>>)
    ensures
        r == pagination_links_of(*html),
{
    let region_sel = scraper::Selector::parse(".pagination").unwrap();
    let li_sel = scraper::Selector::parse("li").unwrap();
    let a_sel = scraper::Selector::parse("a").unwrap();
    html.select(&region_sel).next().map(|region| {
        region
            .select(&li_sel)
            .map(|li| {
                li.select(&a_sel).next().map(|a| a.text().map(String::from).collect())
            })
            .collect()
    })
}

/// What the price-cell selection reads from a document: one entry per price
/// cell of the listing container, each holding the text nodes of the cell's
/// first paragraph. A function of the document value alone.
pub uninterp spec fn price_cells_of(html: scraper::Html) -> Vec<Option<Vec<String>>>;

/// Relies on scraper's CSS selection: the price cells of the listing
/// container, each with the text nodes of its first paragraph. Selection
/// walks the document tree, so the result depends on the document value
/// alone.
#[verifier::external_body]
fn price_cells(html: &scraper::Html) -> (r: Vec<Option<Vec<String>>>)
    ensures
        r == price_cells_of(*html),
{
    let cell_sel =
        scraper::Selector::parse("div#prawy_bootstrap .col-lg-2.col-md-2.col-sm-3.col-xs-3")
            .unwrap();
    let p_sel = scraper::Selector::parse("p").unwrap();
    html.select(&cell_sel)
        .map(|cell| {
            cell.select(&p_sel).next().map(|p| p.text().map(String::from).collect())
        })
        .collect()
}

/// What the id-cell selection reads from a document: one entry per id cell of
/// the listing container, each holding the cell's first anchor — its `href`
/// attribute and the text nodes of each paragraph under it. A function of the
/// document value alone.
pub uninterp spec fn id_cells_of(html: scraper::Html) -> Vec<Option<Anchor>>;

/// Relies on scraper's CSS selection: the id cells of the listing container,
/// each with its first anchor, the anchor's `href` attribute, and the text
/// nodes of each paragraph under the anchor. Selection walks the document
/// tree, so the result depends on the document value alone.
#[verifier::external_body]
fn id_cells(html: &scraper::Html) -> (r: Vec<Option<Anchor>>)
    ensures
        r == id_cells_of(*html),
{
    let cell_sel =
        scraper::Selector::parse("div#prawy_bootstrap .col-lg-3.col-md-3.col-sm-9.col-xs-8")
            .unwrap();
    let a_sel = scraper::Selector::parse("div a").unwrap();
    let p_sel = scraper::Selector::parse("p").unwrap();
    html.select(&cell_sel)
        .map(|cell| {
            cell.select(&a_sel).next().map(|a| Anchor {
                href: a.attr("href").map(String::from),
                paragraph_texts: a.select(&p_sel).map(|p| p.text().map(String::from).collect()).collect(),
            })
        })
        .collect()
}

/// What the name-region selection reads from a document: the text nodes under
/// the name region, in order. A function of the document value alone.
pub uninterp spec fn name_texts_of(html: scraper::Html) -> Vec<String>;

/// Relies on scraper's CSS selection: the text nodes of the name region of a
/// detail page. Selection walks the document tree, so the result depends on
/// the document value alone.
#[verifier::external_body]
fn name_region_texts(html: &scraper::Html) -> (r: Vec<String>)
    ensures
        r == name_texts_of(*html),
{
    let sel = scraper::Selector::parse(".col-lg-9.col-md-8.col-sm-7.col-xs-12.text-left.styl_exo")
        .unwrap();
    html.select(&sel).flat_map(|e| e.text().map(String::from)).collect()
}

/// What the description-region selection reads from a document: the text
/// nodes under the description region, in order. A function of the document
/// value alone.
pub uninterp spec fn description_texts_of(html: scraper::Html) -> Vec<String>;

/// Relies on scraper's CSS selection: the text nodes of the description
/// region of a detail page. Selection walks the document tree, so the result
/// depends on the document value alone.
#[verifier::external_body]
fn description_region_texts(html: &scraper::Html) -> (r: Vec<String>)
    ensures
        r == description_texts_of(*html),
{
    let sel = scraper::Selector::parse(".opistresc").unwrap();
    html.select(&sel).flat_map(|e| e.text().map(String::from)).collect()
}

/// What the stock-block selection reads from a document: one entry per
/// stock-announcement paragraph, each holding the text nodes of the
/// paragraph's first bolded child. A function of the document value alone.
pub uninterp spec fn stock_cells_of(html: scraper::Html) -> Vec<Option<Vec<String>>>;

/// Relies on scraper's CSS selection: the paragraphs of the
/// stock-announcement block, each with the text nodes of its first bolded
/// child. Selection walks the document tree, so the result depends on the
/// document value alone.
#[verifier::external_body]
fn stock_block_cells(html: &scraper::Html) -> (r: Vec<Option<Vec<String>>>)
    ensures
        r == stock_cells_of(*html),
{
    let p_sel = scraper::Selector::parse("p#myDIV").unwrap();
    let b_sel = scraper::Selector::parse("b").unwrap();
    html.select(&p_sel)
        .map(|p| {
            p.select(&b_sel).next().map(|b| b.text().map(String::from).collect())
        })
        .collect()
}

/// Reads the total page count from the pagination control of a listing page:
/// the counting rule `pagination::page_count` applied to the pagination links
/// the document shows. The result is a function of the document value alone,
/// so any count returned is non-negative and two reads of one document agree.
pub fn get_pages_from_html(html: &scraper::Html) -> (r: Option<i32>)
    ensures
        match r {
            Some(v) => pagination::spec_page_count(
                pagination::spec_region_view(pagination_links_of(*html)),
            ) == Some(v as int) && v >= 0,
            None => pagination::spec_page_count(
                pagination::spec_region_view(pagination_links_of(*html)),
            ) is None,
        },
{
    let region = pagination_region(html);
    let r = pagination::page_count(&region);
    proof {
        if r is Some {
            let spec_region = pagination::spec_region_view(region);
            let links = spec_region->Some_0;
            let mapped = links.map_values(|o: Option<Vec<String>>| o->Some_0);
            let label = pagination::spec_last_label(mapped)->Some_0;
            lemma_digits_value_nonneg(label);
        }
    }
    r
}

proof fn lemma_prices_tokens_decimal(cells: Seq<Option<Vec<String>>>)
    requires
        crate::listing::spec_get_prices(cells) is Ok,
    ensures
        forall|i: int|
            0 <= i < crate::listing::spec_get_prices(cells)->Ok_0.len() ==> is_decimal_token(
                #[trigger] crate::listing::spec_get_prices(cells)->Ok_0[i],
            ),
    decreases cells.len(),
{
    if cells.len() > 0 {
        lemma_prices_tokens_decimal(cells.drop_last());
    }
}

/// Extracts the summary records of a listing page: the extraction rule
/// `extract_listings` applied to the price cells and id cells the document
/// shows. The result is a function of the document value alone, so two
/// extractions of one document agree; every record carries a validated
/// decimal price token and a non-empty detail href, and its shop id is the
/// one its own href encodes.
pub fn get_parts_from_html(html: &scraper::Html) -> (r: Result<Vec<PartData>, ExtractError>)
    ensures
        match r {
            Ok(parts) => spec_extract_listings(
                price_cells_of(*html)@,
                id_cells_of(*html)@,
            ) == Ok::<_, ExtractError>(parts.deep_view()),
            Err(e) => spec_extract_listings(price_cells_of(*html)@, id_cells_of(*html)@) == Err::<
                Seq<PartDataView>,
                _,
            >(e),
        },
        match r {
            Ok(parts) => forall|i: int|
                0 <= i < parts@.len() ==> {
                    &&& is_decimal_token((#[trigger] parts@[i])@.price)
                    &&& parts@[i]@.shop_id == spec_shop_id(parts@[i]@.href)
                    &&& parts@[i]@.href.len() > 0
                },
            Err(_) => true,
        },
{
    let prices = price_cells(html);
    let ids = id_cells(html);
    let r = extract_listings(&prices, &ids);
    proof {
        if r is Ok {
            lemma_prices_tokens_decimal(prices@);
            crate::listing::lemma_ids_hrefs_nonempty(ids@);
            let parts = r->Ok_0;
            let toks = crate::listing::spec_get_prices(prices@)->Ok_0;
            let pairs = crate::listing::spec_get_ids(ids@);
            let zipped = spec_extract_listings(prices@, ids@)->Ok_0;
            assert forall|i: int| 0 <= i < parts@.len() implies {
                &&& is_decimal_token((#[trigger] parts@[i])@.price)
                &&& parts@[i]@.shop_id == spec_shop_id(parts@[i]@.href)
                &&& parts@[i]@.href.len() > 0
            } by {
                assert(parts.deep_view()[i] == parts@[i]@);
                let m: int = if toks.len() <= pairs.len() {
                    toks.len() as int
                } else {
                    pairs.len() as int
                };
                assert(zipped == crate::listing::spec_zip_records(toks, pairs));
                assert(zipped.len() == m);
                assert(zipped[i] == (PartDataView {
                    price: toks[i],
                    shop_id: spec_shop_id(pairs[i].0),
                    id: pairs[i].1,
                    href: pairs[i].0,
                }));
            }
        }
    }
    r
}

/// Extracts the enriched record of a detail page: the extraction rule
/// `extract_detail` applied to the name, description and stock-block text the
/// document shows, with `id` and `price` copied from the parent summary
/// record. The result is a function of the document and the parent alone, so
/// two extractions of one document agree. The one structural error names the
/// empty description region, so the caller can skip just that item.
pub fn get_part_details(html: &scraper::Html, parent: &PartData) -> (r: Result<
    PartWithDetails,
    ExtractError,
>)
    ensures
        match r {
            Ok(d) => spec_extract_detail(
                name_texts_of(*html)@,
                description_texts_of(*html)@,
                stock_cells_of(*html)@,
                parent@,
            ) == Ok::<_, ExtractError>(d@),
            Err(e) => spec_extract_detail(
                name_texts_of(*html)@,
                description_texts_of(*html)@,
                stock_cells_of(*html)@,
                parent@,
            ) == Err::<crate::records::PartWithDetailsView, _>(e),
        },
        match r {
            Ok(d) => {
                &&& d@.id == parent@.id
                &&& d@.price == parent@.price
                &&& d@.stock >= 0
                &&& d@.name.len() > 0
            },
            Err(e) => e == ExtractError::DescriptionRegionEmpty,
        },
{
    let names = name_region_texts(html);
    let descs = description_region_texts(html);
    let stocks = stock_block_cells(html);
    let r = extract_detail(&names, &descs, &stocks, parent);
    proof {
        if r is Ok {
            let runs = crate::detail::spec_stock_runs(stocks@);
            if runs.len() > 0 {
                crate::detail::lemma_stock_runs_all_digits(stocks@);
                lemma_digits_value_nonneg(runs.last());
            }
            reveal_strlit("empty");
            crate::detail::lemma_clean_lines_nonblank(names@);
            let lines = crate::detail::spec_clean_lines(names@);
            if lines.len() == 0 {
                assert(r->Ok_0@.name == "empty"@);
            } else if lines[0].len() == 0 {
                assert(crate::text::spec_is_blank(lines[0]));
            }
        }
    }
    r
}

} // verus!
