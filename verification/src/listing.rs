//! Listing-page extraction: prices, id/href pairs, shop-internal ids, and the
//! positional zip that yields one `PartData` per listed item.
//!
//! The input model holds exactly what the extraction rules read from the
//! page: for each price cell, the text nodes of its first paragraph (or
//! nothing, when the cell has no paragraph); for each id cell, its first
//! anchor with the `href` attribute and the text nodes of each paragraph
//! under it.
use vstd::prelude::*;

use crate::records::{ExtractError, PartData, PartDataView};
use crate::text::{
    check_decimal_token, first_token, is_decimal_token, is_digit_char, lemma_run_end_bounds,
    parse_digits_up_to, slash_runs, spec_all_digits, spec_digits_value, spec_first_token,
    spec_run_end, spec_slash_runs,
};

verus! {

/// The first anchor of an id cell: its `href` attribute, when present, and
/// the text nodes of each paragraph under it.
pub struct Anchor {
    pub href: Option<String>,
    pub paragraph_texts: Vec<Vec<String>>,
}

/// The price tokens read from the price cells, in order.
///
/// A cell without a paragraph is a structural error; a cell whose paragraph
/// has no text is dropped; otherwise the token is the first space-delimited
/// token of the last text node, and must be a non-negative decimal literal.
pub open spec fn spec_get_prices(cells: Seq<Option<Vec<String>>>) -> Result<
    Seq<Seq<char>>,
    ExtractError,
>
    decreases cells.len(),
{
    if cells.len() == 0 {
        Ok(Seq::empty())
    } else {
        match spec_get_prices(cells.drop_last()) {
            Err(e) => Err(e),
            Ok(toks) => match cells.last() {
                None => Err(ExtractError::PriceCellWithoutParagraph),
                Some(texts) => if texts@.len() == 0 {
                    Ok(toks)
                } else {
                    let tok = spec_first_token(texts@.last()@);
                    if is_decimal_token(tok) {
                        Ok(toks.push(tok))
                    } else {
                        Err(ExtractError::InvalidPriceToken)
                    }
                },
            },
        }
    }
}

proof fn lemma_prices_err_persists(cells: Seq<Option<Vec<String>>>, i: int)
    requires
        0 <= i <= cells.len(),
        spec_get_prices(cells.take(i)) is Err,
    ensures
        spec_get_prices(cells) == spec_get_prices(cells.take(i)),
    decreases cells.len() - i,
{
    if i < cells.len() {
        assert(cells.take(i + 1).drop_last() =~= cells.take(i));
        assert(cells.take(i + 1).last() == cells[i]);
        lemma_prices_err_persists(cells, i + 1);
    } else {
        assert(cells.take(i) =~= cells);
    }
}

/// Reads one price token per usable price cell.
///
/// Fails on the first cell without a paragraph, and on the first token that
/// is not a non-negative decimal literal; cells whose paragraph holds no text
/// are dropped, as the page template sometimes leaves them empty.
pub fn get_prices(cells: &Vec<Option<Vec<String>>>) -> (r: Result<Vec<String>, ExtractError>)
    ensures
        match r {
            Ok(toks) => spec_get_prices(cells@) == Ok::<_, ExtractError>(toks.deep_view()),
            Err(e) => spec_get_prices(cells@) == Err::<Seq<Seq<char>>, _>(e),
        },
{
    let n = cells.len();
    let mut toks: Vec<String> = Vec::new();
    let mut i: usize = 0;
    proof {
        assert(cells@.take(0) =~= Seq::<Option<Vec<String>>>::empty());
        assert(toks.deep_view() =~= Seq::<Seq<char>>::empty());
    }
    while i < n
        invariant
            0 <= i <= n,
            n == cells@.len(),
            spec_get_prices(cells@.take(i as int)) == Ok::<_, ExtractError>(toks.deep_view()),
        decreases n - i,
    {
        proof {
            assert(cells@.take(i + 1).drop_last() =~= cells@.take(i as int));
            assert(cells@.take(i + 1).last() == cells@[i as int]);
        }
        match &cells[i] {
            None => {
                proof {
                    lemma_prices_err_persists(cells@, i + 1);
                }
                return Err(ExtractError::PriceCellWithoutParagraph);
            },
            Some(texts) => {
                if texts.len() > 0 {
                    let last_text: &String = &texts[texts.len() - 1];
                    let tok = first_token(last_text.as_str());
                    if check_decimal_token(tok) {
                        toks.push(String::from_str(tok));
                        proof {
                            let prev = (spec_get_prices(
                                cells@.take(i as int),
                            ))->Ok_0;
                            assert(toks.deep_view() =~= prev.push(tok@));
                        }
                    } else {
                        proof {
                            lemma_prices_err_persists(cells@, i + 1);
                        }
                        return Err(ExtractError::InvalidPriceToken);
                    }
                }
            },
        }
        i = i + 1;
    }
    proof {
        assert(cells@.take(n as int) =~= cells@);
    }
    Ok(toks)
}

/// The display id of an anchor: the last text node of each paragraph under
/// it, concatenated in paragraph order; paragraphs without text contribute
/// nothing.
pub open spec fn spec_anchor_id(ps: Seq<Vec<String>>) -> Seq<char>
    decreases ps.len(),
{
    if ps.len() == 0 {
        Seq::empty()
    } else {
        spec_anchor_id(ps.drop_last()) + (if ps.last()@.len() == 0 {
            Seq::<char>::empty()
        } else {
            ps.last()@.last()@
        })
    }
}

/// Concatenates the last text node of each paragraph.
pub fn anchor_id(ps: &Vec<Vec<String>>) -> (r: String)
    ensures
        r@ == spec_anchor_id(ps@),
{
    let mut r = String::new();
    let n = ps.len();
    let mut i: usize = 0;
    while i < n
        invariant
            0 <= i <= n,
            n == ps@.len(),
            r@ == spec_anchor_id(ps@.take(i as int)),
        decreases n - i,
    {
        proof {
            assert(ps@.take(i + 1).drop_last() =~= ps@.take(i as int));
            assert(ps@.take(i + 1).last() == ps@[i as int]);
        }
        let texts: &Vec<String> = &ps[i];
        if texts.len() > 0 {
            let last_text: &String = &texts[texts.len() - 1];
            r.append(last_text.as_str());
        }
        i = i + 1;
    }
    proof {
        assert(ps@.take(n as int) =~= ps@);
    }
    r
}

/// The (href, display id) pairs of the id cells, in order; a cell without an
/// anchor, or whose anchor has no `href` attribute or an empty one, is
/// silently dropped — every record's detail href is non-empty.
pub open spec fn spec_get_ids(cells: Seq<Option<Anchor>>) -> Seq<(Seq<char>, Seq<char>)>
    decreases cells.len(),
{
    if cells.len() == 0 {
        Seq::empty()
    } else {
        let rest = spec_get_ids(cells.drop_last());
        match cells.last() {
            None => rest,
            Some(a) => match a.href {
                None => rest,
                Some(h) => if h@.len() == 0 {
                    rest
                } else {
                    rest.push((h@, spec_anchor_id(a.paragraph_texts@)))
                },
            },
        }
    }
}

/// Every pair the id cells yield carries a non-empty href: the others were
/// dropped.
pub proof fn lemma_ids_hrefs_nonempty(cells: Seq<Option<Anchor>>)
    ensures
        forall|i: int|
            0 <= i < spec_get_ids(cells).len() ==> (#[trigger] spec_get_ids(cells)[i]).0.len() > 0,
    decreases cells.len(),
{
    if cells.len() > 0 {
        lemma_ids_hrefs_nonempty(cells.drop_last());
        let whole = spec_get_ids(cells);
        let rest = spec_get_ids(cells.drop_last());
        assert forall|i: int| 0 <= i < whole.len() implies (#[trigger] whole[i]).0.len() > 0 by {
            if i < rest.len() {
                assert(whole[i] == rest[i]);
            }
        }
    }
}

/// Reads the (href, display id) pair of each id cell that has an anchor with
/// a non-empty `href` attribute; the others are silently dropped.
pub fn get_ids(cells: &Vec<Option<Anchor>>) -> (r: Vec<(String, String)>)
    ensures
        r.deep_view() == spec_get_ids(cells@),
{
    let n = cells.len();
    let mut r: Vec<(String, String)> = Vec::new();
    let mut i: usize = 0;
    proof {
        assert(cells@.take(0) =~= Seq::<Option<Anchor>>::empty());
        assert(r.deep_view() =~= Seq::<(Seq<char>, Seq<char>)>::empty());
    }
    while i < n
        invariant
            0 <= i <= n,
            n == cells@.len(),
            r.deep_view() == spec_get_ids(cells@.take(i as int)),
        decreases n - i,
    {
        proof {
            assert(cells@.take(i + 1).drop_last() =~= cells@.take(i as int));
            assert(cells@.take(i + 1).last() == cells@[i as int]);
        }
        match &cells[i] {
            None => {},
            Some(a) => {
                match &a.href {
                    None => {},
                    Some(h) => {
                        if !h.as_str().is_empty() {
                            let id = anchor_id(&a.paragraph_texts);
                            r.push((h.clone(), id));
                            proof {
                                let prev = spec_get_ids(cells@.take(i as int));
                                assert(r.deep_view() =~= prev.push((h@, spec_anchor_id(
                                    a.paragraph_texts@,
                                ))));
                            }
                        }
                    },
                }
            },
        }
        i = i + 1;
    }
    proof {
        assert(cells@.take(n as int) =~= cells@);
    }
    r
}

/// The shop-internal id hidden in a detail href: the last slash-delimited
/// digit run, when there is one and its value fits a signed 64-bit integer.
pub open spec fn spec_shop_id(href: Seq<char>) -> Option<int> {
    let runs = spec_slash_runs(href);
    if runs.len() == 0 {
        None
    } else if spec_digits_value(runs.last()) <= i64::MAX {
        Some(spec_digits_value(runs.last()))
    } else {
        None
    }
}

proof fn lemma_slash_runs_digits(s: Seq<char>)
    ensures
        forall|i: int|
            0 <= i < spec_slash_runs(s).len() ==> spec_all_digits(#[trigger] spec_slash_runs(s)[i]),
    decreases s.len(),
{
    if s.len() >= 3 {
        if s[0] == '/' && is_digit_char(s[1]) {
            let k = spec_run_end(s, 1);
            lemma_run_end_bounds(s, 1);
            if k < s.len() && s[k] == '/' {
                lemma_slash_runs_digits(s.skip(k + 1));
                assert(spec_all_digits(s.subrange(1, k))) by {
                    assert(forall|j: int|
                        0 <= j < k - 1 ==> is_digit_char(#[trigger] s.subrange(1, k)[j]));
                }
                let whole = spec_slash_runs(s);
                let rest = spec_slash_runs(s.skip(k + 1));
                assert(whole == seq![s.subrange(1, k)] + rest);
                assert forall|i: int| 0 <= i < whole.len() implies spec_all_digits(
                    #[trigger] whole[i],
                ) by {
                    if i == 0 {
                        assert(whole[0] == s.subrange(1, k));
                    } else {
                        assert(whole[i] == rest[i - 1]);
                    }
                }
            } else {
                lemma_slash_runs_digits(s.skip(1));
                assert(spec_slash_runs(s) == spec_slash_runs(s.skip(1)));
            }
        } else {
            lemma_slash_runs_digits(s.skip(1));
            assert(spec_slash_runs(s) == spec_slash_runs(s.skip(1)));
        }
    }
}

/// Derives the shop-internal id from a detail href.
pub fn shop_id_from_href(href: &str) -> (r: Option<i64>)
    ensures
        match r {
            Some(v) => spec_shop_id(href@) == Some(v as int),
            None => spec_shop_id(href@) is None,
        },
{
    let runs = slash_runs(href);
    if runs.len() == 0 {
        proof {
            assert(spec_slash_runs(href@).len() == 0);
        }
        return None;
    }
    let last_run: &String = &runs[runs.len() - 1];
    proof {
        lemma_slash_runs_digits(href@);
        assert(last_run@ == spec_slash_runs(href@).last());
    }
    match parse_digits_up_to(last_run.as_str(), 9223372036854775807u64) {
        Some(v) => Some(v as i64),
        None => None,
    }
}

/// One `PartData` per aligned pair, pairing the price tokens with the
/// (href, display id) pairs positionally and truncating to the shorter side.
pub open spec fn spec_zip_records(
    toks: Seq<Seq<char>>,
    ids: Seq<(Seq<char>, Seq<char>)>,
) -> Seq<PartDataView> {
    Seq::new(
        if toks.len() <= ids.len() {
            toks.len()
        } else {
            ids.len()
        },
        |i: int|
            PartDataView {
                price: toks[i],
                shop_id: spec_shop_id(ids[i].0),
                id: ids[i].1,
                href: ids[i].0,
            },
    )
}

/// The whole listing extraction, from the page model to summary records.
pub open spec fn spec_extract_listings(
    price_cells: Seq<Option<Vec<String>>>,
    id_cells: Seq<Option<Anchor>>,
) -> Result<Seq<PartDataView>, ExtractError> {
    match spec_get_prices(price_cells) {
        Err(e) => Err(e),
        Ok(toks) => Ok(spec_zip_records(toks, spec_get_ids(id_cells))),
    }
}

/// Builds one summary record per listed item: prices and id/href pairs are
/// read as two positionally parallel sequences and zipped, truncating to the
/// shorter side; pairing order is preserved.
pub fn extract_listings(
    price_cells: &Vec<Option<Vec<String>>>,
    id_cells: &Vec<Option<Anchor>>,
) -> (r: Result<Vec<PartData>, ExtractError>)
    ensures
        match r {
            Ok(parts) => spec_extract_listings(price_cells@, id_cells@) == Ok::<
                _,
                ExtractError,
            >(parts.deep_view()),
            Err(e) => spec_extract_listings(price_cells@, id_cells@) == Err::<
                Seq<PartDataView>,
                _,
            >(e),
        },
{
    let toks = match get_prices(price_cells) {
        Ok(toks) => toks,
        Err(e) => {
            return Err(e);
        },
    };
    let ids = get_ids(id_cells);
    let m = if toks.len() <= ids.len() {
        toks.len()
    } else {
        ids.len()
    };
    let mut parts: Vec<PartData> = Vec::new();
    let ghost zipped = spec_zip_records(toks.deep_view(), ids.deep_view());
    let mut i: usize = 0;
    while i < m
        invariant
            0 <= i <= m,
            m <= toks.len(),
            m <= ids.len(),
            zipped == spec_zip_records(toks.deep_view(), ids.deep_view()),
            zipped.len() == m,
            parts.deep_view().len() == i,
            forall|j: int| 0 <= j < i ==> parts.deep_view()[j] == zipped[j],
        decreases m - i,
    {
        let pair: &(String, String) = &ids[i];
        let shop_id = shop_id_from_href(pair.0.as_str());
        let price: &String = &toks[i];
        parts.push(
            PartData {
                price: price.clone(),
                shop_id,
                id: pair.1.clone(),
                href: pair.0.clone(),
            },
        );
        i = i + 1;
    }
    proof {
        assert(parts.deep_view() =~= zipped);
    }
    Ok(parts)
}

/// Listing extraction is a pure function of the page model: two extractions
/// of equal models yield equal record sequences, bit for bit.
pub proof fn lemma_extract_listings_deterministic(
    price_cells_a: Seq<Option<Vec<String>>>,
    id_cells_a: Seq<Option<Anchor>>,
    price_cells_b: Seq<Option<Vec<String>>>,
    id_cells_b: Seq<Option<Anchor>>,
)
    requires
        price_cells_a == price_cells_b,
        id_cells_a == id_cells_b,
    ensures
        spec_extract_listings(price_cells_a, id_cells_a) == spec_extract_listings(
            price_cells_b,
            id_cells_b,
        ),
{
}

} // verus!
