//! Detail-page extraction: name, description, alternate part ids, and the
//! stock count revealed by the add-to-cart submission.
//!
//! The input model holds what the extraction rules read from the page: the
//! text nodes of the name region and of the description region, and, for each
//! paragraph of the stock-announcement block, the text nodes of its first
//! bolded child (or nothing, when it has none).
use vstd::prelude::*;

use crate::records::{ExtractError, PartData, PartDataView, PartWithDetails, PartWithDetailsView};
use crate::text::{
    digit_runs, is_blank, is_digit_char, join_prefix, parse_digits_up_to, spec_all_digits,
    spec_digit_runs, spec_digits_value, spec_is_blank, spec_join, spec_split, spec_strip_newlines,
    spec_trim, split_on, strip_newlines, trim,
};

verus! {

/// The text nodes of a region, each with its newlines removed, blank ones
/// dropped, order kept.
pub open spec fn spec_clean_lines(texts: Seq<String>) -> Seq<Seq<char>>
    decreases texts.len(),
{
    if texts.len() == 0 {
        Seq::empty()
    } else {
        let rest = spec_clean_lines(texts.drop_last());
        let cleaned = spec_strip_newlines(texts.last()@);
        if spec_is_blank(cleaned) {
            rest
        } else {
            rest.push(cleaned)
        }
    }
}

/// Strips newlines from each text node and drops the blank ones.
pub fn clean_lines(texts: &Vec<String>) -> (r: Vec<String>)
    ensures
        r.deep_view() == spec_clean_lines(texts@),
{
    let n = texts.len();
    let mut r: Vec<String> = Vec::new();
    let mut i: usize = 0;
    proof {
        assert(texts@.take(0) =~= Seq::<String>::empty());
        assert(r.deep_view() =~= Seq::<Seq<char>>::empty());
    }
    while i < n
        invariant
            0 <= i <= n,
            n == texts@.len(),
            r.deep_view() == spec_clean_lines(texts@.take(i as int)),
        decreases n - i,
    {
        proof {
            assert(texts@.take(i + 1).drop_last() =~= texts@.take(i as int));
            assert(texts@.take(i + 1).last() == texts@[i as int]);
        }
        let cleaned = strip_newlines(texts[i].as_str());
        if !is_blank(cleaned.as_str()) {
            let ghost prev = spec_clean_lines(texts@.take(i as int));
            r.push(cleaned);
            proof {
                assert(r.deep_view() =~= prev.push(spec_strip_newlines(texts@[i as int]@)));
            }
        }
        i = i + 1;
    }
    proof {
        assert(texts@.take(n as int) =~= texts@);
    }
    r
}

/// Every cleaned line has something visible in it: the blank ones were dropped.
pub proof fn lemma_clean_lines_nonblank(texts: Seq<String>)
    ensures
        forall|i: int|
            0 <= i < spec_clean_lines(texts).len() ==> !spec_is_blank(
                #[trigger] spec_clean_lines(texts)[i],
            ),
    decreases texts.len(),
{
    if texts.len() > 0 {
        lemma_clean_lines_nonblank(texts.drop_last());
        let rest = spec_clean_lines(texts.drop_last());
        let whole = spec_clean_lines(texts);
        let cleaned = spec_strip_newlines(texts.last()@);
        if !spec_is_blank(cleaned) {
            assert forall|i: int| 0 <= i < whole.len() implies !spec_is_blank(
                #[trigger] whole[i],
            ) by {
                if i < whole.len() - 1 {
                    assert(whole[i] == rest[i]);
                }
            }
        }
    }
}

/// The name shown on a detail page: the first non-blank text of the name
/// region, newlines removed; the literal `empty` when none remains.
pub open spec fn spec_name(texts: Seq<String>) -> Seq<char> {
    let lines = spec_clean_lines(texts);
    if lines.len() == 0 {
        "empty"@
    } else {
        lines[0]
    }
}

/// Extracts the name from the name-region text nodes.
pub fn extract_name(texts: &Vec<String>) -> (r: String)
    ensures
        r@ == spec_name(texts@),
{
    let lines = clean_lines(texts);
    if lines.len() == 0 {
        String::from_str("empty")
    } else {
        lines[0].clone()
    }
}

/// The description: all lines but the last, joined with newlines; empty when
/// the region yields at most one line.
pub open spec fn spec_description(lines: Seq<Seq<char>>) -> Seq<char> {
    if lines.len() <= 1 {
        Seq::empty()
    } else {
        spec_join(lines.drop_last(), '\n')
    }
}

/// The alternate part ids: the last line, trimmed as a whole, then split on
/// commas with every segment kept verbatim — a segment keeps any space that
/// followed a comma. No line yields no ids.
pub open spec fn spec_other_ids(lines: Seq<Seq<char>>) -> Seq<Seq<char>> {
    if lines.len() == 0 {
        Seq::empty()
    } else {
        spec_split(spec_trim(lines.last()), ',')
    }
}

/// On a last line that carries no leading or trailing blank space, the
/// alternate ids are exactly the line split on commas, every segment kept
/// verbatim — a segment keeps any space that followed a comma.
pub proof fn lemma_other_ids_verbatim(lines: Seq<Seq<char>>)
    requires
        lines.len() > 0,
        spec_trim(lines.last()) == lines.last(),
    ensures
        spec_other_ids(lines) == spec_split(lines.last(), ','),
{
}

/// The digit runs of a sequence of text nodes, in reading order.
pub open spec fn spec_text_runs(texts: Seq<String>) -> Seq<Seq<char>>
    decreases texts.len(),
{
    if texts.len() == 0 {
        Seq::empty()
    } else {
        spec_text_runs(texts.drop_last()) + spec_digit_runs(texts.last()@)
    }
}

/// The digit runs of the whole stock-announcement block: paragraphs without a
/// bolded child contribute nothing.
pub open spec fn spec_stock_runs(cells: Seq<Option<Vec<String>>>) -> Seq<Seq<char>>
    decreases cells.len(),
{
    if cells.len() == 0 {
        Seq::empty()
    } else {
        spec_stock_runs(cells.drop_last()) + match cells.last() {
            None => Seq::<Seq<char>>::empty(),
            Some(texts) => spec_text_runs(texts@),
        }
    }
}

/// The stock count: the value of the last digit run of the block; 0 when the
/// block yields no run or the value does not fit a signed 32-bit integer.
pub open spec fn spec_stock(cells: Seq<Option<Vec<String>>>) -> int {
    let runs = spec_stock_runs(cells);
    if runs.len() == 0 {
        0
    } else if spec_digits_value(runs.last()) <= i32::MAX {
        spec_digits_value(runs.last())
    } else {
        0
    }
}

proof fn lemma_digit_runs_all_digits(s: Seq<char>)
    ensures
        forall|i: int|
            0 <= i < spec_digit_runs(s).len() ==> spec_all_digits(#[trigger] spec_digit_runs(s)[i]),
    decreases s.len(),
{
    if s.len() > 0 {
        lemma_digit_runs_all_digits(s.drop_last());
        let rest = spec_digit_runs(s.drop_last());
        let whole = spec_digit_runs(s);
        if !is_digit_char(s.last()) {
            assert(whole == rest);
        } else if s.len() >= 2 && is_digit_char(s[s.len() - 2]) {
            assert forall|i: int| 0 <= i < whole.len() implies spec_all_digits(
                #[trigger] whole[i],
            ) by {
                if i < whole.len() - 1 {
                    assert(whole[i] == rest[i]);
                } else {
                    assert(whole[i] == rest.last().push(s.last()));
                    assert(spec_all_digits(rest[rest.len() - 1]));
                    assert forall|j: int| 0 <= j < whole[i].len() implies is_digit_char(
                        #[trigger] whole[i][j],
                    ) by {
                        if j < whole[i].len() - 1 {
                            assert(whole[i][j] == rest.last()[j]);
                        }
                    }
                }
            }
        } else {
            assert forall|i: int| 0 <= i < whole.len() implies spec_all_digits(
                #[trigger] whole[i],
            ) by {
                if i < whole.len() - 1 {
                    assert(whole[i] == rest[i]);
                } else {
                    assert(whole[i] =~= seq![s.last()]);
                }
            }
        }
    }
}

proof fn lemma_text_runs_all_digits(texts: Seq<String>)
    ensures
        forall|i: int|
            0 <= i < spec_text_runs(texts).len() ==> spec_all_digits(
                #[trigger] spec_text_runs(texts)[i],
            ),
    decreases texts.len(),
{
    if texts.len() > 0 {
        lemma_text_runs_all_digits(texts.drop_last());
        lemma_digit_runs_all_digits(texts.last()@);
        let whole = spec_text_runs(texts);
        let a = spec_text_runs(texts.drop_last());
        let b = spec_digit_runs(texts.last()@);
        assert forall|i: int| 0 <= i < whole.len() implies spec_all_digits(
            #[trigger] whole[i],
        ) by {
            if i < a.len() {
                assert(whole[i] == a[i]);
            } else {
                assert(whole[i] == b[i - a.len()]);
            }
        }
    }
}

/// Every digit run of the stock block holds digits only.
pub proof fn lemma_stock_runs_all_digits(cells: Seq<Option<Vec<String>>>)
    ensures
        forall|i: int|
            0 <= i < spec_stock_runs(cells).len() ==> spec_all_digits(
                #[trigger] spec_stock_runs(cells)[i],
            ),
    decreases cells.len(),
{
    if cells.len() > 0 {
        lemma_stock_runs_all_digits(cells.drop_last());
        let whole = spec_stock_runs(cells);
        let a = spec_stock_runs(cells.drop_last());
        match cells.last() {
            None => {
                assert(whole =~= a);
            },
            Some(texts) => {
                lemma_text_runs_all_digits(texts@);
                let b = spec_text_runs(texts@);
                assert forall|i: int| 0 <= i < whole.len() implies spec_all_digits(
                    #[trigger] whole[i],
                ) by {
                    if i < a.len() {
                        assert(whole[i] == a[i]);
                    } else {
                        assert(whole[i] == b[i - a.len()]);
                    }
                }
            },
        }
    }
}

/// The last digit run of the stock block, when there is one.
fn last_stock_run(cells: &Vec<Option<Vec<String>>>) -> (r: Option<String>)
    ensures
        match r {
            Some(run) => {
                &&& spec_stock_runs(cells@).len() > 0
                &&& run@ == spec_stock_runs(cells@).last()
                &&& spec_all_digits(run@)
            },
            None => spec_stock_runs(cells@).len() == 0,
        },
{
    let n = cells.len();
    let mut last: Option<String> = None;
    let mut i: usize = 0;
    proof {
        assert(cells@.take(0) =~= Seq::<Option<Vec<String>>>::empty());
    }
    while i < n
        invariant
            0 <= i <= n,
            n == cells@.len(),
            match last {
                Some(run) => {
                    &&& spec_stock_runs(cells@.take(i as int)).len() > 0
                    &&& run@ == spec_stock_runs(cells@.take(i as int)).last()
                    &&& spec_all_digits(run@)
                },
                None => spec_stock_runs(cells@.take(i as int)).len() == 0,
            },
        decreases n - i,
    {
        proof {
            assert(cells@.take(i + 1).drop_last() =~= cells@.take(i as int));
            assert(cells@.take(i + 1).last() == cells@[i as int]);
        }
        match &cells[i] {
            None => {
                proof {
                    assert(spec_stock_runs(cells@.take(i + 1)) =~= spec_stock_runs(
                        cells@.take(i as int),
                    ));
                }
            },
            Some(texts) => {
                let m = texts.len();
                let mut j: usize = 0;
                proof {
                    assert(texts@.take(0) =~= Seq::<String>::empty());
                }
                let ghost seen = spec_stock_runs(cells@.take(i as int));
                while j < m
                    invariant
                        0 <= j <= m,
                        m == texts@.len(),
                        seen == spec_stock_runs(cells@.take(i as int)),
                        match last {
                            Some(run) => {
                                &&& (seen + spec_text_runs(texts@.take(j as int))).len() > 0
                                &&& run@ == (seen + spec_text_runs(texts@.take(j as int))).last()
                                &&& spec_all_digits(run@)
                            },
                            None => (seen + spec_text_runs(texts@.take(j as int))).len() == 0,
                        },
                    decreases m - j,
                {
                    proof {
                        assert(texts@.take(j + 1).drop_last() =~= texts@.take(j as int));
                        assert(texts@.take(j + 1).last() == texts@[j as int]);
                    }
                    let runs = digit_runs(texts[j].as_str());
                    if runs.len() > 0 {
                        let got: &String = &runs[runs.len() - 1];
                        proof {
                            lemma_digit_runs_all_digits(texts@[j as int]@);
                            assert(got@ == spec_digit_runs(texts@[j as int]@).last());
                        }
                        last = Some(got.clone());
                    }
                    proof {
                        let upto = seen + spec_text_runs(texts@.take(j as int));
                        let next = seen + spec_text_runs(texts@.take(j + 1));
                        let fresh = spec_digit_runs(texts@[j as int]@);
                        assert(next =~= upto + fresh);
                        if fresh.len() > 0 {
                            assert(next.last() == fresh.last());
                        } else {
                            assert(next =~= upto);
                        }
                    }
                    j = j + 1;
                }
                proof {
                    assert(texts@.take(m as int) =~= texts@);
                    assert(spec_stock_runs(cells@.take(i + 1)) =~= seen + spec_text_runs(texts@));
                }
            },
        }
        i = i + 1;
    }
    proof {
        assert(cells@.take(n as int) =~= cells@);
    }
    last
}

/// Reads the stock count from the stock-announcement block.
pub fn extract_stock(cells: &Vec<Option<Vec<String>>>) -> (r: i32)
    ensures
        r as int == spec_stock(cells@),
{
    match last_stock_run(cells) {
        None => 0,
        Some(run) => match parse_digits_up_to(run.as_str(), 2147483647u64) {
            Some(v) => v as i32,
            None => 0,
        },
    }
}

/// The whole detail extraction, from the page model and the parent summary
/// record to the enriched record; a description region with no non-blank
/// text is a structural error, since neither the description nor the
/// alternate ids can be read from it.
pub open spec fn spec_extract_detail(
    name_texts: Seq<String>,
    desc_texts: Seq<String>,
    stock_cells: Seq<Option<Vec<String>>>,
    parent: PartDataView,
) -> Result<PartWithDetailsView, ExtractError> {
    let lines = spec_clean_lines(desc_texts);
    if lines.len() == 0 {
        Err(ExtractError::DescriptionRegionEmpty)
    } else {
        Ok(
            PartWithDetailsView {
                id: parent.id,
                name: spec_name(name_texts),
                description: spec_description(lines),
                price: parent.price,
                stock: spec_stock(stock_cells),
                other_ids: spec_other_ids(lines),
            },
        )
    }
}

/// Builds the enriched record for one item: name and description regions are
/// read as cleaned text lines, the description keeps every line but the last,
/// the last line carries the alternate ids, and the stock block yields the
/// count. `id` and `price` are copied from the parent summary record.
/// Fails, naming the step, exactly when the description region shows no
/// non-blank text, so the caller can skip just that item.
pub fn extract_detail(
    name_texts: &Vec<String>,
    desc_texts: &Vec<String>,
    stock_cells: &Vec<Option<Vec<String>>>,
    parent: &PartData,
) -> (r: Result<PartWithDetails, ExtractError>)
    ensures
        match r {
            Ok(d) => spec_extract_detail(name_texts@, desc_texts@, stock_cells@, parent@) == Ok::<
                _,
                ExtractError,
            >(d@),
            Err(e) => spec_extract_detail(name_texts@, desc_texts@, stock_cells@, parent@) == Err::<
                PartWithDetailsView,
                _,
            >(e),
        },
{
    let name = extract_name(name_texts);
    let lines = clean_lines(desc_texts);
    if lines.len() == 0 {
        return Err(ExtractError::DescriptionRegionEmpty);
    }
    let description: String;
    if lines.len() == 1 {
        description = String::new();
    } else {
        description = join_prefix(&lines, lines.len() - 1, '\n');
        proof {
            assert(lines.deep_view().take(lines.len() - 1) =~= lines.deep_view().drop_last());
        }
    }
    let last_line: &String = &lines[lines.len() - 1];
    let trimmed = trim(last_line.as_str());
    let other_ids = split_on(trimmed, ',');
    let stock = extract_stock(stock_cells);
    Ok(
        PartWithDetails {
            id: parent.id.clone(),
            name,
            description,
            price: parent.price.clone(),
            stock,
            other_ids,
        },
    )
}

/// Detail extraction is a pure function of the page model and the parent
/// record: two extractions of equal inputs yield equal records, bit for bit.
pub proof fn lemma_extract_detail_deterministic(
    name_texts_a: Seq<String>,
    desc_texts_a: Seq<String>,
    stock_cells_a: Seq<Option<Vec<String>>>,
    parent_a: PartDataView,
    name_texts_b: Seq<String>,
    desc_texts_b: Seq<String>,
    stock_cells_b: Seq<Option<Vec<String>>>,
    parent_b: PartDataView,
)
    requires
        name_texts_a == name_texts_b,
        desc_texts_a == desc_texts_b,
        stock_cells_a == stock_cells_b,
        parent_a == parent_b,
    ensures
        spec_extract_detail(name_texts_a, desc_texts_a, stock_cells_a, parent_a)
            == spec_extract_detail(name_texts_b, desc_texts_b, stock_cells_b, parent_b),
{
}

} // verus!
