//! Pagination discovery: the total page count read from the pagination
//! control of the first listing page.
//!
//! The input model holds what the rule reads: when the pagination region is
//! present, one entry per page-link element, each holding the text nodes of
//! its first anchor — or nothing, when the element has no anchor.
use vstd::prelude::*;

use crate::text::{all_digits, parse_digits_up_to, spec_all_digits, spec_digits_value};

verus! {

/// The label of the rightmost page link that shows any text: each link's own
/// label is its last text node.
pub open spec fn spec_last_label(links: Seq<Vec<String>>) -> Option<Seq<char>>
    decreases links.len(),
{
    if links.len() == 0 {
        None
    } else if links.last()@.len() > 0 {
        Some(links.last()@.last()@)
    } else {
        spec_last_label(links.drop_last())
    }
}

/// A page-count label parses when it is one or more digits and its value
/// fits a signed 32-bit integer.
pub open spec fn spec_parse_page(label: Seq<char>) -> Option<int> {
    if label.len() > 0 && spec_all_digits(label) && spec_digits_value(label) <= i32::MAX {
        Some(spec_digits_value(label))
    } else {
        None
    }
}

/// The page model as the spec functions see it: the region, when present,
/// as a sequence of page-link entries.
pub open spec fn spec_region_view(region: Option<Vec<Option<Vec<String>>>>) -> Option<
    Seq<Option<Vec<String>>>,
> {
    match region {
        None => None,
        Some(v) => Some(v@),
    }
}

/// The total page count read from the pagination control: none when the
/// region is absent, when any page-link element has no anchor, when no link
/// shows a label, or when the last label does not parse as a page number.
pub open spec fn spec_page_count(region: Option<Seq<Option<Vec<String>>>>) -> Option<int> {
    match region {
        None => None,
        Some(links) => {
            if exists|i: int| 0 <= i < links.len() && links[i] is None {
                None
            } else {
                match spec_last_label(
                    links.map_values(|o: Option<Vec<String>>| o->Some_0),
                ) {
                    None => None,
                    Some(label) => spec_parse_page(label),
                }
            }
        },
    }
}

/// Determines the total page count from the pagination control; the caller
/// supplies a fallback when none is found.
pub fn page_count(region: &Option<Vec<Option<Vec<String>>>>) -> (r: Option<i32>)
    ensures
        match r {
            Some(v) => spec_page_count(spec_region_view(*region)) == Some(v as int),
            None => spec_page_count(spec_region_view(*region)) is None,
        },
{
    match region {
        None => None,
        Some(links) => {
            let n = links.len();
            let ghost mapped = links@.map_values(|o: Option<Vec<String>>| o->Some_0);
            let mut label: Option<&String> = None;
            let mut i: usize = 0;
            proof {
                assert(mapped.take(0) =~= Seq::<Vec<String>>::empty());
            }
            while i < n
                invariant
                    0 <= i <= n,
                    n == links@.len(),
                    spec_region_view(*region) == Some(links@),
                    mapped == links@.map_values(|o: Option<Vec<String>>| o->Some_0),
                    forall|j: int| 0 <= j < i ==> links@[j] is Some,
                    match label {
                        Some(l) => spec_last_label(mapped.take(i as int)) == Some(l@),
                        None => spec_last_label(mapped.take(i as int)) is None,
                    },
                decreases n - i,
            {
                proof {
                    assert(mapped.take(i + 1).drop_last() =~= mapped.take(i as int));
                    assert(mapped.take(i + 1).last() == mapped[i as int]);
                }
                match &links[i] {
                    None => {
                        proof {
                            let witness = i as int;
                            assert(0 <= witness < links@.len() && links@[witness] is None);
                        }
                        return None;
                    },
                    Some(texts) => {
                        proof {
                            assert(mapped[i as int] == links@[i as int]->Some_0);
                        }
                        if texts.len() > 0 {
                            label = Some(&texts[texts.len() - 1]);
                        }
                    },
                }
                i = i + 1;
            }
            proof {
                assert(mapped.take(n as int) =~= mapped);
            }
            match label {
                None => None,
                Some(l) => {
                    let len = l.as_str().unicode_len();
                    if len == 0 || !all_digits(l.as_str()) {
                        return None;
                    }
                    match parse_digits_up_to(l.as_str(), 2147483647u64) {
                        Some(v) => Some(v as i32),
                        None => None,
                    }
                },
            }
        },
    }
}

} // verus!
