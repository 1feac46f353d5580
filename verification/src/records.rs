//! The two record types the crawl produces, their mathematical views, and the
//! error taxonomy of the extraction layer.
use vstd::prelude::*;

verus! {

/// A summary record built from one listing-page item.
///
/// `price` holds the price token exactly as it stood on the page, validated
/// as a non-negative decimal literal; `shop_id` is the numeric id taken from
/// the last slash-delimited digit run of `href`, when there is one.
#[derive(Debug, Clone, PartialEq, Eq)]
pub struct PartData {
    pub price: String,
    pub shop_id: Option<i64>,
    pub id: String,
    pub href: String,
}

impl PartData {
    /// An equal copy of the record.
    pub fn duplicate(&self) -> (r: PartData)
        ensures
            r == *self,
    {
        PartData {
            price: self.price.clone(),
            shop_id: self.shop_id,
            id: self.id.clone(),
            href: self.href.clone(),
        }
    }
}

/// The mathematical view of a `PartData`.
pub struct PartDataView {
    pub price: Seq<char>,
    pub shop_id: Option<int>,
    pub id: Seq<char>,
    pub href: Seq<char>,
}

impl View for PartData {
    type V = PartDataView;

    open spec fn view(&self) -> PartDataView {
        PartDataView {
            price: self.price@,
            shop_id: match self.shop_id {
                Some(v) => Some(v as int),
                None => None,
            },
            id: self.id@,
            href: self.href@,
        }
    }
}

impl DeepView for PartData {
    type V = PartDataView;

    open spec fn deep_view(&self) -> PartDataView {
        self.view()
    }
}

/// An enriched record built from one detail page, handed to the sink.
#[derive(Debug, Clone, PartialEq, Eq)]
pub struct PartWithDetails {
    pub id: String,
    pub name: String,
    pub description: String,
    pub price: String,
    pub stock: i32,
    pub other_ids: Vec<String>,
}

/// The mathematical view of a `PartWithDetails`.
pub struct PartWithDetailsView {
    pub id: Seq<char>,
    pub name: Seq<char>,
    pub description: Seq<char>,
    pub price: Seq<char>,
    pub stock: int,
    pub other_ids: Seq<Seq<char>>,
}

impl View for PartWithDetails {
    type V = PartWithDetailsView;

    open spec fn view(&self) -> PartWithDetailsView {
        PartWithDetailsView {
            id: self.id@,
            name: self.name@,
            description: self.description@,
            price: self.price@,
            stock: self.stock as int,
            other_ids: self.other_ids.deep_view(),
        }
    }
}

impl DeepView for PartWithDetails {
    type V = PartWithDetailsView;

    open spec fn deep_view(&self) -> PartWithDetailsView {
        self.view()
    }
}

impl PartWithDetails {
    /// A copy of the record, equal field by field under the view.
    pub fn duplicate(&self) -> (r: PartWithDetails)
        ensures
            r@ == (*self)@,
    {
        let mut ids: Vec<String> = Vec::new();
        let n = self.other_ids.len();
        let mut i: usize = 0;
        while i < n
            invariant
                0 <= i <= n,
                n == self.other_ids@.len(),
                ids@ == self.other_ids@.take(i as int),
            decreases n - i,
        {
            ids.push(self.other_ids[i].clone());
            proof {
                assert(ids@ =~= self.other_ids@.take(i + 1));
            }
            i = i + 1;
        }
        proof {
            assert(self.other_ids@.take(n as int) =~= self.other_ids@);
        }
        PartWithDetails {
            id: self.id.clone(),
            name: self.name.clone(),
            description: self.description.clone(),
            price: self.price.clone(),
            stock: self.stock,
            other_ids: ids,
        }
    }

    /// The alternate ids as one sink column: comma-joined, in order.
    pub fn other_ids_joined(&self) -> (r: String)
        ensures
            r@ == crate::text::spec_join(self.other_ids.deep_view(), ','),
    {
        crate::text::join_with(&self.other_ids, ',')
    }
}

/// Why an extraction step failed, naming the step.
#[derive(Debug, Clone, Copy, PartialEq, Eq, Structural)]
pub enum ExtractError {
    /// A price cell has no paragraph to read the price from.
    PriceCellWithoutParagraph,
    /// The first token of a price text is not a non-negative decimal literal.
    InvalidPriceToken,
    /// The description region of a detail page shows no non-blank text, so
    /// neither a description nor the alternate ids can be read.
    DescriptionRegionEmpty,
}

} // verus!
