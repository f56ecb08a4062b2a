//! Data model of what the page-scraping collaborators hand back, and the
//! media filtering rules of the language.
//!
//! Fetching pages and reading markup belong to the collaborators around the
//! library; what is verified here is the logic applied to their results:
//! which media items survive a block's filters.

use vstd::prelude::*;

use crate::ast::FilterSpec;
use crate::ast::MediaFilter;
use crate::ast::deep_view_filters;
use crate::text::spec_contains;
use crate::text::spec_ends_with;
use crate::text::str_contains;
use crate::text::str_ends_with;
use crate::text::str_eq;

pub use crate::ast::MediaType;

verus! {

broadcast use vstd::std_specs::vec::group_vec_axioms, vstd::seq::group_seq_axioms;

/// Model of a sequence of string pairs: the character sequences of both
/// sides, in order.
pub open spec fn deep_view_pairs(s: Seq<(String, String)>) -> Seq<(Seq<char>, Seq<char>)> {
    Seq::new(s.len(), |i: int| (s[i].0@, s[i].1@))
}

/// One media item found on a page.
#[derive(Debug, PartialEq)]
pub struct MediaItem {
    pub url: String,
    pub media_type: MediaType,
    pub filename: Option<String>,
    pub attributes: Vec<(String, String)>,
}

/// Model of a media item.
pub struct ItemSpec {
    pub url: Seq<char>,
    pub media_type: MediaType,
    pub filename: Option<Seq<char>>,
    pub attributes: Seq<(Seq<char>, Seq<char>)>,
}

impl DeepView for MediaItem {
    type V = ItemSpec;

    open spec fn deep_view(&self) -> ItemSpec {
        ItemSpec {
            url: self.url@,
            media_type: self.media_type,
            filename: match self.filename {
                Some(f) => Some(f@),
                None => None,
            },
            attributes: deep_view_pairs(self.attributes@),
        }
    }
}

/// Model of a sequence of media items: the models of its elements, in order.
pub open spec fn deep_view_items(s: Seq<MediaItem>) -> Seq<ItemSpec> {
    Seq::new(s.len(), |i: int| s[i].deep_view())
}

impl Clone for MediaItem {
    /// Clones every field; the copy has the same model as the original.
    fn clone(&self) -> (r: Self)
        ensures
            r.deep_view() == self.deep_view(),
    {
        let mut attributes: Vec<(String, String)> = Vec::new();
        let mut i: usize = 0;
        while i < self.attributes.len()
            invariant
                0 <= i <= self.attributes@.len(),
                attributes@ =~= self.attributes@.subrange(0, i as int),
            decreases self.attributes@.len() - i,
        {
            let pair = (self.attributes[i].0.clone(), self.attributes[i].1.clone());
            attributes.push(pair);
            proof {
                assert(attributes@ =~= self.attributes@.subrange(0, i + 1));
            }
            i += 1;
        }
        proof {
            assert(self.attributes@.subrange(0, self.attributes@.len() as int)
                =~= self.attributes@);
        }
        let r = MediaItem {
            url: self.url.clone(),
            media_type: self.media_type,
            filename: match &self.filename {
                Some(f) => Some(f.clone()),
                None => None,
            },
            attributes,
        };
        proof {
            assert(deep_view_pairs(r.attributes@) =~= deep_view_pairs(self.attributes@));
        }
        r
    }
}

/// Everything a page fetch yields: the final URL, the page title, the links
/// and the media items found in the markup.
#[derive(Debug, PartialEq)]
pub struct ScrapingResult {
    pub url: String,
    pub title: Option<String>,
    pub links: Vec<String>,
    pub media: Vec<MediaItem>,
    pub variables: Vec<(String, String)>,
}

/// Whether one filter accepts a media item with URL `url`.
///
/// A `where` filter reads the `src` field (the only meaningful field, which
/// holds the item's URL): `~` is a substring test, `=` equality, `!=`
/// inequality; an unknown field or operator restricts nothing. An
/// `extensions` filter accepts a URL that ends with any listed suffix,
/// compared literally and case-sensitively.
pub open spec fn spec_filter_match(url: Seq<char>, f: FilterSpec) -> bool {
    match f {
        FilterSpec::Where { field, operator, value } => {
            if field == "src"@ {
                if operator == "~"@ {
                    spec_contains(url, value)
                } else if operator == "="@ {
                    url == value
                } else if operator == "!="@ {
                    url != value
                } else {
                    true
                }
            } else {
                true
            }
        },
        FilterSpec::Extensions { extensions } => exists|k: int|
            0 <= k < extensions.len() && spec_ends_with(url, #[trigger] extensions[k]),
    }
}

/// Whether every filter of a block accepts the URL: the filters of a block
/// are a conjunction, and a block with no filters accepts everything.
pub open spec fn spec_matches_all(url: Seq<char>, filters: Seq<FilterSpec>) -> bool {
    forall|i: int| 0 <= i < filters.len() ==> spec_filter_match(url, #[trigger] filters[i])
}

/// A block with exactly two filters accepts a URL if and only if both
/// filters accept it.
pub proof fn lemma_filter_conjunction(url: Seq<char>, f1: FilterSpec, f2: FilterSpec)
    ensures
        spec_matches_all(url, seq![f1, f2]) <==> (spec_filter_match(url, f1) && spec_filter_match(
            url,
            f2,
        )),
{
    assert(seq![f1, f2][0] == f1);
    assert(seq![f1, f2][1] == f2);
    if spec_filter_match(url, f1) && spec_filter_match(url, f2) {
        assert forall|i: int| 0 <= i < seq![f1, f2].len() implies spec_filter_match(
            url,
            seq![f1, f2][i],
        ) by {
            if i == 0 {
            } else {
                assert(i == 1);
            }
        }
    }
}

/// The items of `media`, in order, whose URL every filter accepts.
pub open spec fn spec_filter_media(media: Seq<ItemSpec>, filters: Seq<FilterSpec>) -> Seq<ItemSpec>
    decreases media.len(),
{
    if media.len() == 0 {
        Seq::empty()
    } else {
        let rest = spec_filter_media(media.drop_last(), filters);
        if spec_matches_all(media.last().url, filters) {
            rest.push(media.last())
        } else {
            rest
        }
    }
}

/// An item stands in the filtered sequence exactly when it stands in the
/// input and every filter accepts its URL.
pub proof fn lemma_filter_media_membership(
    media: Seq<ItemSpec>,
    filters: Seq<FilterSpec>,
    item: ItemSpec,
)
    ensures
        spec_filter_media(media, filters).contains(item) <==> (media.contains(item)
            && spec_matches_all(item.url, filters)),
    decreases media.len(),
{
    if media.len() == 0 {
    } else {
        let rest = media.drop_last();
        lemma_filter_media_membership(rest, filters, item);
        let fm = spec_filter_media(media, filters);
        let fr = spec_filter_media(rest, filters);
        if spec_matches_all(media.last().url, filters) {
            assert(fm == fr.push(media.last()));
            assert(fm.contains(item) <==> (fr.contains(item) || item == media.last())) by {
                if fm.contains(item) {
                    let w = choose|w: int| 0 <= w < fm.len() && fm[w] == item;
                    if w < fr.len() {
                        assert(fr[w] == item);
                    }
                }
                if fr.contains(item) {
                    let w = choose|w: int| 0 <= w < fr.len() && fr[w] == item;
                    assert(fm[w] == item);
                }
                if item == media.last() {
                    assert(fm[fm.len() - 1] == item);
                }
            }
        }
        assert(media.contains(item) <==> (rest.contains(item) || item == media.last())) by {
            if media.contains(item) {
                let w = choose|w: int| 0 <= w < media.len() && media[w] == item;
                if w < rest.len() {
                    assert(rest[w] == item);
                }
            }
            if rest.contains(item) {
                let w = choose|w: int| 0 <= w < rest.len() && rest[w] == item;
                assert(media[w] == item);
            }
            if item == media.last() {
                assert(media[media.len() - 1] == item);
            }
        }
    }
}

/// Whether one filter accepts the item's URL.
fn filter_matches(url: &String, f: &MediaFilter) -> (r: bool)
    ensures
        r == spec_filter_match(url@, f.deep_view()),
{
    match f {
        MediaFilter::Where { field, operator, value } => {
            if str_eq(field.as_str(), "src") {
                if str_eq(operator.as_str(), "~") {
                    str_contains(url.as_str(), value.as_str())
                } else if str_eq(operator.as_str(), "=") {
                    str_eq(url.as_str(), value.as_str())
                } else if str_eq(operator.as_str(), "!=") {
                    !str_eq(url.as_str(), value.as_str())
                } else {
                    true
                }
            } else {
                true
            }
        },
        MediaFilter::Extensions { extensions } => {
            let mut i: usize = 0;
            let n = extensions.len();
            while i < n
                invariant
                    n == extensions@.len(),
                    0 <= i <= n,
                    f.deep_view() == (FilterSpec::Extensions {
                        extensions: crate::ast::deep_view_strs(extensions@),
                    }),
                    forall|k: int|
                        0 <= k < i ==> !spec_ends_with(url@, #[trigger] extensions@[k]@),
                decreases n - i,
            {
                if str_ends_with(url.as_str(), extensions[i].as_str()) {
                    proof {
                        let dv = crate::ast::deep_view_strs(extensions@);
                        assert(dv[i as int] == extensions@[i as int]@);
                        assert(spec_ends_with(url@, dv[i as int]));
                        match f.deep_view() {
                            FilterSpec::Extensions { extensions: dvx } => {
                                assert(dvx == dv);
                                assert(spec_ends_with(url@, dvx[i as int]));
                                assert(exists|k: int|
                                    0 <= k < dvx.len() && spec_ends_with(
                                        url@,
                                        #[trigger] dvx[k],
                                    ));
                            },
                            _ => {
                                assert(false);
                            },
                        }
                        assert(spec_filter_match(url@, f.deep_view()));
                    }
                    return true;
                }
                i += 1;
            }
            proof {
                let dv = crate::ast::deep_view_strs(extensions@);
                assert(forall|k: int| 0 <= k < dv.len() ==> dv[k] == extensions@[k]@);
            }
            false
        },
    }
}

/// Whether every filter in the list accepts the item's URL.
pub fn media_item_matches(item: &MediaItem, filters: &Vec<MediaFilter>) -> (r: bool)
    ensures
        r == spec_matches_all(item.url@, deep_view_filters(filters@)),
{
    let mut i: usize = 0;
    let n = filters.len();
    while i < n
        invariant
            n == filters@.len(),
            0 <= i <= n,
            forall|k: int|
                0 <= k < i ==> spec_filter_match(
                    item.url@,
                    #[trigger] deep_view_filters(filters@)[k],
                ),
        decreases n - i,
    {
        if !filter_matches(&item.url, &filters[i]) {
            proof {
                assert(deep_view_filters(filters@)[i as int] == filters@[i as int].deep_view());
            }
            return false;
        }
        i += 1;
    }
    true
}

/// Keeps the items, in order, whose URL every filter accepts.
pub fn filter_media(media: &Vec<MediaItem>, filters: &Vec<MediaFilter>) -> (r: Vec<MediaItem>)
    ensures
        deep_view_items(r@) == spec_filter_media(
            deep_view_items(media@),
            deep_view_filters(filters@),
        ),
{
    let mut out: Vec<MediaItem> = Vec::new();
    let mut i: usize = 0;
    while i < media.len()
        invariant
            0 <= i <= media@.len(),
            deep_view_items(out@) == spec_filter_media(
                deep_view_items(media@.subrange(0, i as int)),
                deep_view_filters(filters@),
            ),
        decreases media@.len() - i,
    {
        proof {
            let prefix1 = deep_view_items(media@.subrange(0, i + 1));
            assert(prefix1.drop_last() =~= deep_view_items(media@.subrange(0, i as int)));
            assert(prefix1.last() == media@[i as int].deep_view());
        }
        let ghost out0 = out@;
        if media_item_matches(&media[i], filters) {
            out.push(media[i].clone());
            proof {
                assert(deep_view_items(out@) =~= deep_view_items(out0).push(
                    media@[i as int].deep_view(),
                ));
            }
        }
        i += 1;
    }
    proof {
        assert(deep_view_items(media@.subrange(0, media@.len() as int))
            =~= deep_view_items(media@));
    }
    out
}

} // verus!
