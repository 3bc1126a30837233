//! Gacha metadata: per business, the item entries of each locale and the
//! banners of each gacha type, with the lookups the manual-insert rules use.

use vstd::prelude::*;

use crate::business::AccountBusiness;
use crate::gacha_time::GachaTime;
use crate::text::str_eq;

verus! {

/// The first element of `s` that satisfies `p`.
pub open spec fn first_where<T>(s: Seq<T>, p: spec_fn(T) -> bool) -> Option<T>
    decreases s.len(),
{
    if s.len() == 0 {
        None
    } else if p(s[0]) {
        Some(s[0])
    } else {
        first_where(s.drop_first(), p)
    }
}

/// One step of a left-to-right search for the first element satisfying `p`.
pub proof fn lemma_first_where_step<T>(s: Seq<T>, p: spec_fn(T) -> bool, i: int)
    requires
        0 <= i < s.len(),
    ensures
        first_where(s.skip(i), p) == (if p(s[i]) {
            Some(s[i])
        } else {
            first_where(s.skip(i + 1), p)
        }),
{
    assert(s.skip(i).drop_first() =~= s.skip(i + 1));
}

/// A search that has passed the whole sequence has found nothing.
pub proof fn lemma_first_where_end<T>(s: Seq<T>, p: spec_fn(T) -> bool)
    ensures
        first_where(s.skip(s.len() as int), p) is None,
        first_where(s.skip(0), p) == first_where(s, p),
{
    assert(s.skip(0) =~= s);
}

/// The first element satisfying `p` satisfies it and belongs to `s`; when there
/// is none, no element satisfies `p`.
pub proof fn lemma_first_where_found<T>(s: Seq<T>, p: spec_fn(T) -> bool)
    ensures
        first_where(s, p) matches Some(x) ==> p(x) && s.contains(x),
        first_where(s, p) is None <==> (forall|i: int| 0 <= i < s.len() ==> !p(#[trigger] s[i])),
    decreases s.len(),
{
    if s.len() > 0 {
        lemma_first_where_found(s.drop_first(), p);
        if !p(s[0]) {
            if first_where(s.drop_first(), p) is None {
                assert forall|i: int| 0 <= i < s.len() implies !p(#[trigger] s[i]) by {
                    if i > 0 {
                        assert(s[i] == s.drop_first()[i - 1]);
                    }
                }
            } else {
                let x = first_where(s.drop_first(), p)->0;
                let j = choose|j: int| 0 <= j < s.drop_first().len() && s.drop_first()[j] == x;
                assert(s[j + 1] == x);
            }
        } else {
            assert(s[0] == s[0]);
        }
    }
}

/// An item of the metadata: its id, localized name, category key, localized
/// category name and rank.
#[derive(Debug)]
pub struct MetadataEntry {
    pub item_id: u32,
    pub item_name: String,
    pub category: String,
    pub category_name: String,
    pub rank_type: u8,
}

impl Clone for MetadataEntry {
    fn clone(&self) -> (r: Self)
        ensures
            r == *self,
    {
        MetadataEntry {
            item_id: self.item_id,
            item_name: self.item_name.clone(),
            category: self.category.clone(),
            category_name: self.category_name.clone(),
            rank_type: self.rank_type,
        }
    }
}

/// Whether an entry carries the name `name`.
pub open spec fn entry_named(name: Seq<char>) -> spec_fn(MetadataEntry) -> bool {
    |e: MetadataEntry| e.item_name@ == name
}

/// Whether an entry carries the id `item_id`.
pub open spec fn entry_with_id(item_id: u32) -> spec_fn(MetadataEntry) -> bool {
    |e: MetadataEntry| e.item_id == item_id
}

/// The entries of one language.
pub struct MetadataLocale {
    pub lang: String,
    pub entries: Vec<MetadataEntry>,
}

impl MetadataLocale {
    /// The first entry named `name`.
    pub fn entry_from_name_first(&self, name: &str) -> (r: Option<MetadataEntry>)
        ensures
            r == first_where(self.entries@, entry_named(name@)),
    {
        let ghost p = entry_named(name@);
        proof {
            lemma_first_where_end(self.entries@, p);
        }
        let mut i: usize = 0;
        while i < self.entries.len()
            invariant
                p == entry_named(name@),
                i <= self.entries@.len(),
                first_where(self.entries@, p) == first_where(self.entries@.skip(i as int), p),
            decreases self.entries@.len() - i,
        {
            proof {
                lemma_first_where_step(self.entries@, p, i as int);
            }
            if str_eq(self.entries[i].item_name.as_str(), name) {
                return Some(self.entries[i].clone());
            }
            i = i + 1;
        }
        proof {
            lemma_first_where_end(self.entries@, p);
        }
        None
    }

    /// The first entry with id `item_id`.
    pub fn entry_from_id(&self, item_id: u32) -> (r: Option<MetadataEntry>)
        ensures
            r == first_where(self.entries@, entry_with_id(item_id)),
    {
        let ghost p = entry_with_id(item_id);
        proof {
            lemma_first_where_end(self.entries@, p);
        }
        let mut i: usize = 0;
        while i < self.entries.len()
            invariant
                p == entry_with_id(item_id),
                i <= self.entries@.len(),
                first_where(self.entries@, p) == first_where(self.entries@.skip(i as int), p),
            decreases self.entries@.len() - i,
        {
            proof {
                lemma_first_where_step(self.entries@, p, i as int);
            }
            if self.entries[i].item_id == item_id {
                return Some(self.entries[i].clone());
            }
            i = i + 1;
        }
        proof {
            lemma_first_where_end(self.entries@, p);
        }
        None
    }
}

/// A banner of a gacha type: when it runs, its game version, and the ids of its
/// featured top-rank items.
pub struct MetadataBanner {
    pub start_time: GachaTime,
    pub end_time: GachaTime,
    pub version: Option<String>,
    pub up_golden: Vec<u32>,
}

impl MetadataBanner {
    /// Whether `item_id` is a featured top-rank item of this banner.
    pub fn is_up_golden(&self, item_id: u32) -> (r: bool)
        ensures
            r == self.up_golden@.contains(item_id),
    {
        let mut i: usize = 0;
        while i < self.up_golden.len()
            invariant
                i <= self.up_golden@.len(),
                forall|j: int| 0 <= j < i ==> self.up_golden@[j] != item_id,
            decreases self.up_golden@.len() - i,
        {
            if self.up_golden[i] == item_id {
                return true;
            }
            i = i + 1;
        }
        false
    }
}

/// The banners of one gacha type.
pub struct GachaTypeBanners {
    pub gacha_type: u32,
    pub banners: Vec<MetadataBanner>,
}

/// The metadata of one business: its locales and its banners by gacha type.
pub struct BusinessMetadata {
    pub business: AccountBusiness,
    pub locales: Vec<MetadataLocale>,
    pub banners: Vec<GachaTypeBanners>,
}

/// The metadata of all businesses.
pub struct GachaMetadata {
    pub businesses: Vec<BusinessMetadata>,
}

/// Whether business metadata is that of `business`.
pub open spec fn metadata_of(business: AccountBusiness) -> spec_fn(BusinessMetadata) -> bool {
    |m: BusinessMetadata| m.business == business
}

/// Whether a locale is that of language `lang`.
pub open spec fn locale_of(lang: Seq<char>) -> spec_fn(MetadataLocale) -> bool {
    |l: MetadataLocale| l.lang@ == lang
}

/// Whether a banner list is that of gacha type `gacha_type`.
pub open spec fn banners_of(gacha_type: u32) -> spec_fn(GachaTypeBanners) -> bool {
    |b: GachaTypeBanners| b.gacha_type == gacha_type
}

impl GachaMetadata {
    /// The metadata of `business`.
    pub open spec fn business_spec(&self, business: AccountBusiness) -> Option<BusinessMetadata> {
        first_where(self.businesses@, metadata_of(business))
    }

    /// The locales of `business`.
    pub open spec fn locales_spec(&self, business: AccountBusiness) -> Option<Seq<MetadataLocale>> {
        match self.business_spec(business) {
            Some(m) => Some(m.locales@),
            None => None,
        }
    }

    /// The locale of language `lang` of `business`.
    pub open spec fn locale_spec(&self, business: AccountBusiness, lang: Seq<char>) -> Option<
        MetadataLocale,
    > {
        match self.business_spec(business) {
            Some(m) => first_where(m.locales@, locale_of(lang)),
            None => None,
        }
    }

    /// The banners of `gacha_type` of `business` (none when there is no such list).
    pub open spec fn banners_spec(&self, business: AccountBusiness, gacha_type: u32) -> Seq<
        MetadataBanner,
    > {
        match self.business_spec(business) {
            Some(m) => match first_where(m.banners@, banners_of(gacha_type)) {
                Some(b) => b.banners@,
                None => Seq::empty(),
            },
            None => Seq::empty(),
        }
    }

    fn business_index(&self, business: AccountBusiness) -> (r: Option<usize>)
        ensures
            r is None <==> self.business_spec(business) is None,
            r matches Some(i) ==> i < self.businesses@.len() && self.business_spec(business)
                == Some(self.businesses@[i as int]),
    {
        let ghost p = metadata_of(business);
        proof {
            lemma_first_where_end(self.businesses@, p);
        }
        let mut i: usize = 0;
        while i < self.businesses.len()
            invariant
                p == metadata_of(business),
                i <= self.businesses@.len(),
                first_where(self.businesses@, p) == first_where(
                    self.businesses@.skip(i as int),
                    p,
                ),
            decreases self.businesses@.len() - i,
        {
            proof {
                lemma_first_where_step(self.businesses@, p, i as int);
            }
            if self.businesses[i].business == business {
                return Some(i);
            }
            i = i + 1;
        }
        proof {
            lemma_first_where_end(self.businesses@, p);
        }
        None
    }

    /// The locales of `business`.
    pub fn locales(&self, business: AccountBusiness) -> (r: Option<&Vec<MetadataLocale>>)
        ensures
            r is None <==> self.locales_spec(business) is None,
            r matches Some(v) ==> self.locales_spec(business) == Some(v@),
    {
        match self.business_index(business) {
            Some(i) => Some(&self.businesses[i].locales),
            None => None,
        }
    }

    /// The locale of language `lang` of `business`.
    #[verifier::loop_isolation(false)]
    pub fn locale(&self, business: AccountBusiness, lang: &str) -> (r: Option<&MetadataLocale>)
        ensures
            r is None <==> self.locale_spec(business, lang@) is None,
            r matches Some(l) ==> self.locale_spec(business, lang@) == Some(*l),
    {
        let locales = match self.locales(business) {
            Some(v) => v,
            None => return None,
        };
        let ghost p = locale_of(lang@);
        proof {
            lemma_first_where_end(locales@, p);
        }
        let mut i: usize = 0;
        while i < locales.len()
            invariant
                p == locale_of(lang@),
                i <= locales@.len(),
                first_where(locales@, p) == first_where(locales@.skip(i as int), p),
            decreases locales@.len() - i,
        {
            proof {
                lemma_first_where_step(locales@, p, i as int);
            }
            if str_eq(locales[i].lang.as_str(), lang) {
                return Some(&locales[i]);
            }
            i = i + 1;
        }
        proof {
            lemma_first_where_end(locales@, p);
        }
        None
    }

    /// The banners of `gacha_type` of `business`; an empty list when there are none.
    #[verifier::loop_isolation(false)]
    pub fn banners(&self, business: AccountBusiness, gacha_type: u32) -> (r: &[MetadataBanner])
        ensures
            r@ == self.banners_spec(business, gacha_type),
    {
        let m = match self.business_index(business) {
            Some(i) => &self.businesses[i],
            None => return &[],
        };
        let ghost p = banners_of(gacha_type);
        proof {
            lemma_first_where_end(m.banners@, p);
        }
        let mut i: usize = 0;
        while i < m.banners.len()
            invariant
                p == banners_of(gacha_type),
                i <= m.banners@.len(),
                first_where(m.banners@, p) == first_where(m.banners@.skip(i as int), p),
            decreases m.banners@.len() - i,
        {
            proof {
                lemma_first_where_step(m.banners@, p, i as int);
            }
            if m.banners[i].gacha_type == gacha_type {
                return m.banners[i].banners.as_slice();
            }
            i = i + 1;
        }
        proof {
            lemma_first_where_end(m.banners@, p);
        }
        &[]
    }
}

/// The name of the item `item_id` in language `locale` of `business`, when both
/// the locale and the item are known.
pub fn business_gacha_metadata_item_name_from_id(
    metadata: &GachaMetadata,
    business: AccountBusiness,
    item_id: u32,
    locale: &str,
) -> (r: Option<String>)
    ensures
        r is Some <==> (metadata.locale_spec(business, locale@) matches Some(l) && first_where(
            l.entries@,
            entry_with_id(item_id),
        ) is Some),
        r matches Some(name) ==> name@ == first_where(
            metadata.locale_spec(business, locale@)->0.entries@,
            entry_with_id(item_id),
        )->0.item_name@,
{
    let l = metadata.locale(business, locale)?;
    match l.entry_from_id(item_id) {
        Some(entry) => Some(entry.item_name),
        None => None,
    }
}

} // verus!
