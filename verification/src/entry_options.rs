//! The top-rank entries offered for a manual insertion, each with the banners
//! that featured it.

use vstd::prelude::*;

use crate::business::AccountBusiness;
use crate::gacha_time::{GachaTime, time_ge_spec};
use crate::manual_insert::{
    ManualInsertErrorView, ManualInsertGachaRecordsError, entry_matches_spec,
    golden_categories_spec, golden_rank_spec, manual_insert_entry_match,
    manual_insert_required_golden_rank, manual_insert_supported_golden_categories,
    is_supported_manual_insert_gacha_type, resolve_manual_insert_locale, resolved_locale_spec,
    supported_manual_insert_gacha_type_spec,
};
use crate::metadata::{GachaMetadata, MetadataBanner, MetadataEntry};
use crate::sort::{
    SortKey, is_stable_sort_of, lemma_stable_sort_same_elements, stable_sort, stable_sort_witness,
};
use crate::text::{
    lemma_seq_lex_le_antisym, lemma_seq_lex_le_total, lemma_seq_lex_le_trans, seq_lex_le, str_eq,
    str_lex_le,
};

verus! {

/// A banner that featured an entry.
#[derive(Clone, Debug)]
pub struct ManualInsertUpBanner {
    pub start_time: GachaTime,
    pub end_time: GachaTime,
    pub version: Option<String>,
}

/// A top-rank entry that a manual insertion may end with.
#[derive(Clone, Debug)]
pub struct ManualInsertEntryOption {
    pub item_id: u32,
    pub name: String,
    pub item_type: String,
    pub rank_type: u8,
    pub up_banners: Vec<ManualInsertUpBanner>,
}

impl SortKey for ManualInsertUpBanner {
    /// Later banners first.
    open spec fn sorts_before(self, other: Self) -> bool {
        time_ge_spec(self.start_time, other.start_time)
    }

    fn sorts_before_exec(&self, other: &Self) -> (r: bool) {
        self.start_time.is_at_or_after(&other.start_time)
    }

    proof fn lemma_sorts_before_total(a: Self, b: Self) {
    }

    proof fn lemma_sorts_before_trans(a: Self, b: Self, c: Self) {
    }
}

impl SortKey for ManualInsertEntryOption {
    /// By item type, then name, then id.
    open spec fn sorts_before(self, other: Self) -> bool {
        if self.item_type@ != other.item_type@ {
            seq_lex_le(self.item_type@, other.item_type@)
        } else if self.name@ != other.name@ {
            seq_lex_le(self.name@, other.name@)
        } else {
            self.item_id <= other.item_id
        }
    }

    fn sorts_before_exec(&self, other: &Self) -> (r: bool) {
        if !str_eq(self.item_type.as_str(), other.item_type.as_str()) {
            str_lex_le(self.item_type.as_str(), other.item_type.as_str())
        } else if !str_eq(self.name.as_str(), other.name.as_str()) {
            str_lex_le(self.name.as_str(), other.name.as_str())
        } else {
            self.item_id <= other.item_id
        }
    }

    proof fn lemma_sorts_before_total(a: Self, b: Self) {
        lemma_seq_lex_le_total(a.item_type@, b.item_type@);
        lemma_seq_lex_le_total(a.name@, b.name@);
    }

    proof fn lemma_sorts_before_trans(a: Self, b: Self, c: Self) {
        lemma_lex_step(a.item_type@, b.item_type@, c.item_type@);
        if a.item_type@ == b.item_type@ && b.item_type@ == c.item_type@ {
            lemma_lex_step(a.name@, b.name@, c.name@);
        }
    }
}

/// Chaining the "differs and is ordered, or equal" relation of two keys.
proof fn lemma_lex_step(x: Seq<char>, y: Seq<char>, z: Seq<char>)
    ensures
        (x != y ==> seq_lex_le(x, y)) && (y != z ==> seq_lex_le(y, z)) && (x != y || y != z) ==> x
            != z && seq_lex_le(x, z),
{
    if (x != y ==> seq_lex_le(x, y)) && (y != z ==> seq_lex_le(y, z)) && (x != y || y != z) {
        if x != y && y != z {
            lemma_seq_lex_le_trans(x, y, z);
            if x == z {
                lemma_seq_lex_le_antisym(x, y);
            }
        }
    }
}

/// The banners of `banners` that feature `item_id`, in order, as up banners.
pub open spec fn up_banners_unsorted_spec(banners: Seq<MetadataBanner>, item_id: u32) -> Seq<
    ManualInsertUpBanner,
>
    decreases banners.len(),
{
    if banners.len() == 0 {
        Seq::empty()
    } else {
        let prev = up_banners_unsorted_spec(banners.drop_last(), item_id);
        let b = banners.last();
        if b.up_golden@.contains(item_id) {
            prev.push(
                ManualInsertUpBanner {
                    start_time: b.start_time,
                    end_time: b.end_time,
                    version: b.version,
                },
            )
        } else {
            prev
        }
    }
}

/// The entries of `entries` with the rank and one of the categories, in order.
pub open spec fn golden_entries_spec(
    entries: Seq<MetadataEntry>,
    categories: Seq<&'static str>,
    golden_rank: u8,
) -> Seq<MetadataEntry>
    decreases entries.len(),
{
    if entries.len() == 0 {
        Seq::empty()
    } else {
        let prev = golden_entries_spec(entries.drop_last(), categories, golden_rank);
        if entry_matches_spec(entries.last(), categories, golden_rank) {
            prev.push(entries.last())
        } else {
            prev
        }
    }
}

/// `option` offers `entry`, with the banners that featured it, latest first.
pub open spec fn is_entry_option_of(
    option: ManualInsertEntryOption,
    entry: MetadataEntry,
    banners: Seq<MetadataBanner>,
) -> bool {
    &&& option.item_id == entry.item_id
    &&& option.name == entry.item_name
    &&& option.item_type == entry.category_name
    &&& option.rank_type == entry.rank_type
    &&& is_stable_sort_of(option.up_banners@, up_banners_unsorted_spec(banners, entry.item_id))
}

/// `options` offer `entries`, one option each, sorted by item type, name and id.
pub open spec fn is_entry_options_of(
    options: Seq<ManualInsertEntryOption>,
    entries: Seq<MetadataEntry>,
    banners: Seq<MetadataBanner>,
) -> bool {
    exists|unsorted: Seq<ManualInsertEntryOption>|
        {
            &&& unsorted.len() == entries.len()
            &&& forall|i: int|
                0 <= i < entries.len() ==> is_entry_option_of(
                    #[trigger] unsorted[i],
                    entries[i],
                    banners,
                )
            &&& is_stable_sort_of(options, unsorted)
        }
}

fn up_banners_of(banners: &[MetadataBanner], item_id: u32) -> (r: Vec<ManualInsertUpBanner>)
    ensures
        r@ == up_banners_unsorted_spec(banners@, item_id),
{
    let mut v: Vec<ManualInsertUpBanner> = Vec::new();
    let mut i: usize = 0;
    while i < banners.len()
        invariant
            i <= banners@.len(),
            v@ == up_banners_unsorted_spec(banners@.take(i as int), item_id),
        decreases banners@.len() - i,
    {
        let b = &banners[i];
        assert(banners@.take(i + 1).drop_last() =~= banners@.take(i as int));
        if b.is_up_golden(item_id) {
            let version = match &b.version {
                Some(s) => Some(s.clone()),
                None => None,
            };
            v.push(ManualInsertUpBanner { start_time: b.start_time, end_time: b.end_time, version });
        }
        i = i + 1;
    }
    assert(banners@.take(banners@.len() as int) =~= banners@);
    v
}

/// The top-rank entries offered for a manual insertion into `gacha_type`, in the
/// locale resolved from `custom_locale`, sorted by item type, name and id, each
/// with the banners that featured it, latest first.
pub fn business_manual_insert_gacha_entry_options(
    metadata: &GachaMetadata,
    business: AccountBusiness,
    gacha_type: u32,
    custom_locale: Option<String>,
) -> (r: Result<Vec<ManualInsertEntryOption>, ManualInsertGachaRecordsError>)
    ensures
        !supported_manual_insert_gacha_type_spec(business, gacha_type) ==> (r matches Err(e)
            && e@ == (ManualInsertErrorView::UnsupportedGachaType { business, gacha_type })),
        supported_manual_insert_gacha_type_spec(business, gacha_type) ==> match metadata.locale_spec(
            business,
            resolved_locale_spec(custom_locale),
        ) {
            None => (r matches Err(e) && e@ == (ManualInsertErrorView::MissingMetadataLocale {
                business,
                locale: resolved_locale_spec(custom_locale),
            })),
            Some(locale) => match golden_categories_spec(business, gacha_type) {
                Err(ev) => (r matches Err(e) && e@ == ev),
                Ok(categories) => match golden_rank_spec(business) {
                    Err(ev) => (r matches Err(e) && e@ == ev),
                    Ok(golden_rank) => (r matches Ok(options) && is_entry_options_of(
                        options@,
                        golden_entries_spec(locale.entries@, categories, golden_rank),
                        metadata.banners_spec(business, gacha_type),
                    )),
                },
            },
        },
{
    if !is_supported_manual_insert_gacha_type(business, gacha_type) {
        return Err(ManualInsertGachaRecordsError::UnsupportedGachaType { business, gacha_type });
    }
    let locale_name = resolve_manual_insert_locale(custom_locale);
    let locale = match metadata.locale(business, locale_name.as_str()) {
        Some(l) => l,
        None => {
            return Err(
                ManualInsertGachaRecordsError::MissingMetadataLocale {
                    business,
                    locale: locale_name,
                },
            );
        },
    };
    let categories = match manual_insert_supported_golden_categories(business, gacha_type) {
        Ok(c) => c,
        Err(e) => return Err(e),
    };
    let golden_rank = match manual_insert_required_golden_rank(business) {
        Ok(rank) => rank,
        Err(e) => return Err(e),
    };
    let banners = metadata.banners(business, gacha_type);
    let ghost entries = locale.entries@;
    let ghost golden = golden_entries_spec(entries, categories@, golden_rank);
    let mut unsorted: Vec<ManualInsertEntryOption> = Vec::new();
    let mut i: usize = 0;
    while i < locale.entries.len()
        invariant
            entries == locale.entries@,
            i <= entries.len(),
            unsorted@.len() == golden_entries_spec(entries.take(i as int), categories@, golden_rank).len(),
            forall|k: int|
                0 <= k < unsorted@.len() ==> is_entry_option_of(
                    #[trigger] unsorted@[k],
                    golden_entries_spec(entries.take(i as int), categories@, golden_rank)[k],
                    banners@,
                ),
        decreases entries.len() - i,
    {
        let entry = &locale.entries[i];
        assert(entries.take(i + 1).drop_last() =~= entries.take(i as int));
        if manual_insert_entry_match(entry, categories.as_slice(), golden_rank) {
            let up_banners = stable_sort(up_banners_of(banners, entry.item_id));
            unsorted.push(
                ManualInsertEntryOption {
                    item_id: entry.item_id,
                    name: entry.item_name.clone(),
                    item_type: entry.category_name.clone(),
                    rank_type: entry.rank_type,
                    up_banners,
                },
            );
        }
        i = i + 1;
    }
    assert(entries.take(entries.len() as int) =~= entries);
    let ghost before = unsorted@;
    let options = stable_sort(unsorted);
    assert(is_stable_sort_of(options@, before));
    Ok(options)
}

/// Whether one of the allowed categories is the category key of `entry`.
pub open spec fn category_key_allowed(categories: Seq<&'static str>, entry: MetadataEntry) -> bool {
    exists|c: int| 0 <= c < categories.len() && (#[trigger] categories[c])@ == entry.category@
}

/// Whether some option of `options` offers `entry`: its id, its name, its
/// localized category name as item type, and its rank.
pub open spec fn offered_in(options: Seq<ManualInsertEntryOption>, entry: MetadataEntry) -> bool {
    exists|k: int|
        0 <= k < options.len() && {
            let o = #[trigger] options[k];
            &&& o.item_id == entry.item_id
            &&& o.name@ == entry.item_name@
            &&& o.item_type@ == entry.category_name@
            &&& o.rank_type == entry.rank_type
        }
}

/// Whether `option` offers some entry of `entries` that has rank `golden_rank`
/// and an allowed category key.
pub open spec fn offers_golden_entry(
    option: ManualInsertEntryOption,
    entries: Seq<MetadataEntry>,
    categories: Seq<&'static str>,
    golden_rank: u8,
) -> bool {
    exists|j: int|
        0 <= j < entries.len() && {
            let e = #[trigger] entries[j];
            &&& e.rank_type == golden_rank
            &&& category_key_allowed(categories, e)
            &&& option.item_id == e.item_id
            &&& option.name@ == e.item_name@
            &&& option.item_type@ == e.category_name@
            &&& option.rank_type == e.rank_type
        }
}

proof fn lemma_golden_entries_members(
    entries: Seq<MetadataEntry>,
    categories: Seq<&'static str>,
    golden_rank: u8,
)
    ensures
        forall|k: int|
            0 <= k < golden_entries_spec(entries, categories, golden_rank).len() ==> entries.contains(
                #[trigger] golden_entries_spec(entries, categories, golden_rank)[k],
            ) && entry_matches_spec(
                golden_entries_spec(entries, categories, golden_rank)[k],
                categories,
                golden_rank,
            ),
        forall|j: int|
            0 <= j < entries.len() && entry_matches_spec(#[trigger] entries[j], categories, golden_rank)
                ==> golden_entries_spec(entries, categories, golden_rank).contains(entries[j]),
    decreases entries.len(),
{
    if entries.len() > 0 {
        let q = entries.drop_last();
        lemma_golden_entries_members(q, categories, golden_rank);
        let g = golden_entries_spec(entries, categories, golden_rank);
        let gq = golden_entries_spec(q, categories, golden_rank);
        assert forall|k: int| 0 <= k < g.len() implies entries.contains(#[trigger] g[k])
            && entry_matches_spec(g[k], categories, golden_rank) by {
            if k < gq.len() {
                assert(g[k] == gq[k]);
                let j = choose|j: int| 0 <= j < q.len() && q[j] == gq[k];
                assert(entries[j] == q[j]);
            } else {
                assert(g[k] == entries.last());
                assert(entries[entries.len() - 1] == entries.last());
            }
        }
        assert forall|j: int|
            0 <= j < entries.len() && entry_matches_spec(#[trigger] entries[j], categories, golden_rank)
            implies g.contains(entries[j]) by {
            if j < q.len() {
                assert(q[j] == entries[j]);
                let k = choose|k: int| 0 <= k < gq.len() && gq[k] == q[j];
                assert(g[k] == gq[k]);
            } else {
                assert(g[g.len() - 1] == entries[j]);
            }
        }
    }
}

/// The options offered for a manual insertion are exactly the entries of the
/// locale with the top rank and an allowed category key: each option carries
/// the id, name, localized category name (as item type) and rank of such an
/// entry, every such entry is offered, and the options are ordered by item
/// type, then name, then id.
pub proof fn lemma_entry_options_offer_golden_entries(
    options: Seq<ManualInsertEntryOption>,
    entries: Seq<MetadataEntry>,
    categories: Seq<&'static str>,
    golden_rank: u8,
    banners: Seq<MetadataBanner>,
)
    requires
        is_entry_options_of(options, golden_entries_spec(entries, categories, golden_rank), banners),
    ensures
        forall|k: int|
            0 <= k < options.len() ==> offers_golden_entry(
                #[trigger] options[k],
                entries,
                categories,
                golden_rank,
            ),
        forall|j: int|
            0 <= j < entries.len() && entries[j].rank_type == golden_rank && category_key_allowed(
                categories,
                #[trigger] entries[j],
            ) ==> offered_in(options, entries[j]),
        forall|k: int, l: int|
            #![trigger options[k], options[l]]
            0 <= k < l < options.len() ==> if options[k].item_type@ != options[l].item_type@ {
                seq_lex_le(options[k].item_type@, options[l].item_type@)
            } else if options[k].name@ != options[l].name@ {
                seq_lex_le(options[k].name@, options[l].name@)
            } else {
                options[k].item_id <= options[l].item_id
            },
{
    let g = golden_entries_spec(entries, categories, golden_rank);
    let unsorted = choose|unsorted: Seq<ManualInsertEntryOption>|
        {
            &&& unsorted.len() == g.len()
            &&& forall|i: int|
                0 <= i < g.len() ==> is_entry_option_of(#[trigger] unsorted[i], g[i], banners)
            &&& is_stable_sort_of(options, unsorted)
        };
    lemma_stable_sort_same_elements(options, unsorted);
    lemma_golden_entries_members(entries, categories, golden_rank);
    assert forall|k: int| 0 <= k < options.len() implies offers_golden_entry(
        #[trigger] options[k],
        entries,
        categories,
        golden_rank,
    ) by {
        assert(unsorted.contains(options[k]));
        let i = choose|i: int| 0 <= i < unsorted.len() && unsorted[i] == options[k];
        assert(is_entry_option_of(unsorted[i], g[i], banners));
        assert(entries.contains(g[i]) && entry_matches_spec(g[i], categories, golden_rank));
        let j = choose|j: int| 0 <= j < entries.len() && entries[j] == g[i];
        assert(category_key_allowed(categories, entries[j]));
    }
    assert forall|j: int|
        0 <= j < entries.len() && entries[j].rank_type == golden_rank && category_key_allowed(
            categories,
            #[trigger] entries[j],
        ) implies offered_in(options, entries[j]) by {
        assert(entry_matches_spec(entries[j], categories, golden_rank));
        assert(g.contains(entries[j]));
        let i = choose|i: int| 0 <= i < g.len() && g[i] == entries[j];
        assert(is_entry_option_of(unsorted[i], g[i], banners));
        assert(options.contains(unsorted[i]));
        let k = choose|k: int| 0 <= k < options.len() && options[k] == unsorted[i];
        assert(options[k] == unsorted[i]);
    }
    let p = choose|p: Seq<int>| stable_sort_witness(options, unsorted, p);
    assert forall|k: int, l: int|
        #![trigger options[k], options[l]]
        0 <= k < l < options.len() implies if options[k].item_type@ != options[l].item_type@ {
        seq_lex_le(options[k].item_type@, options[l].item_type@)
    } else if options[k].name@ != options[l].name@ {
        seq_lex_le(options[k].name@, options[l].name@)
    } else {
        options[k].item_id <= options[l].item_id
    } by {
        assert(options[k].sorts_before(options[l]));
    }
}

/// Whether `up` is banner `banner` as an up banner.
pub open spec fn is_up_banner(up: ManualInsertUpBanner, banner: MetadataBanner) -> bool {
    &&& up.start_time == banner.start_time
    &&& up.end_time == banner.end_time
    &&& up.version == banner.version
}

/// Whether `up` is one of the banners of `banners` that feature `item_id`.
pub open spec fn is_featuring_banner(
    up: ManualInsertUpBanner,
    banners: Seq<MetadataBanner>,
    item_id: u32,
) -> bool {
    exists|j: int|
        0 <= j < banners.len() && banners[j].up_golden@.contains(item_id) && is_up_banner(
            up,
            #[trigger] banners[j],
        )
}

/// Whether `banner` is among `ups`.
pub open spec fn is_listed(ups: Seq<ManualInsertUpBanner>, banner: MetadataBanner) -> bool {
    exists|a: int| 0 <= a < ups.len() && is_up_banner(#[trigger] ups[a], banner)
}

/// `ups` are exactly the banners of `banners` that feature `item_id`, latest
/// start first.
pub open spec fn lists_featuring_banners(
    ups: Seq<ManualInsertUpBanner>,
    banners: Seq<MetadataBanner>,
    item_id: u32,
) -> bool {
    &&& forall|a: int| 0 <= a < ups.len() ==> is_featuring_banner(#[trigger] ups[a], banners, item_id)
    &&& forall|j: int|
        0 <= j < banners.len() && banners[j].up_golden@.contains(item_id) ==> is_listed(
            ups,
            #[trigger] banners[j],
        )
    &&& forall|a: int, b: int|
        #![trigger ups[a], ups[b]]
        0 <= a < b < ups.len() ==> time_ge_spec(ups[a].start_time, ups[b].start_time)
}

proof fn lemma_up_banners_members(banners: Seq<MetadataBanner>, item_id: u32)
    ensures
        forall|a: int|
            0 <= a < up_banners_unsorted_spec(banners, item_id).len() ==> is_featuring_banner(
                #[trigger] up_banners_unsorted_spec(banners, item_id)[a],
                banners,
                item_id,
            ),
        forall|j: int|
            0 <= j < banners.len() && banners[j].up_golden@.contains(item_id) ==> is_listed(
                up_banners_unsorted_spec(banners, item_id),
                #[trigger] banners[j],
            ),
    decreases banners.len(),
{
    if banners.len() > 0 {
        let q = banners.drop_last();
        lemma_up_banners_members(q, item_id);
        let u = up_banners_unsorted_spec(banners, item_id);
        let uq = up_banners_unsorted_spec(q, item_id);
        assert forall|a: int| 0 <= a < u.len() implies is_featuring_banner(
            #[trigger] u[a],
            banners,
            item_id,
        ) by {
            if a < uq.len() {
                assert(u[a] == uq[a]);
                assert(is_featuring_banner(uq[a], q, item_id));
                let j = choose|j: int|
                    0 <= j < q.len() && q[j].up_golden@.contains(item_id) && is_up_banner(
                        uq[a],
                        #[trigger] q[j],
                    );
                assert(banners[j] == q[j]);
            } else {
                assert(is_up_banner(u[a], banners[banners.len() - 1]));
            }
        }
        assert forall|j: int|
            0 <= j < banners.len() && banners[j].up_golden@.contains(item_id) implies is_listed(
            u,
            #[trigger] banners[j],
        ) by {
            if j < q.len() {
                assert(q[j] == banners[j]);
                assert(is_listed(uq, q[j]));
                let a = choose|a: int| 0 <= a < uq.len() && is_up_banner(#[trigger] uq[a], q[j]);
                assert(u[a] == uq[a]);
            } else {
                assert(is_up_banner(u[u.len() - 1], banners[j]));
            }
        }
    }
}

/// The up banners of an option are exactly the banners that featured its item,
/// latest first.
pub proof fn lemma_up_banners_are_featuring_banners(
    ups: Seq<ManualInsertUpBanner>,
    banners: Seq<MetadataBanner>,
    item_id: u32,
)
    requires
        is_stable_sort_of(ups, up_banners_unsorted_spec(banners, item_id)),
    ensures
        lists_featuring_banners(ups, banners, item_id),
{
    let u = up_banners_unsorted_spec(banners, item_id);
    lemma_stable_sort_same_elements(ups, u);
    lemma_up_banners_members(banners, item_id);
    assert forall|a: int| 0 <= a < ups.len() implies is_featuring_banner(
        #[trigger] ups[a],
        banners,
        item_id,
    ) by {
        assert(u.contains(ups[a]));
        let i = choose|i: int| 0 <= i < u.len() && u[i] == ups[a];
        assert(is_featuring_banner(u[i], banners, item_id));
    }
    assert forall|j: int|
        0 <= j < banners.len() && banners[j].up_golden@.contains(item_id) implies is_listed(
        ups,
        #[trigger] banners[j],
    ) by {
        assert(is_listed(u, banners[j]));
        let i = choose|i: int| 0 <= i < u.len() && is_up_banner(#[trigger] u[i], banners[j]);
        assert(ups.contains(u[i]));
        let a = choose|a: int| 0 <= a < ups.len() && ups[a] == u[i];
        assert(is_up_banner(ups[a], banners[j]));
    }
    let p = choose|p: Seq<int>| stable_sort_witness(ups, u, p);
    assert forall|a: int, b: int|
        #![trigger ups[a], ups[b]]
        0 <= a < b < ups.len() implies time_ge_spec(ups[a].start_time, ups[b].start_time) by {
        assert(ups[a].sorts_before(ups[b]));
    }
}

/// Every offered option lists as its up banners exactly the banners of the gacha
/// type that featured its item, latest first.
pub proof fn lemma_entry_options_banners(
    options: Seq<ManualInsertEntryOption>,
    entries: Seq<MetadataEntry>,
    banners: Seq<MetadataBanner>,
)
    requires
        is_entry_options_of(options, entries, banners),
    ensures
        forall|k: int|
            0 <= k < options.len() ==> lists_featuring_banners(
                (#[trigger] options[k]).up_banners@,
                banners,
                options[k].item_id,
            ),
{
    let unsorted = choose|unsorted: Seq<ManualInsertEntryOption>|
        {
            &&& unsorted.len() == entries.len()
            &&& forall|i: int|
                0 <= i < entries.len() ==> is_entry_option_of(
                    #[trigger] unsorted[i],
                    entries[i],
                    banners,
                )
            &&& is_stable_sort_of(options, unsorted)
        };
    lemma_stable_sort_same_elements(options, unsorted);
    assert forall|k: int| 0 <= k < options.len() implies lists_featuring_banners(
        (#[trigger] options[k]).up_banners@,
        banners,
        options[k].item_id,
    ) by {
        assert(unsorted.contains(options[k]));
        let i = choose|i: int| 0 <= i < unsorted.len() && unsorted[i] == options[k];
        assert(is_entry_option_of(unsorted[i], entries[i], banners));
        lemma_up_banners_are_featuring_banners(
            options[k].up_banners@,
            banners,
            options[k].item_id,
        );
    }
}

} // verus!
