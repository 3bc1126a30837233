//! Manual insertion of gacha records: the rules on supported gacha types, the
//! resolution of a named top-rank item in the metadata, the synthesis of the
//! pulls that end with it, and the entry options offered for it.

use vstd::prelude::*;

use crate::business::{AccountBusiness, business_name_spec};
use crate::text::{all_ascii_digits, decimal_spec, digits_value, lemma_zero_padded, pow10, push_decimal};
use crate::gacha_time::{GachaTime, is_rfc3339_time, parse_rfc3339, rfc3339_parse, shift_seconds_spec};
use crate::metadata::{
    GachaMetadata, MetadataEntry, MetadataLocale, entry_named, entry_with_id, first_where,
    lemma_first_where_end, lemma_first_where_found, lemma_first_where_step,
};
use crate::records::GachaRecord;
use crate::text::{
    push_signed_decimal, push_zero_padded, signed_decimal_spec, str_eq, trim_spec, trim_str,
    zero_padded_spec,
};

verus! {

/// The most pulls one manual insertion may create.
pub const MANUAL_INSERT_PULL_COUNT_MAX: u32 = 5000;

/// Category key of playable characters.
pub const CATEGORY_CHARACTER: &'static str = "Character";

/// Category key of weapons.
pub const CATEGORY_WEAPON: &'static str = "Weapon";

/// Category key of Bangboos.
pub const CATEGORY_BANGBOO: &'static str = "Bangboo";

/// The language used when no custom locale is given.
pub const DEFAULT_LOCALE: &'static str = "en-us";

/// Why a manual insertion failed.
#[derive(Debug)]
pub enum ManualInsertGachaRecordsError {
    UnsupportedBusiness { business: AccountBusiness },
    UnsupportedGachaType { business: AccountBusiness, gacha_type: u32 },
    InvalidPullCount { pull_count: u32 },
    InvalidEndTime { value: String, cause: String },
    MissingMetadataLocale { business: AccountBusiness, locale: String },
    CharacterNotFound { business: AccountBusiness, locale: String, name: String },
    InvalidCharacter { business: AccountBusiness, locale: String, name: String },
    MissingDefaultMetadataEntry { business: AccountBusiness, locale: String, item_id: u32 },
    Sqlx { cause: String },
}

/// A manual-insertion error with its texts as character sequences.
pub enum ManualInsertErrorView {
    UnsupportedBusiness { business: AccountBusiness },
    UnsupportedGachaType { business: AccountBusiness, gacha_type: u32 },
    InvalidPullCount { pull_count: u32 },
    InvalidEndTime { value: Seq<char>, cause: Seq<char> },
    MissingMetadataLocale { business: AccountBusiness, locale: Seq<char> },
    CharacterNotFound { business: AccountBusiness, locale: Seq<char>, name: Seq<char> },
    InvalidCharacter { business: AccountBusiness, locale: Seq<char>, name: Seq<char> },
    MissingDefaultMetadataEntry { business: AccountBusiness, locale: Seq<char>, item_id: u32 },
    Sqlx { cause: Seq<char> },
}

impl View for ManualInsertGachaRecordsError {
    type V = ManualInsertErrorView;

    open spec fn view(&self) -> ManualInsertErrorView {
        match self {
            ManualInsertGachaRecordsError::UnsupportedBusiness { business } => {
                ManualInsertErrorView::UnsupportedBusiness { business: *business }
            },
            ManualInsertGachaRecordsError::UnsupportedGachaType { business, gacha_type } => {
                ManualInsertErrorView::UnsupportedGachaType {
                    business: *business,
                    gacha_type: *gacha_type,
                }
            },
            ManualInsertGachaRecordsError::InvalidPullCount { pull_count } => {
                ManualInsertErrorView::InvalidPullCount { pull_count: *pull_count }
            },
            ManualInsertGachaRecordsError::InvalidEndTime { value, cause } => {
                ManualInsertErrorView::InvalidEndTime { value: value@, cause: cause@ }
            },
            ManualInsertGachaRecordsError::MissingMetadataLocale { business, locale } => {
                ManualInsertErrorView::MissingMetadataLocale { business: *business, locale: locale@ }
            },
            ManualInsertGachaRecordsError::CharacterNotFound { business, locale, name } => {
                ManualInsertErrorView::CharacterNotFound {
                    business: *business,
                    locale: locale@,
                    name: name@,
                }
            },
            ManualInsertGachaRecordsError::InvalidCharacter { business, locale, name } => {
                ManualInsertErrorView::InvalidCharacter {
                    business: *business,
                    locale: locale@,
                    name: name@,
                }
            },
            ManualInsertGachaRecordsError::MissingDefaultMetadataEntry {
                business,
                locale,
                item_id,
            } => ManualInsertErrorView::MissingDefaultMetadataEntry {
                business: *business,
                locale: locale@,
                item_id: *item_id,
            },
            ManualInsertGachaRecordsError::Sqlx { cause } => ManualInsertErrorView::Sqlx {
                cause: cause@,
            },
        }
    }
}

/// The gacha types of each business that manual insertion supports.
pub open spec fn supported_manual_insert_gacha_type_spec(
    business: AccountBusiness,
    gacha_type: u32,
) -> bool {
    match business {
        AccountBusiness::GenshinImpact => gacha_type == 100 || gacha_type == 200 || gacha_type
            == 301 || gacha_type == 400 || gacha_type == 302 || gacha_type == 500,
        AccountBusiness::HonkaiStarRail => gacha_type == 1 || gacha_type == 2 || gacha_type == 11
            || gacha_type == 12 || gacha_type == 21 || gacha_type == 22,
        AccountBusiness::ZenlessZoneZero => gacha_type == 1 || gacha_type == 2 || gacha_type == 3
            || gacha_type == 5 || gacha_type == 102 || gacha_type == 103,
        AccountBusiness::MiliastraWonderland => false,
    }
}

/// Whether manual insertion supports `gacha_type` of `business`.
pub fn is_supported_manual_insert_gacha_type(business: AccountBusiness, gacha_type: u32) -> (r:
    bool)
    ensures
        r == supported_manual_insert_gacha_type_spec(business, gacha_type),
{
    match business {
        AccountBusiness::GenshinImpact => gacha_type == 100 || gacha_type == 200 || gacha_type
            == 301 || gacha_type == 400 || gacha_type == 302 || gacha_type == 500,
        AccountBusiness::HonkaiStarRail => gacha_type == 1 || gacha_type == 2 || gacha_type == 11
            || gacha_type == 12 || gacha_type == 21 || gacha_type == 22,
        AccountBusiness::ZenlessZoneZero => gacha_type == 1 || gacha_type == 2 || gacha_type == 3
            || gacha_type == 5 || gacha_type == 102 || gacha_type == 103,
        AccountBusiness::MiliastraWonderland => false,
    }
}

/// The ids of the low-rank and mid-rank items that fill the pulls before the
/// top-rank one.
pub open spec fn default_item_ids_spec(business: AccountBusiness) -> Result<
    (u32, u32),
    ManualInsertErrorView,
> {
    match business {
        AccountBusiness::GenshinImpact => Ok((12305, 11401)),
        AccountBusiness::HonkaiStarRail => Ok((20000, 21000)),
        AccountBusiness::ZenlessZoneZero => Ok((12001, 13001)),
        AccountBusiness::MiliastraWonderland => Err(
            ManualInsertErrorView::UnsupportedBusiness { business },
        ),
    }
}

/// The ids of the filler items: a low-rank one and a mid-rank one.
pub fn manual_insert_default_item_ids(business: AccountBusiness) -> (r: Result<
    (u32, u32),
    ManualInsertGachaRecordsError,
>)
    ensures
        r matches Ok(ids) ==> default_item_ids_spec(business) == Ok::<
            (u32, u32),
            ManualInsertErrorView,
        >(ids),
        r matches Err(e) ==> default_item_ids_spec(business) == Err::<
            (u32, u32),
            ManualInsertErrorView,
        >(e@),
{
    match business {
        AccountBusiness::GenshinImpact => Ok((12305, 11401)),
        AccountBusiness::HonkaiStarRail => Ok((20000, 21000)),
        AccountBusiness::ZenlessZoneZero => Ok((12001, 13001)),
        AccountBusiness::MiliastraWonderland => Err(
            ManualInsertGachaRecordsError::UnsupportedBusiness { business },
        ),
    }
}

/// The rank of the item that ends a manual insertion.
pub open spec fn golden_rank_spec(business: AccountBusiness) -> Result<u8, ManualInsertErrorView> {
    match business {
        AccountBusiness::GenshinImpact | AccountBusiness::HonkaiStarRail => Ok(5),
        AccountBusiness::ZenlessZoneZero => Ok(4),
        AccountBusiness::MiliastraWonderland => Err(
            ManualInsertErrorView::UnsupportedBusiness { business },
        ),
    }
}

/// The rank of the item that ends a manual insertion.
pub fn manual_insert_required_golden_rank(business: AccountBusiness) -> (r: Result<
    u8,
    ManualInsertGachaRecordsError,
>)
    ensures
        r matches Ok(rank) ==> golden_rank_spec(business) == Ok::<u8, ManualInsertErrorView>(
            rank,
        ),
        r matches Err(e) ==> golden_rank_spec(business) == Err::<u8, ManualInsertErrorView>(e@),
{
    match business {
        AccountBusiness::GenshinImpact | AccountBusiness::HonkaiStarRail => Ok(5),
        AccountBusiness::ZenlessZoneZero => Ok(4),
        AccountBusiness::MiliastraWonderland => Err(
            ManualInsertGachaRecordsError::UnsupportedBusiness { business },
        ),
    }
}

/// The categories the top-rank item of a gacha type may belong to.
pub open spec fn golden_categories_spec(business: AccountBusiness, gacha_type: u32) -> Result<
    Seq<&'static str>,
    ManualInsertErrorView,
> {
    let unsupported = Err(ManualInsertErrorView::UnsupportedGachaType { business, gacha_type });
    match business {
        AccountBusiness::GenshinImpact => if gacha_type == 301 || gacha_type == 400 {
            Ok(seq![CATEGORY_CHARACTER])
        } else if gacha_type == 302 {
            Ok(seq![CATEGORY_WEAPON])
        } else if gacha_type == 100 || gacha_type == 200 || gacha_type == 500 {
            Ok(seq![CATEGORY_CHARACTER, CATEGORY_WEAPON])
        } else {
            unsupported
        },
        AccountBusiness::HonkaiStarRail => if gacha_type == 11 || gacha_type == 12 {
            Ok(seq![CATEGORY_CHARACTER])
        } else if gacha_type == 21 || gacha_type == 22 {
            Ok(seq![CATEGORY_WEAPON])
        } else if gacha_type == 1 || gacha_type == 2 {
            Ok(seq![CATEGORY_CHARACTER, CATEGORY_WEAPON])
        } else {
            unsupported
        },
        AccountBusiness::ZenlessZoneZero => if gacha_type == 1 || gacha_type == 102 {
            Ok(seq![CATEGORY_CHARACTER])
        } else if gacha_type == 2 || gacha_type == 103 {
            Ok(seq![CATEGORY_WEAPON])
        } else if gacha_type == 3 {
            Ok(seq![CATEGORY_CHARACTER, CATEGORY_WEAPON])
        } else if gacha_type == 5 {
            Ok(seq![CATEGORY_BANGBOO])
        } else {
            unsupported
        },
        AccountBusiness::MiliastraWonderland => Err(
            ManualInsertErrorView::UnsupportedBusiness { business },
        ),
    }
}

/// The categories the top-rank item of `gacha_type` may belong to.
pub fn manual_insert_supported_golden_categories(business: AccountBusiness, gacha_type: u32) -> (r:
    Result<Vec<&'static str>, ManualInsertGachaRecordsError>)
    ensures
        r matches Ok(v) ==> golden_categories_spec(business, gacha_type) matches Ok(c) && v@ == c,
        r matches Err(e) ==> golden_categories_spec(business, gacha_type) == Err::<
            Seq<&'static str>,
            ManualInsertErrorView,
        >(e@),
{
    let unsupported = ManualInsertGachaRecordsError::UnsupportedGachaType { business, gacha_type };
    let categories = match business {
        AccountBusiness::GenshinImpact => if gacha_type == 301 || gacha_type == 400 {
            vec![CATEGORY_CHARACTER]
        } else if gacha_type == 302 {
            vec![CATEGORY_WEAPON]
        } else if gacha_type == 100 || gacha_type == 200 || gacha_type == 500 {
            vec![CATEGORY_CHARACTER, CATEGORY_WEAPON]
        } else {
            return Err(unsupported);
        },
        AccountBusiness::HonkaiStarRail => if gacha_type == 11 || gacha_type == 12 {
            vec![CATEGORY_CHARACTER]
        } else if gacha_type == 21 || gacha_type == 22 {
            vec![CATEGORY_WEAPON]
        } else if gacha_type == 1 || gacha_type == 2 {
            vec![CATEGORY_CHARACTER, CATEGORY_WEAPON]
        } else {
            return Err(unsupported);
        },
        AccountBusiness::ZenlessZoneZero => if gacha_type == 1 || gacha_type == 102 {
            vec![CATEGORY_CHARACTER]
        } else if gacha_type == 2 || gacha_type == 103 {
            vec![CATEGORY_WEAPON]
        } else if gacha_type == 3 {
            vec![CATEGORY_CHARACTER, CATEGORY_WEAPON]
        } else if gacha_type == 5 {
            vec![CATEGORY_BANGBOO]
        } else {
            return Err(unsupported);
        },
        AccountBusiness::MiliastraWonderland => {
            return Err(ManualInsertGachaRecordsError::UnsupportedBusiness { business });
        },
    };
    Ok(categories)
}

/// The names a typed-in name is looked up under: the trimmed name; then, unless
/// it starts with `「` or ends with `」`, the name wrapped in `「」`; then, when
/// it is wrapped in `「」` around something, the name unwrapped.
pub open spec fn name_candidates_spec(raw: Seq<char>) -> Seq<Seq<char>> {
    let name = trim_spec(raw);
    let opens = name.len() > 0 && name[0] == '「';
    let closes = name.len() > 0 && name.last() == '」';
    let first = if !opens && !closes {
        seq![name, seq!['「'] + name + seq!['」']]
    } else {
        seq![name]
    };
    if opens && closes && name.len() >= 3 {
        first.push(name.subrange(1, name.len() - 1))
    } else {
        first
    }
}

/// The names a typed-in name is looked up under (see `name_candidates_spec`).
pub fn manual_insert_entry_name_candidates(name: &str) -> (r: Vec<String>)
    ensures
        r@.len() == name_candidates_spec(name@).len(),
        forall|i: int| 0 <= i < r@.len() ==> #[trigger] r@[i]@ == name_candidates_spec(name@)[i],
{
    let name = trim_str(name);
    let n = name.unicode_len();
    let opens = n > 0 && name.get_char(0) == '「';
    let closes = n > 0 && name.get_char(n - 1) == '」';
    let mut candidates: Vec<String> = Vec::new();
    candidates.push(name.to_owned());
    if !opens && !closes {
        proof {
            reveal_strlit("「");
            reveal_strlit("」");
        }
        let mut wrapped = "「".to_owned();
        wrapped.append(name);
        wrapped.append("」");
        candidates.push(wrapped);
    }
    if opens && closes && n >= 3 {
        let inner = name.substring_char(1, n - 1);
        candidates.push(inner.to_owned());
    }
    candidates
}

/// Whether an entry has rank `golden_rank` and one of the categories.
pub open spec fn entry_matches_spec(
    entry: MetadataEntry,
    categories: Seq<&'static str>,
    golden_rank: u8,
) -> bool {
    &&& entry.rank_type == golden_rank
    &&& exists|i: int| 0 <= i < categories.len() && (#[trigger] categories[i])@ == entry.category@
}

/// Whether `entry` has rank `golden_rank` and one of the allowed categories.
pub fn manual_insert_entry_match(
    entry: &MetadataEntry,
    allowed_categories: &[&'static str],
    golden_rank: u8,
) -> (r: bool)
    ensures
        r == entry_matches_spec(*entry, allowed_categories@, golden_rank),
{
    if entry.rank_type != golden_rank {
        return false;
    }
    let mut i: usize = 0;
    while i < allowed_categories.len()
        invariant
            entry.rank_type == golden_rank,
            i <= allowed_categories@.len(),
            forall|k: int| 0 <= k < i ==> (#[trigger] allowed_categories@[k])@ != entry.category@,
        decreases allowed_categories@.len() - i,
    {
        if str_eq(allowed_categories[i], entry.category.as_str()) {
            assert((allowed_categories@[i as int])@ == entry.category@);
            return true;
        }
        i = i + 1;
    }
    false
}

/// Whether an entry is named `name` and matches the rank and categories.
pub open spec fn golden_entry_named(
    name: Seq<char>,
    categories: Seq<&'static str>,
    golden_rank: u8,
) -> spec_fn(MetadataEntry) -> bool {
    |e: MetadataEntry| e.item_name@ == name && entry_matches_spec(e, categories, golden_rank)
}

/// The first entry of `locale` named `name` with the rank and one of the categories.
pub fn manual_insert_find_entry_in_locale(
    locale: &MetadataLocale,
    name: &str,
    allowed_categories: &[&'static str],
    golden_rank: u8,
) -> (r: Option<MetadataEntry>)
    ensures
        r == first_where(
            locale.entries@,
            golden_entry_named(name@, allowed_categories@, golden_rank),
        ),
{
    let ghost p = golden_entry_named(name@, allowed_categories@, golden_rank);
    proof {
        lemma_first_where_end(locale.entries@, p);
    }
    let mut i: usize = 0;
    while i < locale.entries.len()
        invariant
            p == golden_entry_named(name@, allowed_categories@, golden_rank),
            i <= locale.entries@.len(),
            first_where(locale.entries@, p) == first_where(locale.entries@.skip(i as int), p),
        decreases locale.entries@.len() - i,
    {
        proof {
            lemma_first_where_step(locale.entries@, p, i as int);
        }
        let entry = &locale.entries[i];
        if str_eq(entry.item_name.as_str(), name) && manual_insert_entry_match(
            entry,
            allowed_categories,
            golden_rank,
        ) {
            return Some(entry.clone());
        }
        i = i + 1;
    }
    proof {
        lemma_first_where_end(locale.entries@, p);
    }
    None
}

/// The language to look metadata up in: the custom locale unless it is missing
/// or blank, else `en-us`.
pub open spec fn resolved_locale_spec(custom_locale: Option<String>) -> Seq<char> {
    match custom_locale {
        Some(l) => if trim_spec(l@).len() > 0 {
            l@
        } else {
            DEFAULT_LOCALE@
        },
        None => DEFAULT_LOCALE@,
    }
}

/// The language to look metadata up in: the custom locale unless it is missing
/// or blank, else `en-us`.
pub fn resolve_manual_insert_locale(custom_locale: Option<String>) -> (r: String)
    ensures
        r@ == resolved_locale_spec(custom_locale),
{
    match custom_locale {
        Some(l) => {
            if trim_str(l.as_str()).unicode_len() > 0 {
                l
            } else {
                DEFAULT_LOCALE.to_owned()
            }
        },
        None => DEFAULT_LOCALE.to_owned(),
    }
}


/// Looking the name up in the other locales, in order: the first matching entry
/// of a locale is taken, as the current locale has it, when the current locale
/// has an entry with its id.
pub open spec fn resolve_through_locales_spec(
    current: MetadataLocale,
    locales: Seq<MetadataLocale>,
    name: Seq<char>,
    categories: Seq<&'static str>,
    golden_rank: u8,
) -> Option<MetadataEntry>
    decreases locales.len(),
{
    if locales.len() == 0 {
        None
    } else {
        let found = match first_where(
            locales[0].entries@,
            golden_entry_named(name, categories, golden_rank),
        ) {
            Some(e) => first_where(current.entries@, entry_with_id(e.item_id)),
            None => None,
        };
        if found is Some {
            found
        } else {
            resolve_through_locales_spec(
                current,
                locales.drop_first(),
                name,
                categories,
                golden_rank,
            )
        }
    }
}

/// The entry a candidate name resolves to: a match in the current locale, else
/// one found through the other locales of the business.
pub open spec fn resolve_candidate_spec(
    current: MetadataLocale,
    locales: Option<Seq<MetadataLocale>>,
    name: Seq<char>,
    categories: Seq<&'static str>,
    golden_rank: u8,
) -> Option<MetadataEntry> {
    match first_where(current.entries@, golden_entry_named(name, categories, golden_rank)) {
        Some(e) => Some(e),
        None => match locales {
            Some(ls) => resolve_through_locales_spec(current, ls, name, categories, golden_rank),
            None => None,
        },
    }
}

/// The entry the first resolvable candidate name resolves to.
pub open spec fn resolve_golden_entry_spec(
    current: MetadataLocale,
    locales: Option<Seq<MetadataLocale>>,
    candidates: Seq<Seq<char>>,
    categories: Seq<&'static str>,
    golden_rank: u8,
) -> Option<MetadataEntry>
    decreases candidates.len(),
{
    if candidates.len() == 0 {
        None
    } else {
        let r = resolve_candidate_spec(current, locales, candidates[0], categories, golden_rank);
        if r is Some {
            r
        } else {
            resolve_golden_entry_spec(
                current,
                locales,
                candidates.drop_first(),
                categories,
                golden_rank,
            )
        }
    }
}

/// Whether some locale (the current one or another of the business) has an
/// entry named `name`.
pub open spec fn name_in_locales_spec(locales: Seq<MetadataLocale>, name: Seq<char>) -> bool {
    exists|j: int|
        0 <= j < locales.len() && first_where((#[trigger] locales[j]).entries@, entry_named(name))
            is Some
}

/// Whether any candidate name names an entry of the current locale or of another
/// locale of the business.
pub open spec fn name_known_spec(
    current: MetadataLocale,
    locales: Option<Seq<MetadataLocale>>,
    candidates: Seq<Seq<char>>,
) -> bool {
    exists|i: int|
        0 <= i < candidates.len() && (first_where(
            current.entries@,
            entry_named(#[trigger] candidates[i]),
        ) is Some || (locales matches Some(ls) && name_in_locales_spec(ls, candidates[i])))
}

/// The character views of a list of strings.
pub open spec fn string_views(v: Seq<String>) -> Seq<Seq<char>> {
    v.map_values(|s: String| s@)
}

fn resolve_through_locales(
    current: &MetadataLocale,
    locales: &Vec<MetadataLocale>,
    name: &str,
    categories: &[&'static str],
    golden_rank: u8,
) -> (r: Option<MetadataEntry>)
    ensures
        r == resolve_through_locales_spec(*current, locales@, name@, categories@, golden_rank),
{
    let mut i: usize = 0;
    assert(locales@.skip(0) =~= locales@);
    while i < locales.len()
        invariant
            i <= locales@.len(),
            resolve_through_locales_spec(*current, locales@, name@, categories@, golden_rank)
                == resolve_through_locales_spec(
                *current,
                locales@.skip(i as int),
                name@,
                categories@,
                golden_rank,
            ),
        decreases locales@.len() - i,
    {
        assert(locales@.skip(i as int).drop_first() =~= locales@.skip(i + 1));
        assert(locales@.skip(i as int)[0] == locales@[i as int]);
        if let Some(entry) = manual_insert_find_entry_in_locale(
            &locales[i],
            name,
            categories,
            golden_rank,
        ) {
            if let Some(found) = current.entry_from_id(entry.item_id) {
                return Some(found);
            }
        }
        i = i + 1;
    }
    None
}

fn resolve_golden_entry(
    current: &MetadataLocale,
    locales: Option<&Vec<MetadataLocale>>,
    candidates: &Vec<String>,
    categories: &[&'static str],
    golden_rank: u8,
) -> (r: Option<MetadataEntry>)
    ensures
        r == resolve_golden_entry_spec(
            *current,
            match locales {
                Some(v) => Some(v@),
                None => None,
            },
            string_views(candidates@),
            categories@,
            golden_rank,
        ),
{
    let ghost ls = match locales {
        Some(v) => Some(v@),
        None => None,
    };
    let ghost views = string_views(candidates@);
    let mut i: usize = 0;
    assert(views.skip(0) =~= views);
    while i < candidates.len()
        invariant
            i <= candidates@.len(),
            views == string_views(candidates@),
            ls == (match locales {
                Some(v) => Some(v@),
                None => None,
            }),
            resolve_golden_entry_spec(*current, ls, views, categories@, golden_rank)
                == resolve_golden_entry_spec(
                *current,
                ls,
                views.skip(i as int),
                categories@,
                golden_rank,
            ),
        decreases candidates@.len() - i,
    {
        assert(views.skip(i as int).drop_first() =~= views.skip(i + 1));
        assert(views.skip(i as int)[0] == candidates@[i as int]@);
        let name = candidates[i].as_str();
        if let Some(entry) = manual_insert_find_entry_in_locale(
            current,
            name,
            categories,
            golden_rank,
        ) {
            return Some(entry);
        }
        if let Some(others) = locales {
            if let Some(entry) = resolve_through_locales(
                current,
                others,
                name,
                categories,
                golden_rank,
            ) {
                return Some(entry);
            }
        }
        i = i + 1;
    }
    None
}

fn name_in_locales(locales: &Vec<MetadataLocale>, name: &str) -> (r: bool)
    ensures
        r == name_in_locales_spec(locales@, name@),
{
    let mut j: usize = 0;
    while j < locales.len()
        invariant
            j <= locales@.len(),
            forall|k: int|
                0 <= k < j ==> first_where((#[trigger] locales@[k]).entries@, entry_named(name@))
                    is None,
        decreases locales@.len() - j,
    {
        if locales[j].entry_from_name_first(name).is_some() {
            return true;
        }
        j = j + 1;
    }
    false
}

fn name_known(
    current: &MetadataLocale,
    locales: Option<&Vec<MetadataLocale>>,
    candidates: &Vec<String>,
) -> (r: bool)
    ensures
        r == name_known_spec(
            *current,
            match locales {
                Some(v) => Some(v@),
                None => None,
            },
            string_views(candidates@),
        ),
{
    let ghost ls = match locales {
        Some(v) => Some(v@),
        None => None,
    };
    let ghost views = string_views(candidates@);
    let mut i: usize = 0;
    while i < candidates.len()
        invariant
            i <= candidates@.len(),
            views == string_views(candidates@),
            ls == (match locales {
                Some(v) => Some(v@),
                None => None,
            }),
            forall|k: int|
                0 <= k < i ==> !(first_where(current.entries@, entry_named(#[trigger] views[k]))
                    is Some || (ls matches Some(l) && name_in_locales_spec(l, views[k]))),
        decreases candidates@.len() - i,
    {
        let name = candidates[i].as_str();
        assert(views[i as int] == name@);
        if current.entry_from_name_first(name).is_some() {
            return true;
        }
        if let Some(others) = locales {
            if name_in_locales(others, name) {
                return true;
            }
        }
        i = i + 1;
    }
    false
}

/// The properties every manually inserted record carries, as JSON text.
pub const MANUAL_INSERT_PROPERTIES: &'static str = "{\"manualInsert\":true}";

/// The item of pull `index` (from 0): the top-rank item last, a mid-rank item on
/// every eighth pull, a low-rank item otherwise.
pub open spec fn manual_insert_item_spec(
    pull_count: u32,
    index: int,
    golden: MetadataEntry,
    purple: MetadataEntry,
    blue: MetadataEntry,
) -> MetadataEntry {
    if index + 1 == pull_count {
        golden
    } else if (index + 1) % 8 == 0 {
        purple
    } else {
        blue
    }
}

/// The time of pull `index` (from 0): one second apart, the last at `end_time`.
pub open spec fn manual_insert_time_spec(end_time: GachaTime, pull_count: u32, index: int) -> GachaTime {
    shift_seconds_spec(end_time, index - (pull_count - 1))
}

/// The gacha id of a synthesized pull: its timestamp (never below 0, truncated
/// to 32 bits) for the businesses that record one.
pub open spec fn manual_insert_gacha_id_spec(business: AccountBusiness, unix_timestamp: i64) -> Option<
    u32,
> {
    match business {
        AccountBusiness::HonkaiStarRail | AccountBusiness::ZenlessZoneZero => Some(
            (if unix_timestamp < 0 {
                0
            } else {
                unix_timestamp
            }) as u32,
        ),
        _ => None,
    }
}

/// The id of a synthesized pull: its timestamp in decimal, then its index
/// padded to nine digits.
pub open spec fn manual_insert_record_id_spec(unix_timestamp: i64, index: int) -> Seq<char> {
    signed_decimal_spec(unix_timestamp as int) + zero_padded_spec(index as nat, 9)
}

/// Record `rec` is pull `index` of a manual insertion.
pub open spec fn is_manual_insert_record(
    rec: GachaRecord,
    business: AccountBusiness,
    uid: u32,
    gacha_type: u32,
    lang: Seq<char>,
    end_time: GachaTime,
    pull_count: u32,
    index: int,
    golden: MetadataEntry,
    purple: MetadataEntry,
    blue: MetadataEntry,
) -> bool {
    let item = manual_insert_item_spec(pull_count, index, golden, purple, blue);
    let time = manual_insert_time_spec(end_time, pull_count, index);
    &&& rec.business == business
    &&& rec.uid == uid
    &&& rec.id@ == manual_insert_record_id_spec(time.unix_timestamp, index)
    &&& rec.gacha_type == gacha_type
    &&& rec.gacha_id == manual_insert_gacha_id_spec(business, time.unix_timestamp)
    &&& rec.rank_type == item.rank_type as u32
    &&& rec.count == 1
    &&& rec.lang@ == lang
    &&& rec.time == time
    &&& rec.item_name@ == item.item_name@
    &&& rec.item_type@ == item.category_name@
    &&& rec.item_id == item.item_id
    &&& rec.properties matches Some(p) && p@ == MANUAL_INSERT_PROPERTIES@
}

/// `records` are the `pull_count` pulls of a manual insertion, in order.
pub open spec fn is_manual_insert_records(
    records: Seq<GachaRecord>,
    business: AccountBusiness,
    uid: u32,
    gacha_type: u32,
    lang: Seq<char>,
    end_time: GachaTime,
    pull_count: u32,
    golden: MetadataEntry,
    purple: MetadataEntry,
    blue: MetadataEntry,
) -> bool {
    &&& records.len() == pull_count
    &&& forall|i: int|
        0 <= i < records.len() ==> is_manual_insert_record(
            #[trigger] records[i],
            business,
            uid,
            gacha_type,
            lang,
            end_time,
            pull_count,
            i,
            golden,
            purple,
            blue,
        )
}

/// Synthesizes the `pull_count` pulls of a manual insertion that ends with
/// `golden` at `end_time`.
pub fn manual_insert_build_records(
    business: AccountBusiness,
    uid: u32,
    gacha_type: u32,
    lang: &String,
    end_time: GachaTime,
    pull_count: u32,
    golden: &MetadataEntry,
    purple: &MetadataEntry,
    blue: &MetadataEntry,
) -> (r: Vec<GachaRecord>)
    requires
        1 <= pull_count <= MANUAL_INSERT_PULL_COUNT_MAX,
        is_rfc3339_time(end_time),
    ensures
        is_manual_insert_records(
            r@,
            business,
            uid,
            gacha_type,
            lang@,
            end_time,
            pull_count,
            *golden,
            *purple,
            *blue,
        ),
{
    let mut records: Vec<GachaRecord> = Vec::new();
    let mut index: u32 = 0;
    while index < pull_count
        invariant
            1 <= pull_count <= MANUAL_INSERT_PULL_COUNT_MAX,
            is_rfc3339_time(end_time),
            index <= pull_count,
            records@.len() == index,
            forall|i: int|
                0 <= i < index ==> is_manual_insert_record(
                    #[trigger] records@[i],
                    business,
                    uid,
                    gacha_type,
                    lang@,
                    end_time,
                    pull_count,
                    i,
                    *golden,
                    *purple,
                    *blue,
                ),
        decreases pull_count - index,
    {
        let pull_number = index + 1;
        let unix_timestamp: i64 = end_time.unix_timestamp - ((pull_count - 1 - index) as i64);
        let time = GachaTime {
            unix_timestamp,
            nanosecond: end_time.nanosecond,
            offset_seconds: end_time.offset_seconds,
        };
        let item = if pull_number == pull_count {
            golden
        } else if pull_number % 8 == 0 {
            purple
        } else {
            blue
        };
        let mut id = String::new();
        push_signed_decimal(&mut id, unix_timestamp);
        push_zero_padded(&mut id, index as u64, 9);
        let gacha_id = match business {
            AccountBusiness::HonkaiStarRail | AccountBusiness::ZenlessZoneZero => {
                if unix_timestamp < 0 {
                    Some(0u32)
                } else {
                    Some(unix_timestamp as u32)
                }
            },
            _ => None,
        };
        let record = GachaRecord {
            business,
            uid,
            id,
            gacha_type,
            gacha_id,
            rank_type: item.rank_type as u32,
            count: 1,
            lang: lang.clone(),
            time,
            item_name: item.item_name.clone(),
            item_type: item.category_name.clone(),
            item_id: item.item_id,
            properties: Some(MANUAL_INSERT_PROPERTIES.to_owned()),
        };
        assert(is_manual_insert_record(
            record,
            business,
            uid,
            gacha_type,
            lang@,
            end_time,
            pull_count,
            index as int,
            *golden,
            *purple,
            *blue,
        ));
        records.push(record);
        index = index + 1;
    }
    records
}


/// What a manual insertion at a known end time resolves to: the top-rank,
/// mid-rank and low-rank entries and the language of the locale they come from,
/// or the first error met, in the order the checks run.
pub open spec fn manual_insert_plan_spec(
    metadata: GachaMetadata,
    business: AccountBusiness,
    gacha_type: u32,
    five_star_name: Seq<char>,
    custom_locale: Option<String>,
) -> Result<(MetadataEntry, MetadataEntry, MetadataEntry, Seq<char>), ManualInsertErrorView> {
    let locale = resolved_locale_spec(custom_locale);
    match metadata.locale_spec(business, locale) {
        None => Err(ManualInsertErrorView::MissingMetadataLocale { business, locale }),
        Some(current) => match golden_rank_spec(business) {
            Err(e) => Err(e),
            Ok(golden_rank) => match golden_categories_spec(business, gacha_type) {
                Err(e) => Err(e),
                Ok(categories) => {
                    let candidates = name_candidates_spec(five_star_name);
                    let locales = metadata.locales_spec(business);
                    match resolve_golden_entry_spec(
                        current,
                        locales,
                        candidates,
                        categories,
                        golden_rank,
                    ) {
                        None => if name_known_spec(current, locales, candidates) {
                            Err(
                                ManualInsertErrorView::InvalidCharacter {
                                    business,
                                    locale: current.lang@,
                                    name: five_star_name,
                                },
                            )
                        } else {
                            Err(
                                ManualInsertErrorView::CharacterNotFound {
                                    business,
                                    locale: current.lang@,
                                    name: five_star_name,
                                },
                            )
                        },
                        Some(golden) => match default_item_ids_spec(business) {
                            Err(e) => Err(e),
                            Ok((blue_id, purple_id)) => match first_where(
                                current.entries@,
                                entry_with_id(blue_id),
                            ) {
                                None => Err(
                                    ManualInsertErrorView::MissingDefaultMetadataEntry {
                                        business,
                                        locale: current.lang@,
                                        item_id: blue_id,
                                    },
                                ),
                                Some(blue) => match first_where(
                                    current.entries@,
                                    entry_with_id(purple_id),
                                ) {
                                    None => Err(
                                        ManualInsertErrorView::MissingDefaultMetadataEntry {
                                            business,
                                            locale: current.lang@,
                                            item_id: purple_id,
                                        },
                                    ),
                                    Some(purple) => Ok((golden, purple, blue, current.lang@)),
                                },
                            },
                        },
                    }
                },
            },
        },
    }
}

/// `r` is what a manual insertion at `end_time` gives: the error of
/// `manual_insert_plan_spec`, or the pulls it describes.
pub open spec fn manual_insert_result_spec(
    r: Result<Vec<GachaRecord>, ManualInsertGachaRecordsError>,
    metadata: GachaMetadata,
    business: AccountBusiness,
    uid: u32,
    gacha_type: u32,
    five_star_name: Seq<char>,
    pull_count: u32,
    end_time: GachaTime,
    custom_locale: Option<String>,
) -> bool {
    match manual_insert_plan_spec(metadata, business, gacha_type, five_star_name, custom_locale) {
        Err(ev) => r matches Err(e) && e@ == ev,
        Ok((golden, purple, blue, lang)) => r matches Ok(records) && is_manual_insert_records(
            records@,
            business,
            uid,
            gacha_type,
            lang,
            end_time,
            pull_count,
            golden,
            purple,
            blue,
        ),
    }
}

/// The pulls of a manual insertion that ends at `end_time`: the top-rank item
/// named `five_star_name` last, after `pull_count - 1` filler pulls.
pub fn plan_manual_insert_gacha_records_at(
    metadata: &GachaMetadata,
    business: AccountBusiness,
    uid: u32,
    gacha_type: u32,
    five_star_name: &str,
    pull_count: u32,
    end_time: GachaTime,
    custom_locale: Option<String>,
) -> (r: Result<Vec<GachaRecord>, ManualInsertGachaRecordsError>)
    requires
        1 <= pull_count <= MANUAL_INSERT_PULL_COUNT_MAX,
        is_rfc3339_time(end_time),
    ensures
        manual_insert_result_spec(
            r,
            *metadata,
            business,
            uid,
            gacha_type,
            five_star_name@,
            pull_count,
            end_time,
            custom_locale,
        ),
{
    let locale = resolve_manual_insert_locale(custom_locale);
    let current = match metadata.locale(business, locale.as_str()) {
        Some(l) => l,
        None => {
            return Err(ManualInsertGachaRecordsError::MissingMetadataLocale { business, locale });
        },
    };
    let golden_rank = match manual_insert_required_golden_rank(business) {
        Ok(rank) => rank,
        Err(e) => return Err(e),
    };
    let categories = match manual_insert_supported_golden_categories(business, gacha_type) {
        Ok(c) => c,
        Err(e) => return Err(e),
    };
    let candidates = manual_insert_entry_name_candidates(five_star_name);
    assert(string_views(candidates@) =~= name_candidates_spec(five_star_name@));
    let locales = metadata.locales(business);
    let golden = match resolve_golden_entry(
        current,
        locales,
        &candidates,
        categories.as_slice(),
        golden_rank,
    ) {
        Some(e) => e,
        None => {
            let known = name_known(current, locales, &candidates);
            let name = five_star_name.to_owned();
            let lang = current.lang.clone();
            if known {
                return Err(
                    ManualInsertGachaRecordsError::InvalidCharacter { business, locale: lang, name },
                );
            } else {
                return Err(
                    ManualInsertGachaRecordsError::CharacterNotFound { business, locale: lang, name },
                );
            }
        },
    };
    let (blue_id, purple_id) = match manual_insert_default_item_ids(business) {
        Ok(ids) => ids,
        Err(e) => return Err(e),
    };
    let blue = match current.entry_from_id(blue_id) {
        Some(e) => e,
        None => {
            return Err(
                ManualInsertGachaRecordsError::MissingDefaultMetadataEntry {
                    business,
                    locale: current.lang.clone(),
                    item_id: blue_id,
                },
            );
        },
    };
    let purple = match current.entry_from_id(purple_id) {
        Some(e) => e,
        None => {
            return Err(
                ManualInsertGachaRecordsError::MissingDefaultMetadataEntry {
                    business,
                    locale: current.lang.clone(),
                    item_id: purple_id,
                },
            );
        },
    };
    Ok(
        manual_insert_build_records(
            business,
            uid,
            gacha_type,
            &current.lang,
            end_time,
            pull_count,
            &golden,
            &purple,
            &blue,
        ),
    )
}

/// The pulls of a manual insertion: checks the gacha type, the pull count and
/// the end time (RFC 3339) in that order, then plans the pulls.
pub fn plan_manual_insert_gacha_records(
    metadata: &GachaMetadata,
    business: AccountBusiness,
    uid: u32,
    gacha_type: u32,
    five_star_name: &str,
    pull_count: u32,
    end_time: &str,
    custom_locale: Option<String>,
) -> (r: Result<Vec<GachaRecord>, ManualInsertGachaRecordsError>)
    ensures
        !supported_manual_insert_gacha_type_spec(business, gacha_type) ==> (r matches Err(e)
            && e@ == (ManualInsertErrorView::UnsupportedGachaType { business, gacha_type })),
        supported_manual_insert_gacha_type_spec(business, gacha_type) && (pull_count == 0
            || pull_count > MANUAL_INSERT_PULL_COUNT_MAX) ==> (r matches Err(e) && e@
            == (ManualInsertErrorView::InvalidPullCount { pull_count })),
        supported_manual_insert_gacha_type_spec(business, gacha_type) && 1 <= pull_count
            <= MANUAL_INSERT_PULL_COUNT_MAX ==> match rfc3339_parse(end_time@) {
            Err(message) => (r matches Err(e) && e@ == (ManualInsertErrorView::InvalidEndTime {
                value: end_time@,
                cause: message,
            })),
            Ok((ts, ns, off)) => manual_insert_result_spec(
                r,
                *metadata,
                business,
                uid,
                gacha_type,
                five_star_name@,
                pull_count,
                GachaTime { unix_timestamp: ts, nanosecond: ns, offset_seconds: off },
                custom_locale,
            ),
        },
{
    if !is_supported_manual_insert_gacha_type(business, gacha_type) {
        return Err(ManualInsertGachaRecordsError::UnsupportedGachaType { business, gacha_type });
    }
    if pull_count == 0 || pull_count > MANUAL_INSERT_PULL_COUNT_MAX {
        return Err(ManualInsertGachaRecordsError::InvalidPullCount { pull_count });
    }
    let end = match parse_rfc3339(end_time) {
        Ok(t) => t,
        Err(cause) => {
            return Err(
                ManualInsertGachaRecordsError::InvalidEndTime {
                    value: end_time.to_owned(),
                    cause,
                },
            );
        },
    };
    plan_manual_insert_gacha_records_at(
        metadata,
        business,
        uid,
        gacha_type,
        five_star_name,
        pull_count,
        end,
        custom_locale,
    )
}


/// A value in the details of an error.
#[derive(Debug)]
pub enum ErrorDetailValue {
    Text(String),
    Number(u32),
    Business(AccountBusiness),
}

/// A detail value with its text as a character sequence.
pub enum ErrorDetailView {
    Text(Seq<char>),
    Number(u32),
    Business(AccountBusiness),
}

/// One named detail of an error.
#[derive(Debug)]
pub struct ErrorDetail {
    pub key: &'static str,
    pub value: ErrorDetailValue,
}

impl View for ErrorDetail {
    type V = (Seq<char>, ErrorDetailView);

    open spec fn view(&self) -> (Seq<char>, ErrorDetailView) {
        (
            self.key@,
            match &self.value {
                ErrorDetailValue::Text(t) => ErrorDetailView::Text(t@),
                ErrorDetailValue::Number(n) => ErrorDetailView::Number(*n),
                ErrorDetailValue::Business(b) => ErrorDetailView::Business(*b),
            },
        )
    }
}

/// The details of an error: its kind, then its fields, in declaration order.
pub open spec fn error_details_spec(e: ManualInsertErrorView) -> Seq<(Seq<char>, ErrorDetailView)> {
    match e {
        ManualInsertErrorView::UnsupportedBusiness { business } => seq![
            ("kind"@, ErrorDetailView::Text("UnsupportedBusiness"@)),
            ("business"@, ErrorDetailView::Business(business)),
        ],
        ManualInsertErrorView::UnsupportedGachaType { business, gacha_type } => seq![
            ("kind"@, ErrorDetailView::Text("UnsupportedGachaType"@)),
            ("business"@, ErrorDetailView::Business(business)),
            ("gacha_type"@, ErrorDetailView::Number(gacha_type)),
        ],
        ManualInsertErrorView::InvalidPullCount { pull_count } => seq![
            ("kind"@, ErrorDetailView::Text("InvalidPullCount"@)),
            ("pull_count"@, ErrorDetailView::Number(pull_count)),
        ],
        ManualInsertErrorView::InvalidEndTime { value, cause } => seq![
            ("kind"@, ErrorDetailView::Text("InvalidEndTime"@)),
            ("value"@, ErrorDetailView::Text(value)),
            ("cause"@, ErrorDetailView::Text(cause)),
        ],
        ManualInsertErrorView::MissingMetadataLocale { business, locale } => seq![
            ("kind"@, ErrorDetailView::Text("MissingMetadataLocale"@)),
            ("business"@, ErrorDetailView::Business(business)),
            ("locale"@, ErrorDetailView::Text(locale)),
        ],
        ManualInsertErrorView::CharacterNotFound { business, locale, name } => seq![
            ("kind"@, ErrorDetailView::Text("CharacterNotFound"@)),
            ("business"@, ErrorDetailView::Business(business)),
            ("locale"@, ErrorDetailView::Text(locale)),
            ("name"@, ErrorDetailView::Text(name)),
        ],
        ManualInsertErrorView::InvalidCharacter { business, locale, name } => seq![
            ("kind"@, ErrorDetailView::Text("InvalidCharacter"@)),
            ("business"@, ErrorDetailView::Business(business)),
            ("locale"@, ErrorDetailView::Text(locale)),
            ("name"@, ErrorDetailView::Text(name)),
        ],
        ManualInsertErrorView::MissingDefaultMetadataEntry { business, locale, item_id } => seq![
            ("kind"@, ErrorDetailView::Text("MissingDefaultMetadataEntry"@)),
            ("business"@, ErrorDetailView::Business(business)),
            ("locale"@, ErrorDetailView::Text(locale)),
            ("item_id"@, ErrorDetailView::Number(item_id)),
        ],
        ManualInsertErrorView::Sqlx { cause } => seq![
            ("kind"@, ErrorDetailView::Text("Sqlx"@)),
            ("cause"@, ErrorDetailView::Text(cause)),
        ],
    }
}

/// The message of an error.
pub open spec fn error_message_spec(e: ManualInsertErrorView) -> Seq<char> {
    match e {
        ManualInsertErrorView::UnsupportedBusiness { business } => "Unsupported business: "@
            + business_name_spec(business),
        ManualInsertErrorView::UnsupportedGachaType { business, gacha_type } => "Unsupported gacha type: "@
            + decimal_spec(gacha_type as nat) + " for business: "@ + business_name_spec(business),
        ManualInsertErrorView::InvalidPullCount { pull_count } => "Invalid pull count: "@
            + decimal_spec(pull_count as nat),
        ManualInsertErrorView::InvalidEndTime { value, cause } => "Invalid end time format: "@
            + value + ", cause: "@ + cause,
        ManualInsertErrorView::MissingMetadataLocale { business, locale } => "Missing metadata locale: "@
            + locale + " ("@ + business_name_spec(business) + ")"@,
        ManualInsertErrorView::CharacterNotFound { business, locale, name } => "Character not found in metadata: "@
            + name + " ("@ + business_name_spec(business) + ", "@ + locale + ")"@,
        ManualInsertErrorView::InvalidCharacter { business, locale, name } => "The character is not a supported 5-star entry: "@
            + name + " ("@ + business_name_spec(business) + ", "@ + locale + ")"@,
        ManualInsertErrorView::MissingDefaultMetadataEntry { business, locale, item_id } => "Missing default item metadata entry: id="@
            + decimal_spec(item_id as nat) + " ("@ + business_name_spec(business) + ", "@ + locale
            + ")"@,
        ManualInsertErrorView::Sqlx { cause } => "Database error: "@ + cause,
    }
}

fn detail_text(key: &'static str, value: &String) -> (r: ErrorDetail)
    ensures
        r@ == (key@, ErrorDetailView::Text(value@)),
{
    ErrorDetail { key, value: ErrorDetailValue::Text(value.clone()) }
}

impl ManualInsertGachaRecordsError {
    /// The name errors of this type are reported under.
    pub fn name(&self) -> (r: &'static str)
        ensures
            r@ == "ManualInsertGachaRecordsError"@,
    {
        "ManualInsertGachaRecordsError"
    }

    /// The details of this error: its kind, then its fields.
    pub fn details(&self) -> (r: Option<Vec<ErrorDetail>>)
        ensures
            r matches Some(v) && v@.map_values(|d: ErrorDetail| d@) == error_details_spec(self@),
    {
        let v = match self {
            ManualInsertGachaRecordsError::UnsupportedBusiness { business } => vec![
                ErrorDetail {
                    key: "kind",
                    value: ErrorDetailValue::Text("UnsupportedBusiness".to_owned()),
                },
                ErrorDetail { key: "business", value: ErrorDetailValue::Business(*business) },
            ],
            ManualInsertGachaRecordsError::UnsupportedGachaType { business, gacha_type } => vec![
                ErrorDetail {
                    key: "kind",
                    value: ErrorDetailValue::Text("UnsupportedGachaType".to_owned()),
                },
                ErrorDetail { key: "business", value: ErrorDetailValue::Business(*business) },
                ErrorDetail { key: "gacha_type", value: ErrorDetailValue::Number(*gacha_type) },
            ],
            ManualInsertGachaRecordsError::InvalidPullCount { pull_count } => vec![
                ErrorDetail {
                    key: "kind",
                    value: ErrorDetailValue::Text("InvalidPullCount".to_owned()),
                },
                ErrorDetail { key: "pull_count", value: ErrorDetailValue::Number(*pull_count) },
            ],
            ManualInsertGachaRecordsError::InvalidEndTime { value, cause } => vec![
                ErrorDetail {
                    key: "kind",
                    value: ErrorDetailValue::Text("InvalidEndTime".to_owned()),
                },
                detail_text("value", value),
                detail_text("cause", cause),
            ],
            ManualInsertGachaRecordsError::MissingMetadataLocale { business, locale } => vec![
                ErrorDetail {
                    key: "kind",
                    value: ErrorDetailValue::Text("MissingMetadataLocale".to_owned()),
                },
                ErrorDetail { key: "business", value: ErrorDetailValue::Business(*business) },
                detail_text("locale", locale),
            ],
            ManualInsertGachaRecordsError::CharacterNotFound { business, locale, name } => vec![
                ErrorDetail {
                    key: "kind",
                    value: ErrorDetailValue::Text("CharacterNotFound".to_owned()),
                },
                ErrorDetail { key: "business", value: ErrorDetailValue::Business(*business) },
                detail_text("locale", locale),
                detail_text("name", name),
            ],
            ManualInsertGachaRecordsError::InvalidCharacter { business, locale, name } => vec![
                ErrorDetail {
                    key: "kind",
                    value: ErrorDetailValue::Text("InvalidCharacter".to_owned()),
                },
                ErrorDetail { key: "business", value: ErrorDetailValue::Business(*business) },
                detail_text("locale", locale),
                detail_text("name", name),
            ],
            ManualInsertGachaRecordsError::MissingDefaultMetadataEntry {
                business,
                locale,
                item_id,
            } => vec![
                ErrorDetail {
                    key: "kind",
                    value: ErrorDetailValue::Text("MissingDefaultMetadataEntry".to_owned()),
                },
                ErrorDetail { key: "business", value: ErrorDetailValue::Business(*business) },
                detail_text("locale", locale),
                ErrorDetail { key: "item_id", value: ErrorDetailValue::Number(*item_id) },
            ],
            ManualInsertGachaRecordsError::Sqlx { cause } => vec![
                ErrorDetail { key: "kind", value: ErrorDetailValue::Text("Sqlx".to_owned()) },
                detail_text("cause", cause),
            ],
        };
        assert(v@.map_values(|d: ErrorDetail| d@) =~= error_details_spec(self@));
        Some(v)
    }

    /// The message of this error.
    pub fn message(&self) -> (r: String)
        ensures
            r@ == error_message_spec(self@),
    {
        match self {
            ManualInsertGachaRecordsError::UnsupportedBusiness { business } => {
                let mut s = "Unsupported business: ".to_owned();
                s.append(business.name());
                s
            },
            ManualInsertGachaRecordsError::UnsupportedGachaType { business, gacha_type } => {
                let mut s = "Unsupported gacha type: ".to_owned();
                push_decimal(&mut s, *gacha_type as u64);
                s.append(" for business: ");
                s.append(business.name());
                s
            },
            ManualInsertGachaRecordsError::InvalidPullCount { pull_count } => {
                let mut s = "Invalid pull count: ".to_owned();
                push_decimal(&mut s, *pull_count as u64);
                s
            },
            ManualInsertGachaRecordsError::InvalidEndTime { value, cause } => {
                let mut s = "Invalid end time format: ".to_owned();
                s.append(value.as_str());
                s.append(", cause: ");
                s.append(cause.as_str());
                s
            },
            ManualInsertGachaRecordsError::MissingMetadataLocale { business, locale } => {
                let mut s = "Missing metadata locale: ".to_owned();
                s.append(locale.as_str());
                s.append(" (");
                s.append(business.name());
                s.append(")");
                s
            },
            ManualInsertGachaRecordsError::CharacterNotFound { business, locale, name } => {
                let mut s = "Character not found in metadata: ".to_owned();
                s.append(name.as_str());
                s.append(" (");
                s.append(business.name());
                s.append(", ");
                s.append(locale.as_str());
                s.append(")");
                s
            },
            ManualInsertGachaRecordsError::InvalidCharacter { business, locale, name } => {
                let mut s = "The character is not a supported 5-star entry: ".to_owned();
                s.append(name.as_str());
                s.append(" (");
                s.append(business.name());
                s.append(", ");
                s.append(locale.as_str());
                s.append(")");
                s
            },
            ManualInsertGachaRecordsError::MissingDefaultMetadataEntry {
                business,
                locale,
                item_id,
            } => {
                let mut s = "Missing default item metadata entry: id=".to_owned();
                push_decimal(&mut s, *item_id as u64);
                s.append(" (");
                s.append(business.name());
                s.append(", ");
                s.append(locale.as_str());
                s.append(")");
                s
            },
            ManualInsertGachaRecordsError::Sqlx { cause } => {
                let mut s = "Database error: ".to_owned();
                s.append(cause.as_str());
                s
            },
        }
    }
}


/// The pulls of a manual insertion have pairwise distinct ids, so none of them
/// is dropped as a duplicate when they are stored.
pub proof fn lemma_manual_insert_ids_distinct(
    records: Seq<GachaRecord>,
    business: AccountBusiness,
    uid: u32,
    gacha_type: u32,
    lang: Seq<char>,
    end_time: GachaTime,
    pull_count: u32,
    golden: MetadataEntry,
    purple: MetadataEntry,
    blue: MetadataEntry,
)
    requires
        pull_count <= MANUAL_INSERT_PULL_COUNT_MAX,
        is_manual_insert_records(
            records,
            business,
            uid,
            gacha_type,
            lang,
            end_time,
            pull_count,
            golden,
            purple,
            blue,
        ),
    ensures
        forall|i: int, j: int|
            0 <= i < j < records.len() ==> (#[trigger] records[i]).id@ != (#[trigger] records[j]).id@,
{
    reveal_with_fuel(pow10, 10);
    assert(pow10(9) == 1_000_000_000nat);
    assert forall|i: int, j: int| 0 <= i < j < records.len() implies (#[trigger] records[i]).id@
        != (#[trigger] records[j]).id@ by {
        assert(is_manual_insert_record(
            records[i],
            business,
            uid,
            gacha_type,
            lang,
            end_time,
            pull_count,
            i,
            golden,
            purple,
            blue,
        ));
        assert(is_manual_insert_record(
            records[j],
            business,
            uid,
            gacha_type,
            lang,
            end_time,
            pull_count,
            j,
            golden,
            purple,
            blue,
        ));
        lemma_zero_padded(i as nat, 9);
        lemma_zero_padded(j as nat, 9);
        let a = records[i].id@;
        let b = records[j].id@;
        let pa = zero_padded_spec(i as nat, 9);
        let pb = zero_padded_spec(j as nat, 9);
        let sa = signed_decimal_spec(manual_insert_time_spec(end_time, pull_count, i).unix_timestamp as int);
        let sb = signed_decimal_spec(manual_insert_time_spec(end_time, pull_count, j).unix_timestamp as int);
        assert(a == sa + pa);
        assert(b == sb + pb);
        assert((sa + pa).skip(sa.len() as int) =~= pa);
        assert((sb + pb).skip(sb.len() as int) =~= pb);
        if a == b {
            assert(pa == pb);
        }
    }
}

/// The last pull of a manual insertion is the requested top-rank item, at the
/// end time; each pull is one second after the one before.
pub proof fn lemma_manual_insert_ends_with_golden(
    records: Seq<GachaRecord>,
    business: AccountBusiness,
    uid: u32,
    gacha_type: u32,
    lang: Seq<char>,
    end_time: GachaTime,
    pull_count: u32,
    golden: MetadataEntry,
    purple: MetadataEntry,
    blue: MetadataEntry,
)
    requires
        1 <= pull_count,
        is_rfc3339_time(end_time),
        is_manual_insert_records(
            records,
            business,
            uid,
            gacha_type,
            lang,
            end_time,
            pull_count,
            golden,
            purple,
            blue,
        ),
    ensures
        records.last().item_id == golden.item_id,
        records.last().item_name@ == golden.item_name@,
        records.last().time == end_time,
        forall|i: int|
            0 < i < records.len() ==> (#[trigger] records[i]).time.unix_timestamp == records[i
                - 1].time.unix_timestamp + 1,
{
    let last = records.len() - 1;
    assert(is_manual_insert_record(
        records[last],
        business,
        uid,
        gacha_type,
        lang,
        end_time,
        pull_count,
        last,
        golden,
        purple,
        blue,
    ));
    assert forall|i: int| 0 < i < records.len() implies (#[trigger] records[i]).time.unix_timestamp
        == records[i - 1].time.unix_timestamp + 1 by {
        assert(is_manual_insert_record(
            records[i - 1],
            business,
            uid,
            gacha_type,
            lang,
            end_time,
            pull_count,
            i - 1,
            golden,
            purple,
            blue,
        ));
    }
}

/// The entry a name resolves to is an entry of the current locale, so its name
/// and category name are those of the requested language.
pub proof fn lemma_resolved_entry_in_current_locale(
    current: MetadataLocale,
    locales: Option<Seq<MetadataLocale>>,
    candidates: Seq<Seq<char>>,
    categories: Seq<&'static str>,
    golden_rank: u8,
)
    ensures
        resolve_golden_entry_spec(current, locales, candidates, categories, golden_rank) matches Some(
            e,
        ) ==> current.entries@.contains(e),
    decreases candidates.len(),
{
    if candidates.len() > 0 {
        lemma_resolved_entry_in_current_locale(
            current,
            locales,
            candidates.drop_first(),
            categories,
            golden_rank,
        );
        lemma_first_where_found(
            current.entries@,
            golden_entry_named(candidates[0], categories, golden_rank),
        );
        if let Some(ls) = locales {
            lemma_through_locales_in_current(current, ls, candidates[0], categories, golden_rank);
        }
    }
}

proof fn lemma_through_locales_in_current(
    current: MetadataLocale,
    locales: Seq<MetadataLocale>,
    name: Seq<char>,
    categories: Seq<&'static str>,
    golden_rank: u8,
)
    ensures
        resolve_through_locales_spec(current, locales, name, categories, golden_rank) matches Some(
            e,
        ) ==> current.entries@.contains(e),
    decreases locales.len(),
{
    if locales.len() > 0 {
        lemma_through_locales_in_current(
            current,
            locales.drop_first(),
            name,
            categories,
            golden_rank,
        );
        if let Some(e) = first_where(
            locales[0].entries@,
            golden_entry_named(name, categories, golden_rank),
        ) {
            lemma_first_where_found(current.entries@, entry_with_id(e.item_id));
        }
    }
}

/// The categories of `r`, read as texts, are exactly `names`, in order.
pub open spec fn categories_named(
    r: Result<Seq<&'static str>, ManualInsertErrorView>,
    names: Seq<Seq<char>>,
) -> bool {
    &&& r is Ok
    &&& r->Ok_0.len() == names.len()
    &&& forall|i: int| 0 <= i < names.len() ==> (#[trigger] r->Ok_0[i])@ == names[i]
}

/// The top-rank categories of every supported gacha type: Genshin Impact's
/// character event wishes (301, 400) end with a character, its weapon wish
/// (302) with a weapon, its other wishes (100, 200, 500) with either; Star
/// Rail's character warps (11, 12) with a character, its light cone warps (21,
/// 22) with a light cone, its other warps (1, 2) with either; Zenless Zone
/// Zero's agent channels (1, 102) with an agent, its W-engine channels (2, 103)
/// with a W-engine, its standard channel (3) with either, and its Bangboo
/// channel (5) with a Bangboo. The top rank is 5 in Genshin Impact and Star
/// Rail and 4 (S) in Zenless Zone Zero, and Miliastra Wonderland is refused.
pub proof fn lemma_golden_categories_table()
    ensures
        categories_named(golden_categories_spec(AccountBusiness::GenshinImpact, 301), seq!["Character"@]),
        categories_named(golden_categories_spec(AccountBusiness::GenshinImpact, 400), seq!["Character"@]),
        categories_named(golden_categories_spec(AccountBusiness::GenshinImpact, 302), seq!["Weapon"@]),
        categories_named(golden_categories_spec(AccountBusiness::GenshinImpact, 100), seq!["Character"@, "Weapon"@]),
        categories_named(golden_categories_spec(AccountBusiness::GenshinImpact, 200), seq!["Character"@, "Weapon"@]),
        categories_named(golden_categories_spec(AccountBusiness::GenshinImpact, 500), seq!["Character"@, "Weapon"@]),
        categories_named(golden_categories_spec(AccountBusiness::HonkaiStarRail, 11), seq!["Character"@]),
        categories_named(golden_categories_spec(AccountBusiness::HonkaiStarRail, 12), seq!["Character"@]),
        categories_named(golden_categories_spec(AccountBusiness::HonkaiStarRail, 21), seq!["Weapon"@]),
        categories_named(golden_categories_spec(AccountBusiness::HonkaiStarRail, 22), seq!["Weapon"@]),
        categories_named(golden_categories_spec(AccountBusiness::HonkaiStarRail, 1), seq!["Character"@, "Weapon"@]),
        categories_named(golden_categories_spec(AccountBusiness::HonkaiStarRail, 2), seq!["Character"@, "Weapon"@]),
        categories_named(golden_categories_spec(AccountBusiness::ZenlessZoneZero, 1), seq!["Character"@]),
        categories_named(golden_categories_spec(AccountBusiness::ZenlessZoneZero, 102), seq!["Character"@]),
        categories_named(golden_categories_spec(AccountBusiness::ZenlessZoneZero, 2), seq!["Weapon"@]),
        categories_named(golden_categories_spec(AccountBusiness::ZenlessZoneZero, 103), seq!["Weapon"@]),
        categories_named(golden_categories_spec(AccountBusiness::ZenlessZoneZero, 3), seq!["Character"@, "Weapon"@]),
        categories_named(golden_categories_spec(AccountBusiness::ZenlessZoneZero, 5), seq!["Bangboo"@]),
        golden_rank_spec(AccountBusiness::GenshinImpact) == Ok::<u8, ManualInsertErrorView>(5),
        golden_rank_spec(AccountBusiness::HonkaiStarRail) == Ok::<u8, ManualInsertErrorView>(5),
        golden_rank_spec(AccountBusiness::ZenlessZoneZero) == Ok::<u8, ManualInsertErrorView>(4),
        golden_rank_spec(AccountBusiness::MiliastraWonderland) is Err,
        forall|t: u32| golden_categories_spec(AccountBusiness::MiliastraWonderland, t) is Err,
{
    reveal_strlit("Character");
    reveal_strlit("Weapon");
    reveal_strlit("Bangboo");
}

/// Manual insertion supports a gacha type exactly when the gacha type has
/// top-rank categories; the others are refused as unsupported gacha types (or,
/// for a business without manual insertion, as an unsupported business).
pub proof fn lemma_supported_gacha_types_have_categories(business: AccountBusiness, gacha_type: u32)
    ensures
        supported_manual_insert_gacha_type_spec(business, gacha_type) <==> golden_categories_spec(
            business,
            gacha_type,
        ) is Ok,
        !supported_manual_insert_gacha_type_spec(business, gacha_type)
            && business != AccountBusiness::MiliastraWonderland ==> golden_categories_spec(
            business,
            gacha_type,
        ) == Err::<Seq<&'static str>, ManualInsertErrorView>(
            ManualInsertErrorView::UnsupportedGachaType { business, gacha_type },
        ),
{
}

/// An entry matches exactly when it has the required rank and its category key
/// (not its localized category name) is one of the allowed categories; so two
/// entries with the same category key and rank match alike, whatever their
/// names and category names.
pub proof fn lemma_entry_match_by_category_key(
    entry: MetadataEntry,
    other: MetadataEntry,
    categories: Seq<&'static str>,
    golden_rank: u8,
)
    ensures
        entry_matches_spec(entry, categories, golden_rank) <==> (entry.rank_type == golden_rank
            && exists|i: int| 0 <= i < categories.len() && (#[trigger] categories[i])@ == entry.category@),
        entry.category@ == other.category@ && entry.rank_type == other.rank_type ==> (
        entry_matches_spec(entry, categories, golden_rank) == entry_matches_spec(
            other,
            categories,
            golden_rank,
        )),
{
}

/// The names a typed-in name is looked up under start with the trimmed name;
/// a name not wrapped in `「」` is also tried wrapped, and a name wrapped in
/// `「」` around something is also tried unwrapped.
pub proof fn lemma_name_candidates(raw: Seq<char>)
    ensures
        name_candidates_spec(raw).len() >= 1,
        name_candidates_spec(raw)[0] == trim_spec(raw),
        (trim_spec(raw).len() == 0 || (trim_spec(raw)[0] != '「' && trim_spec(raw).last() != '」'))
            ==> name_candidates_spec(raw).contains(seq!['「'] + trim_spec(raw) + seq!['」']),
        (trim_spec(raw).len() >= 3 && trim_spec(raw)[0] == '「' && trim_spec(raw).last() == '」')
            ==> name_candidates_spec(raw).contains(
            trim_spec(raw).subrange(1, trim_spec(raw).len() - 1),
        ),
{
    let c = name_candidates_spec(raw);
    let t = trim_spec(raw);
    if t.len() == 0 || (t[0] != '「' && t.last() != '」') {
        assert(c[1] == seq!['「'] + t + seq!['」']);
    }
    if t.len() >= 3 && t[0] == '「' && t.last() == '」' {
        assert(c[c.len() - 1] == t.subrange(1, t.len() - 1));
    }
}

/// Every candidate name is tried in turn: the name resolves to what the first
/// resolving candidate resolves to, and to nothing only when no candidate
/// resolves.
pub proof fn lemma_resolve_golden_entry_first_candidate(
    current: MetadataLocale,
    locales: Option<Seq<MetadataLocale>>,
    candidates: Seq<Seq<char>>,
    categories: Seq<&'static str>,
    golden_rank: u8,
)
    ensures
        (forall|i: int|
            0 <= i < candidates.len() ==> resolve_candidate_spec(
                current,
                locales,
                #[trigger] candidates[i],
                categories,
                golden_rank,
            ) is None) ==> resolve_golden_entry_spec(
            current,
            locales,
            candidates,
            categories,
            golden_rank,
        ) is None,
        forall|i: int|
            0 <= i < candidates.len() && resolve_candidate_spec(
                current,
                locales,
                #[trigger] candidates[i],
                categories,
                golden_rank,
            ) is Some && (forall|j: int|
                0 <= j < i ==> resolve_candidate_spec(
                    current,
                    locales,
                    #[trigger] candidates[j],
                    categories,
                    golden_rank,
                ) is None) ==> resolve_golden_entry_spec(
                current,
                locales,
                candidates,
                categories,
                golden_rank,
            ) == resolve_candidate_spec(current, locales, candidates[i], categories, golden_rank),
    decreases candidates.len(),
{
    if candidates.len() > 0 {
        let rest = candidates.drop_first();
        lemma_resolve_golden_entry_first_candidate(current, locales, rest, categories, golden_rank);
        assert forall|i: int|
            0 <= i < rest.len() implies #[trigger] rest[i] == candidates[i + 1] by {}
        if forall|i: int|
            0 <= i < candidates.len() ==> resolve_candidate_spec(
                current,
                locales,
                #[trigger] candidates[i],
                categories,
                golden_rank,
            ) is None {
            assert(resolve_candidate_spec(current, locales, candidates[0], categories, golden_rank)
                is None);
            assert forall|i: int| 0 <= i < rest.len() implies resolve_candidate_spec(
                current,
                locales,
                #[trigger] rest[i],
                categories,
                golden_rank,
            ) is None by {
                assert(rest[i] == candidates[i + 1]);
            }
        }
        assert forall|i: int|
            0 <= i < candidates.len() && resolve_candidate_spec(
                current,
                locales,
                #[trigger] candidates[i],
                categories,
                golden_rank,
            ) is Some && (forall|j: int|
                0 <= j < i ==> resolve_candidate_spec(
                    current,
                    locales,
                    #[trigger] candidates[j],
                    categories,
                    golden_rank,
                ) is None) implies resolve_golden_entry_spec(
            current,
            locales,
            candidates,
            categories,
            golden_rank,
        ) == resolve_candidate_spec(current, locales, candidates[i], categories, golden_rank) by {
            if i > 0 {
                assert(resolve_candidate_spec(current, locales, candidates[0], categories, golden_rank)
                    is None);
                assert(rest[i - 1] == candidates[i]);
                assert forall|j: int| 0 <= j < i - 1 implies resolve_candidate_spec(
                    current,
                    locales,
                    #[trigger] rest[j],
                    categories,
                    golden_rank,
                ) is None by {
                    assert(rest[j] == candidates[j + 1]);
                }
            }
        }
    }
}

/// The gacha types manual insertion supports, and the low-rank and mid-rank
/// filler items of each business: Genshin Impact's wishes 100, 200, 301, 302,
/// 400 and 500 with fillers 12305 and 11401; Star Rail's warps 1, 2, 11, 12, 21
/// and 22 with fillers 20000 and 21000; Zenless Zone Zero's channels 1, 2, 3, 5,
/// 102 and 103 with fillers 12001 and 13001; nothing of Miliastra Wonderland.
pub proof fn lemma_manual_insert_support_table(gacha_type: u32)
    ensures
        supported_manual_insert_gacha_type_spec(AccountBusiness::GenshinImpact, gacha_type) <==> (
        gacha_type == 100 || gacha_type == 200 || gacha_type == 301 || gacha_type == 302
            || gacha_type == 400 || gacha_type == 500),
        supported_manual_insert_gacha_type_spec(AccountBusiness::HonkaiStarRail, gacha_type) <==> (
        gacha_type == 1 || gacha_type == 2 || gacha_type == 11 || gacha_type == 12 || gacha_type
            == 21 || gacha_type == 22),
        supported_manual_insert_gacha_type_spec(AccountBusiness::ZenlessZoneZero, gacha_type) <==> (
        gacha_type == 1 || gacha_type == 2 || gacha_type == 3 || gacha_type == 5 || gacha_type
            == 102 || gacha_type == 103),
        !supported_manual_insert_gacha_type_spec(AccountBusiness::MiliastraWonderland, gacha_type),
        default_item_ids_spec(AccountBusiness::GenshinImpact) == Ok::<
            (u32, u32),
            ManualInsertErrorView,
        >((12305, 11401)),
        default_item_ids_spec(AccountBusiness::HonkaiStarRail) == Ok::<
            (u32, u32),
            ManualInsertErrorView,
        >((20000, 21000)),
        default_item_ids_spec(AccountBusiness::ZenlessZoneZero) == Ok::<
            (u32, u32),
            ManualInsertErrorView,
        >((12001, 13001)),
        default_item_ids_spec(AccountBusiness::MiliastraWonderland) is Err,
{
}

/// Metadata is looked up in the custom locale when one is given and not
/// blank, and in `en-us` otherwise.
pub proof fn lemma_resolved_locale(custom_locale: Option<String>)
    ensures
        custom_locale is None ==> resolved_locale_spec(custom_locale) == "en-us"@,
        custom_locale matches Some(l) ==> (trim_spec(l@).len() == 0 ==> resolved_locale_spec(
            custom_locale,
        ) == "en-us"@),
        custom_locale matches Some(l) ==> (trim_spec(l@).len() > 0 ==> resolved_locale_spec(
            custom_locale,
        ) == l@),
{
    reveal_strlit("en-us");
}

/// What each synthesized pull holds: the last one is the top-rank item, every
/// eighth one before it the mid-rank filler, the others the low-rank filler,
/// each with its entry's name, localized category name as item type and rank;
/// all in the language and gacha type asked for, one item each, flagged as
/// manually inserted, and with a gacha id (the timestamp, at least 0) only for
/// Star Rail and Zenless Zone Zero.
pub proof fn lemma_manual_insert_pull_contents(
    records: Seq<GachaRecord>,
    business: AccountBusiness,
    uid: u32,
    gacha_type: u32,
    lang: Seq<char>,
    end_time: GachaTime,
    pull_count: u32,
    golden: MetadataEntry,
    purple: MetadataEntry,
    blue: MetadataEntry,
)
    requires
        is_manual_insert_records(
            records,
            business,
            uid,
            gacha_type,
            lang,
            end_time,
            pull_count,
            golden,
            purple,
            blue,
        ),
    ensures
        records.len() == pull_count,
        forall|i: int|
            0 <= i < records.len() ==> {
                let r = #[trigger] records[i];
                let e = if i == records.len() - 1 {
                    golden
                } else if (i + 1) % 8 == 0 {
                    purple
                } else {
                    blue
                };
                &&& r.item_id == e.item_id
                &&& r.item_name@ == e.item_name@
                &&& r.item_type@ == e.category_name@
                &&& r.rank_type == e.rank_type as u32
                &&& r.business == business
                &&& r.uid == uid
                &&& r.gacha_type == gacha_type
                &&& r.lang@ == lang
                &&& r.count == 1
                &&& r.properties matches Some(p) && p@ == "{\"manualInsert\":true}"@
                &&& (business == AccountBusiness::HonkaiStarRail || business
                    == AccountBusiness::ZenlessZoneZero) ==> r.gacha_id == Some(
                    (if r.time.unix_timestamp < 0 {
                        0
                    } else {
                        r.time.unix_timestamp
                    }) as u32,
                )
                &&& (business == AccountBusiness::GenshinImpact || business
                    == AccountBusiness::MiliastraWonderland) ==> r.gacha_id is None
            },
{
    reveal_strlit("{\"manualInsert\":true}");
    assert forall|i: int| 0 <= i < records.len() implies {
        let r = #[trigger] records[i];
        let e = if i == records.len() - 1 {
            golden
        } else if (i + 1) % 8 == 0 {
            purple
        } else {
            blue
        };
        &&& r.item_id == e.item_id
        &&& r.item_name@ == e.item_name@
        &&& r.item_type@ == e.category_name@
        &&& r.rank_type == e.rank_type as u32
        &&& r.business == business
        &&& r.uid == uid
        &&& r.gacha_type == gacha_type
        &&& r.lang@ == lang
        &&& r.count == 1
        &&& r.properties matches Some(p) && p@ == "{\"manualInsert\":true}"@
        &&& (business == AccountBusiness::HonkaiStarRail || business
            == AccountBusiness::ZenlessZoneZero) ==> r.gacha_id == Some(
            (if r.time.unix_timestamp < 0 {
                0
            } else {
                r.time.unix_timestamp
            }) as u32,
        )
        &&& (business == AccountBusiness::GenshinImpact || business
            == AccountBusiness::MiliastraWonderland) ==> r.gacha_id is None
    } by {
        assert(is_manual_insert_record(
            records[i],
            business,
            uid,
            gacha_type,
            lang,
            end_time,
            pull_count,
            i,
            golden,
            purple,
            blue,
        ));
    }
}

/// Whether `entries` hold an entry named `name`, with rank `golden_rank` and an
/// allowed category, whose id is `item_id`.
pub open spec fn has_golden_named(
    entries: Seq<MetadataEntry>,
    name: Seq<char>,
    categories: Seq<&'static str>,
    golden_rank: u8,
    item_id: u32,
) -> bool {
    exists|i: int|
        0 <= i < entries.len() && (#[trigger] entries[i]).item_name@ == name && entry_matches_spec(
            entries[i],
            categories,
            golden_rank,
        ) && entries[i].item_id == item_id
}

/// Whether `entries` hold an entry with id `item_id`.
pub open spec fn has_item_id(entries: Seq<MetadataEntry>, item_id: u32) -> bool {
    exists|i: int| 0 <= i < entries.len() && (#[trigger] entries[i]).item_id == item_id
}

/// Whether the first entry of `entries` named `name` with the top rank and an
/// allowed category has its id among `current`.
pub open spec fn first_golden_id_known(
    entries: Seq<MetadataEntry>,
    current: Seq<MetadataEntry>,
    name: Seq<char>,
    categories: Seq<&'static str>,
    golden_rank: u8,
) -> bool {
    match first_where(entries, golden_entry_named(name, categories, golden_rank)) {
        Some(f) => has_item_id(current, f.item_id),
        None => false,
    }
}

proof fn lemma_through_locales_resolution(
    current: MetadataLocale,
    locales: Seq<MetadataLocale>,
    name: Seq<char>,
    categories: Seq<&'static str>,
    golden_rank: u8,
)
    ensures
        resolve_through_locales_spec(current, locales, name, categories, golden_rank) matches Some(
            e,
        ) ==> current.entries@.contains(e) && exists|x: int|
            0 <= x < locales.len() && has_golden_named(
                (#[trigger] locales[x]).entries@,
                name,
                categories,
                golden_rank,
                e.item_id,
            ),
        forall|x: int|
            0 <= x < locales.len() && first_golden_id_known(
                (#[trigger] locales[x]).entries@,
                current.entries@,
                name,
                categories,
                golden_rank,
            )
                ==> resolve_through_locales_spec(
                current,
                locales,
                name,
                categories,
                golden_rank,
            ) is Some,
    decreases locales.len(),
{
    if locales.len() > 0 {
        let rest = locales.drop_first();
        lemma_through_locales_resolution(current, rest, name, categories, golden_rank);
        let p = golden_entry_named(name, categories, golden_rank);
        lemma_first_where_found(locales[0].entries@, p);
        let r = resolve_through_locales_spec(current, locales, name, categories, golden_rank);
        let found = match first_where(locales[0].entries@, p) {
            Some(f) => first_where(current.entries@, entry_with_id(f.item_id)),
            None => None,
        };
        if let Some(f) = first_where(locales[0].entries@, p) {
            lemma_first_where_found(current.entries@, entry_with_id(f.item_id));
            let i = choose|i: int| 0 <= i < locales[0].entries@.len() && locales[0].entries@[i] == f;
            assert(has_golden_named(locales[0].entries@, name, categories, golden_rank, f.item_id));
        }
        if found is None {
            if let Some(e) = r {
                let x = choose|x: int|
                    0 <= x < rest.len() && has_golden_named(
                        (#[trigger] rest[x]).entries@,
                        name,
                        categories,
                        golden_rank,
                        e.item_id,
                    );
                assert(rest[x] == locales[x + 1]);
            }
            assert forall|x: int|
                0 <= x < locales.len() && first_golden_id_known(
                    (#[trigger] locales[x]).entries@,
                    current.entries@,
                    name,
                    categories,
                    golden_rank,
                ) implies r is Some by {
                if x == 0 {
                    let f = first_where(locales[0].entries@, p)->0;
                    let i = choose|i: int|
                        0 <= i < current.entries@.len() && (#[trigger] current.entries@[i]).item_id
                            == f.item_id;
                    assert((entry_with_id(f.item_id))(current.entries@[i]));
                } else {
                    assert(rest[x - 1] == locales[x]);
                }
            }
        } else {
            let e = found->0;
            let f = first_where(locales[0].entries@, p)->0;
            assert(e.item_id == f.item_id);
        }
    }
}

/// A candidate name resolves to an entry of the current locale: one named so
/// with the top rank and an allowed category, or one whose id is that of such
/// an entry of another locale of the business. It resolves whenever the current
/// locale has such an entry, and whenever another locale's first such entry has
/// its id in the current locale.
pub proof fn lemma_resolve_candidate(
    current: MetadataLocale,
    locales: Option<Seq<MetadataLocale>>,
    name: Seq<char>,
    categories: Seq<&'static str>,
    golden_rank: u8,
)
    ensures
        resolve_candidate_spec(current, locales, name, categories, golden_rank) matches Some(e)
            ==> current.entries@.contains(e) && ((e.item_name@ == name && entry_matches_spec(
            e,
            categories,
            golden_rank,
        )) || (locales is Some && exists|x: int|
            0 <= x < locales->0.len() && has_golden_named(
                (#[trigger] locales->0[x]).entries@,
                name,
                categories,
                golden_rank,
                e.item_id,
            ))),
        (exists|i: int|
            0 <= i < current.entries@.len() && (#[trigger] current.entries@[i]).item_name@ == name
                && entry_matches_spec(current.entries@[i], categories, golden_rank))
            ==> resolve_candidate_spec(current, locales, name, categories, golden_rank) is Some,
        locales is Some ==> forall|x: int|
            0 <= x < locales->0.len() && first_golden_id_known(
                (#[trigger] locales->0[x]).entries@,
                current.entries@,
                name,
                categories,
                golden_rank,
            )
                ==> resolve_candidate_spec(current, locales, name, categories, golden_rank) is Some,
{
    let p = golden_entry_named(name, categories, golden_rank);
    lemma_first_where_found(current.entries@, p);
    if let Some(ls) = locales {
        lemma_through_locales_resolution(current, ls, name, categories, golden_rank);
    }
    if exists|i: int|
        0 <= i < current.entries@.len() && (#[trigger] current.entries@[i]).item_name@ == name
            && entry_matches_spec(current.entries@[i], categories, golden_rank) {
        let i = choose|i: int|
            0 <= i < current.entries@.len() && (#[trigger] current.entries@[i]).item_name@ == name
                && entry_matches_spec(current.entries@[i], categories, golden_rank);
        assert(p(current.entries@[i]));
    }
}

/// Whether some entry of `entries` is named `name`.
pub open spec fn names_entry(entries: Seq<MetadataEntry>, name: Seq<char>) -> bool {
    exists|j: int| 0 <= j < entries.len() && (#[trigger] entries[j]).item_name@ == name
}

/// Whether some locale of `locales` has an entry named `name`.
pub open spec fn names_entry_in_some(locales: Seq<MetadataLocale>, name: Seq<char>) -> bool {
    exists|x: int| 0 <= x < locales.len() && names_entry((#[trigger] locales[x]).entries@, name)
}

proof fn lemma_first_named(entries: Seq<MetadataEntry>, name: Seq<char>)
    ensures
        first_where(entries, entry_named(name)) is Some <==> names_entry(entries, name),
{
    lemma_first_where_found(entries, entry_named(name));
    if names_entry(entries, name) {
        let j = choose|j: int| 0 <= j < entries.len() && (#[trigger] entries[j]).item_name@ == name;
        assert((entry_named(name))(entries[j]));
    }
}

/// A name that resolves to no entry is reported as not a valid top-rank entry
/// exactly when some candidate name names an entry, of any rank or category, in
/// the current locale or in another locale of the business; otherwise it is
/// reported as not found.
pub proof fn lemma_name_known(
    current: MetadataLocale,
    locales: Option<Seq<MetadataLocale>>,
    candidates: Seq<Seq<char>>,
)
    ensures
        name_known_spec(current, locales, candidates) <==> exists|i: int|
            0 <= i < candidates.len() && (names_entry(current.entries@, #[trigger] candidates[i])
                || (locales is Some && names_entry_in_some(locales->0, candidates[i]))),
{
    assert forall|c: Seq<char>| #[trigger] names_entry(current.entries@, c) == (first_where(
        current.entries@,
        entry_named(c),
    ) is Some) by {
        lemma_first_named(current.entries@, c);
    }
    if let Some(ls) = locales {
        assert forall|c: Seq<char>| #[trigger] names_entry_in_some(ls, c) == name_in_locales_spec(
            ls,
            c,
        ) by {
            if names_entry_in_some(ls, c) {
                let x = choose|x: int| 0 <= x < ls.len() && names_entry((#[trigger] ls[x]).entries@, c);
                lemma_first_named(ls[x].entries@, c);
            }
            if name_in_locales_spec(ls, c) {
                let x = choose|x: int|
                    0 <= x < ls.len() && first_where((#[trigger] ls[x]).entries@, entry_named(c))
                        is Some;
                lemma_first_named(ls[x].entries@, c);
            }
        }
    }
}

/// The id of each synthesized pull is its timestamp in decimal followed by
/// nine digits that read as its index.
pub proof fn lemma_manual_insert_record_ids(
    records: Seq<GachaRecord>,
    business: AccountBusiness,
    uid: u32,
    gacha_type: u32,
    lang: Seq<char>,
    end_time: GachaTime,
    pull_count: u32,
    golden: MetadataEntry,
    purple: MetadataEntry,
    blue: MetadataEntry,
)
    requires
        pull_count <= MANUAL_INSERT_PULL_COUNT_MAX,
        is_manual_insert_records(
            records,
            business,
            uid,
            gacha_type,
            lang,
            end_time,
            pull_count,
            golden,
            purple,
            blue,
        ),
    ensures
        forall|i: int|
            0 <= i < records.len() ==> {
                let id = (#[trigger] records[i]).id@;
                &&& id.len() >= 9
                &&& id.subrange(0, id.len() - 9) == signed_decimal_spec(
                    records[i].time.unix_timestamp as int,
                )
                &&& all_ascii_digits(id.skip(id.len() - 9))
                &&& digits_value(id.skip(id.len() - 9)) == i
            },
{
    reveal_with_fuel(pow10, 10);
    assert(pow10(9) == 1_000_000_000nat);
    assert forall|i: int| 0 <= i < records.len() implies {
        let id = (#[trigger] records[i]).id@;
        &&& id.len() >= 9
        &&& id.subrange(0, id.len() - 9) == signed_decimal_spec(
            records[i].time.unix_timestamp as int,
        )
        &&& all_ascii_digits(id.skip(id.len() - 9))
        &&& digits_value(id.skip(id.len() - 9)) == i
    } by {
        assert(is_manual_insert_record(
            records[i],
            business,
            uid,
            gacha_type,
            lang,
            end_time,
            pull_count,
            i,
            golden,
            purple,
            blue,
        ));
        lemma_zero_padded(i as nat, 9);
        let sd = signed_decimal_spec(records[i].time.unix_timestamp as int);
        let pd = zero_padded_spec(i as nat, 9);
        let id = records[i].id@;
        assert(id == sd + pd);
        assert(id.subrange(0, id.len() - 9) =~= sd);
        assert(id.skip(id.len() - 9) =~= pd);
    }
}

} // verus!
