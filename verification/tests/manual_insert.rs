use hoyo_gacha::business::AccountBusiness;
use hoyo_gacha::gacha_time::{parse_rfc3339, GachaTime};
use hoyo_gacha::manual_insert::{
    is_supported_manual_insert_gacha_type, manual_insert_build_records,
    manual_insert_default_item_ids, manual_insert_entry_match,
    manual_insert_entry_name_candidates, manual_insert_find_entry_in_locale,
    manual_insert_required_golden_rank, manual_insert_supported_golden_categories,
    plan_manual_insert_gacha_records, resolve_manual_insert_locale, ErrorDetailValue,
    ManualInsertGachaRecordsError, MANUAL_INSERT_PROPERTIES,
};
use hoyo_gacha::metadata::{
    business_gacha_metadata_item_name_from_id, BusinessMetadata, GachaMetadata, MetadataEntry,
    MetadataLocale,
};

fn entry(id: u32, name: &str, category: &str, category_name: &str, rank: u8) -> MetadataEntry {
    MetadataEntry {
        item_id: id,
        item_name: name.to_string(),
        category: category.to_string(),
        category_name: category_name.to_string(),
        rank_type: rank,
    }
}

fn genshin_en() -> MetadataLocale {
    MetadataLocale {
        lang: "en-us".to_string(),
        entries: vec![
            entry(10000042, "Keqing", "Character", "Character", 5),
            entry(10000023, "Xiangling", "Character", "Character", 4),
            entry(15502, "Amos' Bow", "Weapon", "Weapon", 5),
            entry(12305, "Debate Club", "Weapon", "Weapon", 3),
            entry(11401, "Favonius Sword", "Weapon", "Weapon", 4),
        ],
    }
}

fn genshin_zh() -> MetadataLocale {
    MetadataLocale {
        lang: "zh-cn".to_string(),
        entries: vec![
            entry(10000042, "刻晴", "Character", "角色", 5),
            entry(12305, "以理服人", "Weapon", "武器", 3),
            entry(11401, "西风剑", "Weapon", "武器", 4),
        ],
    }
}

fn metadata() -> GachaMetadata {
    GachaMetadata {
        businesses: vec![BusinessMetadata {
            business: AccountBusiness::GenshinImpact,
            locales: vec![genshin_en(), genshin_zh()],
            banners: vec![],
        }],
    }
}

#[test]
fn supported_gacha_types() {
    assert!(is_supported_manual_insert_gacha_type(AccountBusiness::GenshinImpact, 301));
    assert!(!is_supported_manual_insert_gacha_type(AccountBusiness::GenshinImpact, 1));
    assert!(is_supported_manual_insert_gacha_type(AccountBusiness::HonkaiStarRail, 12));
    assert!(is_supported_manual_insert_gacha_type(AccountBusiness::ZenlessZoneZero, 103));
    assert!(!is_supported_manual_insert_gacha_type(AccountBusiness::ZenlessZoneZero, 4));
    assert!(!is_supported_manual_insert_gacha_type(AccountBusiness::MiliastraWonderland, 1000));
}

#[test]
fn default_item_ids_and_rank() {
    assert!(matches!(
        manual_insert_default_item_ids(AccountBusiness::GenshinImpact),
        Ok((12305, 11401))
    ));
    assert!(matches!(
        manual_insert_default_item_ids(AccountBusiness::HonkaiStarRail),
        Ok((20000, 21000))
    ));
    assert!(matches!(
        manual_insert_default_item_ids(AccountBusiness::ZenlessZoneZero),
        Ok((12001, 13001))
    ));
    assert!(matches!(
        manual_insert_default_item_ids(AccountBusiness::MiliastraWonderland),
        Err(ManualInsertGachaRecordsError::UnsupportedBusiness {
            business: AccountBusiness::MiliastraWonderland
        })
    ));
    assert!(matches!(manual_insert_required_golden_rank(AccountBusiness::HonkaiStarRail), Ok(5)));
    assert!(matches!(manual_insert_required_golden_rank(AccountBusiness::ZenlessZoneZero), Ok(4)));
    assert!(matches!(
        manual_insert_required_golden_rank(AccountBusiness::MiliastraWonderland),
        Err(ManualInsertGachaRecordsError::UnsupportedBusiness { .. })
    ));
}

#[test]
fn golden_categories() {
    let c = manual_insert_supported_golden_categories(AccountBusiness::GenshinImpact, 200).ok().unwrap();
    assert_eq!(c, vec!["Character", "Weapon"]);
    let c = manual_insert_supported_golden_categories(AccountBusiness::ZenlessZoneZero, 5).ok().unwrap();
    assert_eq!(c, vec!["Bangboo"]);
    let c = manual_insert_supported_golden_categories(AccountBusiness::HonkaiStarRail, 22).ok().unwrap();
    assert_eq!(c, vec!["Weapon"]);
    assert!(matches!(
        manual_insert_supported_golden_categories(AccountBusiness::HonkaiStarRail, 3),
        Err(ManualInsertGachaRecordsError::UnsupportedGachaType { gacha_type: 3, .. })
    ));
}

#[test]
fn name_candidates() {
    assert_eq!(manual_insert_entry_name_candidates("  Keqing \t"), vec!["Keqing", "「Keqing」"]);
    assert_eq!(manual_insert_entry_name_candidates("「Keqing」"), vec!["「Keqing」", "Keqing"]);
    assert_eq!(manual_insert_entry_name_candidates("「」"), vec!["「」"]);
    assert_eq!(manual_insert_entry_name_candidates("「Keqing"), vec!["「Keqing"]);
    assert_eq!(manual_insert_entry_name_candidates("Keqing」"), vec!["Keqing」"]);
    assert_eq!(manual_insert_entry_name_candidates("\u{3000}"), vec!["", "「」"]);
}

#[test]
fn entry_match_and_find() {
    let locale = genshin_en();
    assert!(manual_insert_entry_match(&locale.entries[0], &["Character"], 5));
    assert!(!manual_insert_entry_match(&locale.entries[0], &["Weapon"], 5));
    assert!(!manual_insert_entry_match(&locale.entries[1], &["Character"], 5));
    let found = manual_insert_find_entry_in_locale(&locale, "Keqing", &["Character", "Weapon"], 5);
    assert_eq!(found.unwrap().item_id, 10000042);
    assert!(manual_insert_find_entry_in_locale(&locale, "Keqing", &["Weapon"], 5).is_none());
    assert!(manual_insert_find_entry_in_locale(&locale, "Nobody", &["Character"], 5).is_none());
}

#[test]
fn resolve_locale() {
    assert_eq!(resolve_manual_insert_locale(None), "en-us");
    assert_eq!(resolve_manual_insert_locale(Some("   ".to_string())), "en-us");
    assert_eq!(resolve_manual_insert_locale(Some("zh-cn".to_string())), "zh-cn");
}

#[test]
fn rfc3339_parsing() {
    let t = parse_rfc3339("2024-01-01T08:00:00+08:00").ok().unwrap();
    assert_eq!(
        t,
        GachaTime { unix_timestamp: 1704067200, nanosecond: 0, offset_seconds: 28800 }
    );
    let message = parse_rfc3339("2024-13-01T00:00:00Z").unwrap_err();
    assert!(!message.is_empty());
    let t = parse_rfc3339("1969-12-31T23:59:59.5-01:30").ok().unwrap();
    assert_eq!(
        t,
        GachaTime { unix_timestamp: 5399, nanosecond: 500_000_000, offset_seconds: -5400 }
    );
}

#[test]
fn build_records_sequence() {
    let locale = genshin_en();
    let end = GachaTime { unix_timestamp: 1704067200, nanosecond: 5, offset_seconds: 3600 };
    let golden = &locale.entries[0];
    let purple = &locale.entries[4];
    let blue = &locale.entries[3];
    let records = manual_insert_build_records(
        AccountBusiness::HonkaiStarRail,
        100000001,
        11,
        &"en-us".to_string(),
        end,
        10,
        golden,
        purple,
        blue,
    );
    assert_eq!(records.len(), 10);
    assert_eq!(records[0].id, "1704067191000000000");
    assert_eq!(records[9].id, "1704067200000000009");
    assert_eq!(records[0].time.unix_timestamp, 1704067191);
    assert_eq!(records[9].time, end);
    assert_eq!(records[9].item_name, "Keqing");
    assert_eq!(records[9].rank_type, 5);
    assert_eq!(records[7].item_name, "Favonius Sword");
    assert_eq!(records[7].rank_type, 4);
    assert_eq!(records[8].item_name, "Debate Club");
    assert_eq!(records[0].item_type, "Weapon");
    assert_eq!(records[3].gacha_id, Some(1704067194));
    assert_eq!(records[3].count, 1);
    assert_eq!(records[3].uid, 100000001);
    assert_eq!(records[3].gacha_type, 11);
    assert_eq!(records[3].properties.as_deref(), Some(MANUAL_INSERT_PROPERTIES));
    let mut ids: Vec<&str> = records.iter().map(|r| r.id.as_str()).collect();
    ids.dedup();
    assert_eq!(ids.len(), 10);
}

#[test]
fn build_records_negative_timestamp() {
    let locale = genshin_en();
    let end = GachaTime { unix_timestamp: -1, nanosecond: 0, offset_seconds: 0 };
    let records = manual_insert_build_records(
        AccountBusiness::ZenlessZoneZero,
        1,
        2,
        &"en-us".to_string(),
        end,
        2,
        &locale.entries[0],
        &locale.entries[4],
        &locale.entries[3],
    );
    assert_eq!(records[0].id, "-2000000000");
    assert_eq!(records[1].id, "-1000000001");
    assert_eq!(records[0].gacha_id, Some(0));
    let records = manual_insert_build_records(
        AccountBusiness::GenshinImpact,
        1,
        301,
        &"en-us".to_string(),
        end,
        1,
        &locale.entries[0],
        &locale.entries[4],
        &locale.entries[3],
    );
    assert_eq!(records[0].gacha_id, None);
    assert_eq!(records[0].item_name, "Keqing");
}

#[test]
fn plan_records_through_other_locale() {
    let m = metadata();
    let records = plan_manual_insert_gacha_records(
        &m,
        AccountBusiness::GenshinImpact,
        100000001,
        301,
        "Keqing",
        3,
        "2024-01-01T00:00:00Z",
        Some("zh-cn".to_string()),
    )
    .ok()
    .unwrap();
    assert_eq!(records.len(), 3);
    assert_eq!(records[2].item_name, "刻晴");
    assert_eq!(records[2].item_type, "角色");
    assert_eq!(records[0].item_name, "以理服人");
    assert_eq!(records[2].lang, "zh-cn");
    assert_eq!(records[2].id, "1704067200000000002");
}

#[test]
fn plan_records_errors() {
    let m = metadata();
    let plan = |gacha_type: u32, name: &str, count: u32, end: &str, locale: Option<&str>| {
        plan_manual_insert_gacha_records(
            &m,
            AccountBusiness::GenshinImpact,
            1,
            gacha_type,
            name,
            count,
            end,
            locale.map(|l| l.to_string()),
        )
    };
    assert!(matches!(
        plan(1, "Keqing", 1, "2024-01-01T00:00:00Z", None),
        Err(ManualInsertGachaRecordsError::UnsupportedGachaType { gacha_type: 1, .. })
    ));
    assert!(matches!(
        plan(301, "Keqing", 0, "2024-01-01T00:00:00Z", None),
        Err(ManualInsertGachaRecordsError::InvalidPullCount { pull_count: 0 })
    ));
    assert!(matches!(
        plan(301, "Keqing", 5001, "2024-01-01T00:00:00Z", None),
        Err(ManualInsertGachaRecordsError::InvalidPullCount { pull_count: 5001 })
    ));
    match plan(301, "Keqing", 5, "yesterday", None) {
        Err(ManualInsertGachaRecordsError::InvalidEndTime { value, cause }) => {
            assert_eq!(value, "yesterday");
            let expected = time::OffsetDateTime::parse(
                "yesterday",
                &time::format_description::well_known::Rfc3339,
            )
            .unwrap_err()
            .to_string();
            assert_eq!(cause, expected);
        }
        _ => panic!("expected an invalid end time"),
    }
    match plan(301, "Keqing", 5, "2024-01-01T00:00:00Z", Some("ja-jp")) {
        Err(ManualInsertGachaRecordsError::MissingMetadataLocale { locale, .. }) => {
            assert_eq!(locale, "ja-jp")
        }
        _ => panic!("expected a missing locale"),
    }
    match plan(301, "Xiangling", 5, "2024-01-01T00:00:00Z", None) {
        Err(ManualInsertGachaRecordsError::InvalidCharacter { locale, name, .. }) => {
            assert_eq!(locale, "en-us");
            assert_eq!(name, "Xiangling");
        }
        _ => panic!("expected an invalid character"),
    }
    match plan(301, " Nobody ", 5, "2024-01-01T00:00:00Z", None) {
        Err(ManualInsertGachaRecordsError::CharacterNotFound { name, .. }) => {
            assert_eq!(name, " Nobody ")
        }
        _ => panic!("expected a character not found"),
    }
    let mut sparse = metadata();
    sparse.businesses[0].locales[0].entries.truncate(3);
    let r = plan_manual_insert_gacha_records(
        &sparse,
        AccountBusiness::GenshinImpact,
        1,
        301,
        "Keqing",
        5,
        "2024-01-01T00:00:00Z",
        None,
    );
    assert!(matches!(
        r,
        Err(ManualInsertGachaRecordsError::MissingDefaultMetadataEntry { item_id: 12305, .. })
    ));
}

#[test]
fn error_name_details_message() {
    let e = ManualInsertGachaRecordsError::UnsupportedGachaType {
        business: AccountBusiness::HonkaiStarRail,
        gacha_type: 7,
    };
    assert_eq!(e.name(), "ManualInsertGachaRecordsError");
    assert_eq!(e.message(), "Unsupported gacha type: 7 for business: HonkaiStarRail");
    let d = e.details().unwrap();
    assert_eq!(d.len(), 3);
    assert_eq!(d[0].key, "kind");
    assert!(matches!(&d[0].value, ErrorDetailValue::Text(t) if t == "UnsupportedGachaType"));
    assert!(matches!(d[1].value, ErrorDetailValue::Business(AccountBusiness::HonkaiStarRail)));
    assert_eq!(d[2].key, "gacha_type");
    assert!(matches!(d[2].value, ErrorDetailValue::Number(7)));
    let e = ManualInsertGachaRecordsError::MissingDefaultMetadataEntry {
        business: AccountBusiness::GenshinImpact,
        locale: "en-us".to_string(),
        item_id: 12305,
    };
    assert_eq!(
        e.message(),
        "Missing default item metadata entry: id=12305 (GenshinImpact, en-us)"
    );
    let e = ManualInsertGachaRecordsError::Sqlx { cause: "locked".to_string() };
    assert_eq!(e.message(), "Database error: locked");
    let d = e.details().unwrap();
    assert_eq!(d[1].key, "cause");
    assert!(matches!(&d[1].value, ErrorDetailValue::Text(t) if t == "locked"));
}

#[test]
fn item_name_from_id() {
    let m = metadata();
    assert_eq!(
        business_gacha_metadata_item_name_from_id(&m, AccountBusiness::GenshinImpact, 10000042, "zh-cn"),
        Some("刻晴".to_string())
    );
    assert_eq!(
        business_gacha_metadata_item_name_from_id(&m, AccountBusiness::GenshinImpact, 1, "zh-cn"),
        None
    );
    assert_eq!(
        business_gacha_metadata_item_name_from_id(&m, AccountBusiness::HonkaiStarRail, 10000042, "zh-cn"),
        None
    );
}
