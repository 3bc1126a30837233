use hoyo_gacha::business::AccountBusiness;
use hoyo_gacha::entry_options::business_manual_insert_gacha_entry_options;
use hoyo_gacha::gacha_time::GachaTime;
use hoyo_gacha::manual_insert::ManualInsertGachaRecordsError;
use hoyo_gacha::metadata::{
    BusinessMetadata, GachaMetadata, GachaTypeBanners, MetadataBanner, MetadataEntry,
    MetadataLocale,
};

fn entry(id: u32, name: &str, category: &str, rank: u8) -> MetadataEntry {
    MetadataEntry {
        item_id: id,
        item_name: name.to_string(),
        category: category.to_string(),
        category_name: category.to_string(),
        rank_type: rank,
    }
}

fn at(ts: i64) -> GachaTime {
    GachaTime { unix_timestamp: ts, nanosecond: 0, offset_seconds: 28800 }
}

fn banner(start: i64, version: Option<&str>, up: Vec<u32>) -> MetadataBanner {
    MetadataBanner {
        start_time: at(start),
        end_time: at(start + 100),
        version: version.map(|v| v.to_string()),
        up_golden: up,
    }
}

fn metadata() -> GachaMetadata {
    GachaMetadata {
        businesses: vec![BusinessMetadata {
            business: AccountBusiness::GenshinImpact,
            locales: vec![MetadataLocale {
                lang: "en-us".to_string(),
                entries: vec![
                    entry(3, "Zhongli", "Character", 5),
                    entry(9, "Amos' Bow", "Weapon", 5),
                    entry(1, "Keqing", "Character", 5),
                    entry(2, "Xiangling", "Character", 4),
                    entry(7, "Aloy", "Character", 5),
                ],
            }],
            banners: vec![GachaTypeBanners {
                gacha_type: 301,
                banners: vec![
                    banner(100, Some("1.0"), vec![3]),
                    banner(300, Some("1.1"), vec![1, 3]),
                    banner(200, None, vec![3]),
                ],
            }],
        }],
    }
}

#[test]
fn options_sorted_with_banners() {
    let m = metadata();
    let options = business_manual_insert_gacha_entry_options(
        &m,
        AccountBusiness::GenshinImpact,
        301,
        None,
    )
    .ok()
    .unwrap();
    let names: Vec<&str> = options.iter().map(|o| o.name.as_str()).collect();
    assert_eq!(names, vec!["Aloy", "Keqing", "Zhongli"]);
    assert_eq!(options[0].up_banners.len(), 0);
    assert_eq!(options[1].up_banners.len(), 1);
    assert_eq!(options[1].up_banners[0].version.as_deref(), Some("1.1"));
    let starts: Vec<i64> =
        options[2].up_banners.iter().map(|b| b.start_time.unix_timestamp).collect();
    assert_eq!(starts, vec![300, 200, 100]);
    assert_eq!(options[2].up_banners[0].end_time.unix_timestamp, 400);
    assert_eq!(options[2].item_id, 3);
    assert_eq!(options[2].item_type, "Character");
    assert_eq!(options[2].rank_type, 5);
}

#[test]
fn options_for_weapons_and_mixed() {
    let m = metadata();
    let options =
        business_manual_insert_gacha_entry_options(&m, AccountBusiness::GenshinImpact, 200, None)
            .ok()
            .unwrap();
    let names: Vec<&str> = options.iter().map(|o| o.name.as_str()).collect();
    assert_eq!(names, vec!["Aloy", "Keqing", "Zhongli", "Amos' Bow"]);
    assert!(options.iter().all(|o| o.up_banners.is_empty()));
    let options =
        business_manual_insert_gacha_entry_options(&m, AccountBusiness::GenshinImpact, 302, None)
            .ok()
            .unwrap();
    assert_eq!(options.len(), 1);
    assert_eq!(options[0].item_id, 9);
}

#[test]
fn options_errors() {
    let m = metadata();
    assert!(matches!(
        business_manual_insert_gacha_entry_options(&m, AccountBusiness::GenshinImpact, 11, None),
        Err(ManualInsertGachaRecordsError::UnsupportedGachaType { gacha_type: 11, .. })
    ));
    assert!(matches!(
        business_manual_insert_gacha_entry_options(
            &m,
            AccountBusiness::HonkaiStarRail,
            11,
            Some("en-us".to_string())
        ),
        Err(ManualInsertGachaRecordsError::MissingMetadataLocale { .. })
    ));
    assert!(matches!(
        business_manual_insert_gacha_entry_options(
            &m,
            AccountBusiness::GenshinImpact,
            301,
            Some("fr-fr".to_string())
        ),
        Err(ManualInsertGachaRecordsError::MissingMetadataLocale { .. })
    ));
}
