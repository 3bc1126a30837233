use hoyo_gacha::business::AccountBusiness;
use hoyo_gacha::gacha_time::GachaTime;
use hoyo_gacha::records::{
    business_codes_list, group_by_gacha_type, plan_fetched_records_save, prepare_fetch_end_ids,
    resolve_fetch_save_options, FetchedRecordsSave, GachaRecord, GachaRecordSaveOnConflict,
    GachaRecordSaveToDatabase,
};

fn record(id: &str, gacha_type: u32) -> GachaRecord {
    GachaRecord {
        business: AccountBusiness::GenshinImpact,
        uid: 1,
        id: id.to_string(),
        gacha_type,
        gacha_id: None,
        rank_type: 3,
        count: 1,
        lang: "en-us".to_string(),
        time: GachaTime { unix_timestamp: 0, nanosecond: 0, offset_seconds: 0 },
        item_name: "Debate Club".to_string(),
        item_type: "Weapon".to_string(),
        item_id: 12305,
        properties: None,
    }
}

#[test]
fn conflict_sql() {
    let nothing = GachaRecordSaveOnConflict::Nothing.sql();
    let update = GachaRecordSaveOnConflict::Update.sql();
    assert!(nothing.starts_with("INSERT INTO `HG_GACHA_RECORDS`"));
    assert!(nothing.ends_with("DO NOTHING;"));
    assert!(update.contains("DO UPDATE SET"));
    assert!(update.ends_with("`properties` = excluded.`properties`;"));
}

#[test]
fn fetch_defaults() {
    let (save, conflict) = resolve_fetch_save_options(None, None);
    assert_eq!(save, GachaRecordSaveToDatabase::No);
    assert_eq!(conflict, GachaRecordSaveOnConflict::Nothing);
    let (save, conflict) = resolve_fetch_save_options(
        Some(GachaRecordSaveToDatabase::FullUpdate),
        Some(GachaRecordSaveOnConflict::Update),
    );
    assert_eq!(save, GachaRecordSaveToDatabase::FullUpdate);
    assert_eq!(conflict, GachaRecordSaveOnConflict::Update);
}

#[test]
fn end_ids_dropped_on_full_update() {
    let mappings = vec![(301, Some("123".to_string())), (200, None)];
    let kept = prepare_fetch_end_ids(mappings.clone(), GachaRecordSaveToDatabase::Yes);
    assert_eq!(kept, mappings);
    let cleared = prepare_fetch_end_ids(mappings, GachaRecordSaveToDatabase::FullUpdate);
    assert_eq!(cleared, vec![(301, None), (200, None)]);
}

#[test]
fn fetched_records_plans() {
    assert!(matches!(
        plan_fetched_records_save(vec![], GachaRecordSaveToDatabase::Yes),
        FetchedRecordsSave::Skip
    ));
    assert!(matches!(
        plan_fetched_records_save(vec![record("1", 301)], GachaRecordSaveToDatabase::No),
        FetchedRecordsSave::Skip
    ));
    match plan_fetched_records_save(vec![record("1", 301)], GachaRecordSaveToDatabase::Yes) {
        FetchedRecordsSave::Create(v) => assert_eq!(v[0].id, "1"),
        _ => panic!("expected a creation"),
    }
    match plan_fetched_records_save(
        vec![record("9", 301), record("8", 200), record("7", 301)],
        GachaRecordSaveToDatabase::FullUpdate,
    ) {
        FetchedRecordsSave::FullUpdate(groups) => assert_eq!(groups.len(), 2),
        _ => panic!("expected a full update"),
    }
}

#[test]
fn groups_by_first_appearance() {
    let groups = group_by_gacha_type(vec![
        record("9", 301),
        record("8", 200),
        record("7", 301),
        record("6", 400),
        record("5", 301),
    ]);
    assert_eq!(groups.len(), 3);
    assert_eq!(groups[0].gacha_type, 301);
    let ids: Vec<&str> = groups[0].records.iter().map(|r| r.id.as_str()).collect();
    assert_eq!(ids, vec!["9", "7", "5"]);
    assert_eq!(groups[0].oldest_end_id, "5");
    assert_eq!(groups[1].gacha_type, 200);
    assert_eq!(groups[1].oldest_end_id, "8");
    assert_eq!(groups[2].gacha_type, 400);
    assert_eq!(groups[2].records.len(), 1);
    let total: usize = groups.iter().map(|g| g.records.len()).sum();
    assert_eq!(total, 5);
}

#[test]
fn business_codes() {
    assert_eq!(
        business_codes_list(&[AccountBusiness::GenshinImpact, AccountBusiness::ZenlessZoneZero]),
        "0,2"
    );
    assert_eq!(business_codes_list(&[AccountBusiness::MiliastraWonderland]), "3");
    assert_eq!(business_codes_list(&[]), "");
    for b in [
        AccountBusiness::GenshinImpact,
        AccountBusiness::HonkaiStarRail,
        AccountBusiness::ZenlessZoneZero,
        AccountBusiness::MiliastraWonderland,
    ] {
        assert_eq!(AccountBusiness::from_code(b.code()), Some(b));
    }
    assert_eq!(AccountBusiness::from_code(4), None);
    assert_eq!(AccountBusiness::HonkaiStarRail.name(), "HonkaiStarRail");
}
