use std::path::PathBuf;

use hoyo_gacha::backup::{
    backup_database_name, backup_file_name, backup_name_prefix, backup_number_from_file_name,
    next_backup_number, sort_backups_newest_first, BackupInfo,
};
use hoyo_gacha::migrations::{pending_migrations, SQL_V1, SQL_V2, SQL_V3};

fn info(number: u32, path: &str) -> BackupInfo {
    BackupInfo { number, path: PathBuf::from(path), size: 10, modified_time: Some(3) }
}

#[test]
fn backup_names() {
    assert_eq!(backup_database_name(Some("HoYo.Gacha.db")), "HoYo.Gacha.db");
    assert_eq!(backup_database_name(None), "database.db");
    assert_eq!(backup_name_prefix("HoYo.Gacha.db"), "HoYo.Gacha.db.bak.");
    assert_eq!(backup_file_name("HoYo.Gacha.db", 12), "HoYo.Gacha.db.bak.12");
    assert_eq!(backup_file_name("x", 0), "x.bak.0");
    assert_eq!(backup_file_name("x", u32::MAX), "x.bak.4294967295");
}

#[test]
fn backup_numbers_read_back() {
    let db = "HoYo.Gacha.db";
    assert_eq!(backup_number_from_file_name(db, "HoYo.Gacha.db.bak.12"), Some(12));
    assert_eq!(backup_number_from_file_name(db, "HoYo.Gacha.db.bak.007"), Some(7));
    assert_eq!(backup_number_from_file_name(db, "HoYo.Gacha.db.bak.+3"), Some(3));
    assert_eq!(backup_number_from_file_name(db, "HoYo.Gacha.db.bak.4294967295"), Some(u32::MAX));
    assert_eq!(backup_number_from_file_name(db, "HoYo.Gacha.db.bak.4294967296"), None);
    assert_eq!(backup_number_from_file_name(db, "HoYo.Gacha.db.bak."), None);
    assert_eq!(backup_number_from_file_name(db, "HoYo.Gacha.db.bak.+"), None);
    assert_eq!(backup_number_from_file_name(db, "HoYo.Gacha.db.bak.-1"), None);
    assert_eq!(backup_number_from_file_name(db, "HoYo.Gacha.db.bak.1a"), None);
    assert_eq!(backup_number_from_file_name(db, "HoYo.Gacha.db"), None);
    assert_eq!(backup_number_from_file_name(db, "Other.db.bak.1"), None);
    for n in [0u32, 1, 9, 10, 99, 100, 65535, u32::MAX] {
        assert_eq!(backup_number_from_file_name(db, &backup_file_name(db, n)), Some(n));
    }
}

#[test]
fn next_number_after_highest() {
    let db = "HoYo.Gacha.db";
    let names: Vec<String> = vec![
        "HoYo.Gacha.db".into(),
        "HoYo.Gacha.db.bak.1".into(),
        "HoYo.Gacha.db.bak.5".into(),
        "HoYo.Gacha.db.bak.x".into(),
        "HoYo.Gacha.db-wal".into(),
        "HoYo.Gacha.db.bak.3".into(),
    ];
    let next = next_backup_number(db, &names);
    assert_eq!(next, 6);
    assert!(!names.contains(&backup_file_name(db, next)));
    assert_eq!(next_backup_number(db, &[]), 1);
}

#[test]
fn backups_newest_first() {
    let sorted = sort_backups_newest_first(vec![
        info(2, "a.bak.2"),
        info(10, "a.bak.10"),
        info(1, "a.bak.1"),
        info(2, "a.bak.02"),
    ]);
    let numbers: Vec<u32> = sorted.iter().map(|b| b.number).collect();
    assert_eq!(numbers, vec![10, 2, 2, 1]);
    assert_eq!(sorted[1].path, PathBuf::from("a.bak.2"));
    assert_eq!(sorted[2].path, PathBuf::from("a.bak.02"));
    assert!(sort_backups_newest_first(vec![]).is_empty());
}

#[test]
fn migrations_from_version() {
    assert_eq!(pending_migrations(0), vec![SQL_V1, SQL_V2, SQL_V3]);
    assert_eq!(pending_migrations(2), vec![SQL_V3]);
    assert!(pending_migrations(3).is_empty());
    assert!(pending_migrations(42).is_empty());
    assert!(SQL_V1.contains("PRAGMA USER_VERSION = 1;"));
    assert!(SQL_V3.contains("ADD COLUMN `properties`"));
}
