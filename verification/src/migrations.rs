//! The schema migrations of the database, applied in order from the version it
//! records.

use vstd::prelude::*;

verus! {

/// Creates the key-value, account and gacha-record tables (version 1).
pub const SQL_V1: &'static str = r"
BEGIN TRANSACTION;

CREATE TABLE IF NOT EXISTS `HG_KVS` (
  `key`        TEXT NOT NULL PRIMARY KEY,
  `val`        TEXT NOT NULL,
  `updated_at` DATETIME NOT NULL DEFAULT CURRENT_TIMESTAMP
);

CREATE TABLE IF NOT EXISTS `HG_ACCOUNTS` (
  `business`    INTEGER NOT NULL,
  `uid`         INTEGER NOT NULL,
  `data_folder` TEXT    NOT NULL,
  `properties`  TEXT,
  PRIMARY KEY (`business`, `uid`)
);
CREATE INDEX IF NOT EXISTS `HG_ACCOUNTS.business_idx` ON `HG_ACCOUNTS` (`business`);
CREATE INDEX IF NOT EXISTS `HG_ACCOUNTS.uid_idx`      ON `HG_ACCOUNTS` (`uid`);

CREATE TABLE IF NOT EXISTS `HG_GACHA_RECORDS` (
  `business`   INTEGER NOT NULL,
  `uid`        INTEGER NOT NULL,
  `id`         TEXT    NOT NULL,
  `gacha_type` INTEGER NOT NULL,
  `gacha_id`   INTEGER,
  `rank_type`  INTEGER NOT NULL,
  `count`      INTEGER NOT NULL,
  `time`       TEXT    NOT NULL,
  `lang`       TEXT    NOT NULL,
  `name`       TEXT    NOT NULL,
  `item_type`  TEXT    NOT NULL,
  `item_id`    TEXT    NOT NULL,
  PRIMARY KEY (`business`, `uid`, `id`)
);
CREATE INDEX IF NOT EXISTS `HG_GACHA_RECORDS.id_idx`                      ON `HG_GACHA_RECORDS` (`id`);
CREATE INDEX IF NOT EXISTS `HG_GACHA_RECORDS.gacha_type_idx`              ON `HG_GACHA_RECORDS` (`gacha_type`);
CREATE INDEX IF NOT EXISTS `HG_GACHA_RECORDS.rank_type_idx`               ON `HG_GACHA_RECORDS` (`rank_type`);
CREATE INDEX IF NOT EXISTS `HG_GACHA_RECORDS.business_uid_idx`            ON `HG_GACHA_RECORDS` (`business`, `uid`);
CREATE INDEX IF NOT EXISTS `HG_GACHA_RECORDS.business_uid_gacha_type_idx` ON `HG_GACHA_RECORDS` (`business`, `uid`, `gacha_type`);

PRAGMA USER_VERSION = 1;
COMMIT TRANSACTION;
";

/// Adds the gacha type to the key of gacha records (version 2).
pub const SQL_V2: &'static str = r"
BEGIN TRANSACTION;
SAVEPOINT start_migration_v2;

ALTER TABLE `HG_GACHA_RECORDS` RENAME TO `HG_GACHA_RECORDS_OLD`;

CREATE TABLE IF NOT EXISTS `HG_GACHA_RECORDS` (
  `business`   INTEGER NOT NULL,
  `uid`        INTEGER NOT NULL,
  `id`         TEXT    NOT NULL,
  `gacha_type` INTEGER NOT NULL,
  `gacha_id`   INTEGER,
  `rank_type`  INTEGER NOT NULL,
  `count`      INTEGER NOT NULL,
  `time`       TEXT    NOT NULL,
  `lang`       TEXT    NOT NULL,
  `name`       TEXT    NOT NULL,
  `item_type`  TEXT    NOT NULL,
  `item_id`    TEXT    NOT NULL,
  PRIMARY KEY (`business`, `uid`, `id`, `gacha_type`)
);

INSERT INTO `HG_GACHA_RECORDS`
  (`business`, `uid`, `id`, `gacha_type`, `gacha_id`,
  `rank_type`, `count`, `time`, `lang`, `name`, `item_type`, `item_id`)
SELECT
  `business`, `uid`, `id`, `gacha_type`, `gacha_id`,
  `rank_type`, `count`, `time`, `lang`, `name`, `item_type`, `item_id`
FROM `HG_GACHA_RECORDS_OLD`;

DROP TABLE `HG_GACHA_RECORDS_OLD`;

CREATE INDEX IF NOT EXISTS `HG_GACHA_RECORDS.id_idx`                      ON `HG_GACHA_RECORDS` (`id`);
CREATE INDEX IF NOT EXISTS `HG_GACHA_RECORDS.gacha_type_idx`              ON `HG_GACHA_RECORDS` (`gacha_type`);
CREATE INDEX IF NOT EXISTS `HG_GACHA_RECORDS.rank_type_idx`               ON `HG_GACHA_RECORDS` (`rank_type`);
CREATE INDEX IF NOT EXISTS `HG_GACHA_RECORDS.business_uid_idx`            ON `HG_GACHA_RECORDS` (`business`, `uid`);
CREATE INDEX IF NOT EXISTS `HG_GACHA_RECORDS.business_uid_gacha_type_idx` ON `HG_GACHA_RECORDS` (`business`, `uid`, `gacha_type`);

PRAGMA USER_VERSION = 2;

RELEASE start_migration_v2;
COMMIT TRANSACTION;
";

/// Adds the properties column to gacha records (version 3).
pub const SQL_V3: &'static str = r"
BEGIN TRANSACTION;
SAVEPOINT start_migration_v3;

ALTER TABLE `HG_GACHA_RECORDS` ADD COLUMN `properties` TEXT DEFAULT NULL;

PRAGMA USER_VERSION = 3;

RELEASE start_migration_v3;
COMMIT TRANSACTION;
";

/// The migrations in order; migration `i` brings the schema to version `i + 1`.
pub open spec fn migrations_spec() -> Seq<&'static str> {
    seq![SQL_V1, SQL_V2, SQL_V3]
}

/// The schema version the migrations lead to.
pub const SCHEMA_VERSION: u32 = 3;

/// The migrations still to run on a database at schema version `version`, in
/// order: those after the first `version` ones.
pub fn pending_migrations(version: u32) -> (r: Vec<&'static str>)
    ensures
        r@ == migrations_spec().skip(if version <= SCHEMA_VERSION {
            version as int
        } else {
            SCHEMA_VERSION as int
        }),
        version <= SCHEMA_VERSION ==> version + r@.len() == SCHEMA_VERSION,
{
    let all: Vec<&'static str> = vec![SQL_V1, SQL_V2, SQL_V3];
    assert(all@ =~= migrations_spec());
    let mut r: Vec<&'static str> = Vec::new();
    let mut i: usize = if version <= SCHEMA_VERSION {
        version as usize
    } else {
        SCHEMA_VERSION as usize
    };
    let ghost start = i as int;
    while i < all.len()
        invariant
            all@ == migrations_spec(),
            0 <= start <= i <= all@.len(),
            r@ == all@.subrange(start, i as int),
        decreases all@.len() - i,
    {
        r.push(all[i]);
        assert(all@.subrange(start, i + 1) =~= all@.subrange(start, i as int).push(all@[i as int]));
        i = i + 1;
    }
    assert(all@.subrange(start, 3) =~= migrations_spec().skip(start));
    r
}

} // verus!
