//! Gacha records, how they are inserted, and how fetched records are planned
//! into database writes.

use vstd::prelude::*;

use crate::business::{AccountBusiness, business_code_spec};
use crate::gacha_time::GachaTime;
use crate::text::{decimal_spec, push_decimal};

verus! {

/// One pull of a gacha.
#[derive(Clone, Debug)]
pub struct GachaRecord {
    pub business: AccountBusiness,
    pub uid: u32,
    pub id: String,
    pub gacha_type: u32,
    pub gacha_id: Option<u32>,
    pub rank_type: u32,
    pub count: u32,
    pub lang: String,
    pub time: GachaTime,
    pub item_name: String,
    pub item_type: String,
    pub item_id: u32,
    /// Extra properties, as the text of a JSON object.
    pub properties: Option<String>,
}

/// Whether fetched records are saved, and how.
#[derive(Clone, Copy, Debug, PartialEq, Eq, Structural)]
pub enum GachaRecordSaveToDatabase {
    No,
    Yes,
    FullUpdate,
}

/// What an insert does with a record whose key is already stored.
#[derive(Clone, Copy, Debug, PartialEq, Eq, Structural)]
pub enum GachaRecordSaveOnConflict {
    Nothing,
    Update,
}

/// The insert statement that keeps a stored record on conflict.
pub const SQL_INSERT_GACHA_RECORD_OR_NOTHING: &'static str = "INSERT INTO `HG_GACHA_RECORDS` (
          `business`, `uid`, `id`, `gacha_type`, `gacha_id`, `rank_type`,
          `count`, `time`, `lang`, `name`, `item_type`, `item_id`,
          `properties`
        ) VALUES (
          ?, ?, ?, ?, ?, ?,
          ?, ?, ?, ?, ?, ?,
          ?
        ) ON CONFLICT (`business`, `uid`, `id`, `gacha_type`) DO NOTHING;";

/// The insert statement that overwrites a stored record on conflict.
pub const SQL_INSERT_GACHA_RECORD_OR_UPDATE: &'static str = "INSERT INTO `HG_GACHA_RECORDS` (
          `business`, `uid`, `id`, `gacha_type`, `gacha_id`, `rank_type`,
          `count`, `time`, `lang`, `name`, `item_type`, `item_id`,
          `properties`
        ) VALUES (
          ?, ?, ?, ?, ?, ?,
          ?, ?, ?, ?, ?, ?,
          ?
        ) ON CONFLICT (`business`, `uid`, `id`, `gacha_type`) DO UPDATE SET
          `gacha_id`   = excluded.`gacha_id`,
          `rank_type`  = excluded.`rank_type`,
          `count`      = excluded.`count`,
          `time`       = excluded.`time`,
          `lang`       = excluded.`lang`,
          `name`       = excluded.`name`,
          `item_type`  = excluded.`item_type`,
          `item_id`    = excluded.`item_id`,
          `properties` = excluded.`properties`;";

impl GachaRecordSaveOnConflict {
    /// The insert statement of this conflict policy.
    pub fn sql(&self) -> (r: &'static str)
        ensures
            r == (match *self {
                GachaRecordSaveOnConflict::Nothing => SQL_INSERT_GACHA_RECORD_OR_NOTHING,
                GachaRecordSaveOnConflict::Update => SQL_INSERT_GACHA_RECORD_OR_UPDATE,
            }),
    {
        match *self {
            GachaRecordSaveOnConflict::Nothing => SQL_INSERT_GACHA_RECORD_OR_NOTHING,
            GachaRecordSaveOnConflict::Update => SQL_INSERT_GACHA_RECORD_OR_UPDATE,
        }
    }
}


/// The save policy and conflict policy of a fetch, with their defaults: not
/// saved, and stored records kept on conflict.
pub fn resolve_fetch_save_options(
    save_to_database: Option<GachaRecordSaveToDatabase>,
    save_on_conflict: Option<GachaRecordSaveOnConflict>,
) -> (r: (GachaRecordSaveToDatabase, GachaRecordSaveOnConflict))
    ensures
        r.0 == (match save_to_database {
            Some(s) => s,
            None => GachaRecordSaveToDatabase::No,
        }),
        r.1 == (match save_on_conflict {
            Some(c) => c,
            None => GachaRecordSaveOnConflict::Nothing,
        }),
{
    let save = match save_to_database {
        Some(s) => s,
        None => GachaRecordSaveToDatabase::No,
    };
    let on_conflict = match save_on_conflict {
        Some(c) => c,
        None => GachaRecordSaveOnConflict::Nothing,
    };
    (save, on_conflict)
}

/// The gacha types to fetch with the id each fetch stops at: on a full update
/// every stop id is dropped, so that each gacha type is fetched whole.
pub fn prepare_fetch_end_ids(
    mappings: Vec<(u32, Option<String>)>,
    save_to_database: GachaRecordSaveToDatabase,
) -> (r: Vec<(u32, Option<String>)>)
    ensures
        save_to_database != GachaRecordSaveToDatabase::FullUpdate ==> r@ == mappings@,
        save_to_database == GachaRecordSaveToDatabase::FullUpdate ==> r@.len() == mappings@.len()
            && forall|i: int|
            0 <= i < r@.len() ==> (#[trigger] r@[i]).0 == mappings@[i].0 && r@[i].1 is None,
{
    if save_to_database != GachaRecordSaveToDatabase::FullUpdate {
        return mappings;
    }
    let mut r: Vec<(u32, Option<String>)> = Vec::new();
    let mut i: usize = 0;
    while i < mappings.len()
        invariant
            i <= mappings@.len(),
            r@.len() == i,
            forall|k: int| 0 <= k < i ==> (#[trigger] r@[k]).0 == mappings@[k].0 && r@[k].1 is None,
        decreases mappings@.len() - i,
    {
        r.push((mappings[i].0, None));
        i = i + 1;
    }
    r
}

/// The gacha types of `records`, each once, in the order they first appear.
pub open spec fn gacha_types_in_order(records: Seq<GachaRecord>) -> Seq<u32>
    decreases records.len(),
{
    if records.len() == 0 {
        Seq::empty()
    } else {
        let prev = gacha_types_in_order(records.drop_last());
        if prev.contains(records.last().gacha_type) {
            prev
        } else {
            prev.push(records.last().gacha_type)
        }
    }
}

/// The records of `records` with gacha type `gacha_type`, in order.
pub open spec fn records_of_type(records: Seq<GachaRecord>, gacha_type: u32) -> Seq<GachaRecord>
    decreases records.len(),
{
    if records.len() == 0 {
        Seq::empty()
    } else {
        let prev = records_of_type(records.drop_last(), gacha_type);
        if records.last().gacha_type == gacha_type {
            prev.push(records.last())
        } else {
            prev
        }
    }
}

/// A gacha type occurs among the records exactly when some record has it.
pub proof fn lemma_gacha_types_in_order(records: Seq<GachaRecord>)
    ensures
        forall|t: u32|
            #![trigger gacha_types_in_order(records).contains(t)]
            gacha_types_in_order(records).contains(t) <==> records_of_type(records, t).len() > 0,
        forall|k: int, l: int|
            0 <= k < l < gacha_types_in_order(records).len() ==> gacha_types_in_order(records)[k]
                != gacha_types_in_order(records)[l],
    decreases records.len(),
{
    if records.len() > 0 {
        let q = records.drop_last();
        let x = records.last();
        lemma_gacha_types_in_order(q);
        let tq = gacha_types_in_order(q);
        let tp = gacha_types_in_order(records);
        assert forall|t: u32|
            #![trigger gacha_types_in_order(records).contains(t)]
            gacha_types_in_order(records).contains(t) <==> records_of_type(records, t).len()
                > 0 by {
            assert(tq.contains(t) <==> records_of_type(q, t).len() > 0);
            if !tq.contains(x.gacha_type) {
                assert(tp == tq.push(x.gacha_type));
                if t == x.gacha_type {
                    assert(tp[tq.len() as int] == t);
                } else if tp.contains(t) {
                    let j = choose|j: int| 0 <= j < tp.len() && tp[j] == t;
                    assert(tq[j] == t);
                } else if tq.contains(t) {
                    let j = choose|j: int| 0 <= j < tq.len() && tq[j] == t;
                    assert(tp[j] == t);
                }
            }
        }
        assert forall|k: int, l: int| 0 <= k < l < tp.len() implies tp[k] != tp[l] by {
            if !tq.contains(x.gacha_type) && l == tq.len() {
                assert(tq[k] == tp[k]);
            }
        }
    }
}

/// The records of one gacha type to replace on a full update, and the id of the
/// oldest of them: stored records of that type from that id on are deleted
/// before these are inserted.
#[derive(Debug)]
pub struct FullUpdateGroup {
    pub gacha_type: u32,
    pub oldest_end_id: String,
    pub records: Vec<GachaRecord>,
}

/// What to write for the records a fetch returned.
#[derive(Debug)]
pub enum FetchedRecordsSave {
    /// Nothing is written.
    Skip,
    /// The records are inserted.
    Create(Vec<GachaRecord>),
    /// Each group replaces the stored records of its gacha type.
    FullUpdate(Vec<FullUpdateGroup>),
}

/// `groups` split `records` by gacha type, in the order the types first appear,
/// each group with the records of its type in order and the id of its last one.
pub open spec fn is_full_update_groups(groups: Seq<FullUpdateGroup>, records: Seq<GachaRecord>) -> bool {
    let types = gacha_types_in_order(records);
    &&& groups.len() == types.len()
    &&& forall|k: int|
        #![trigger groups[k]]
        0 <= k < groups.len() ==> {
            &&& groups[k].gacha_type == types[k]
            &&& groups[k].records@ == records_of_type(records, types[k])
            &&& groups[k].records@.len() > 0
            &&& groups[k].oldest_end_id@ == groups[k].records@.last().id@
        }
}

/// Plans the writes for the records a fetch returned: nothing when there are none
/// or they are not to be saved, an insertion of all of them, or a replacement
/// per gacha type on a full update.
pub fn plan_fetched_records_save(
    records: Vec<GachaRecord>,
    save_to_database: GachaRecordSaveToDatabase,
) -> (r: FetchedRecordsSave)
    ensures
        records@.len() == 0 || save_to_database == GachaRecordSaveToDatabase::No ==> r is Skip,
        records@.len() > 0 && save_to_database == GachaRecordSaveToDatabase::Yes ==> (r matches FetchedRecordsSave::Create(v) && v@ == records@),
        records@.len() > 0 && save_to_database == GachaRecordSaveToDatabase::FullUpdate ==> (r matches FetchedRecordsSave::FullUpdate(g) && is_full_update_groups(g@, records@)),
{
    if records.len() == 0 {
        return FetchedRecordsSave::Skip;
    }
    match save_to_database {
        GachaRecordSaveToDatabase::No => FetchedRecordsSave::Skip,
        GachaRecordSaveToDatabase::Yes => FetchedRecordsSave::Create(records),
        GachaRecordSaveToDatabase::FullUpdate => FetchedRecordsSave::FullUpdate(
            group_by_gacha_type(records),
        ),
    }
}

/// Splits records by gacha type (see `is_full_update_groups`).
pub fn group_by_gacha_type(records: Vec<GachaRecord>) -> (r: Vec<FullUpdateGroup>)
    ensures
        is_full_update_groups(r@, records@),
{
    let ghost inp = records@;
    let n = records.len();
    let mut rest = records;
    let mut reversed: Vec<GachaRecord> = Vec::new();
    while rest.len() > 0
        invariant
            rest@.len() + reversed@.len() == n,
            n == inp.len(),
            rest@ == inp.take(rest@.len() as int),
            forall|j: int| 0 <= j < reversed@.len() ==> #[trigger] reversed@[j] == inp[n - 1 - j],
        decreases rest@.len(),
    {
        let x = rest.pop().unwrap();
        assert(rest@ =~= inp.take(rest@.len() as int));
        reversed.push(x);
    }
    let mut groups: Vec<(u32, Vec<GachaRecord>)> = Vec::new();
    assert(inp.take(0) =~= Seq::<GachaRecord>::empty());
    while reversed.len() > 0
        invariant
            n == inp.len(),
            reversed@.len() <= n,
            forall|j: int| 0 <= j < reversed@.len() ==> #[trigger] reversed@[j] == inp[n - 1 - j],
            groups@.len() == gacha_types_in_order(inp.take(n - reversed@.len())).len(),
            forall|k: int|
                #![trigger groups@[k]]
                0 <= k < groups@.len() ==> groups@[k].0 == gacha_types_in_order(
                    inp.take(n - reversed@.len()),
                )[k] && groups@[k].1@ == records_of_type(
                    inp.take(n - reversed@.len()),
                    groups@[k].0,
                ),
        decreases reversed@.len(),
    {
        let ghost prefix = inp.take(n - reversed@.len());
        let x = reversed.pop().unwrap();
        let ghost i = n - reversed@.len() - 1;
        assert(x == inp[i]);
        let ghost next = inp.take(i + 1);
        assert(next.drop_last() =~= prefix);
        assert(next.last() == x);
        proof {
            lemma_gacha_types_in_order(prefix);
        }
        let t = x.gacha_type;
        let mut k: usize = 0;
        while k < groups.len() && groups[k].0 != t
            invariant
                k <= groups@.len(),
                forall|j: int| 0 <= j < k ==> (#[trigger] groups@[j]).0 != t,
            decreases groups@.len() - k,
        {
            k = k + 1;
        }
        if k < groups.len() {
            let (gt, mut members) = groups.remove(k);
            members.push(x);
            groups.insert(k, (gt, members));
            assert(gacha_types_in_order(prefix)[k as int] == t);
            assert(gacha_types_in_order(next) == gacha_types_in_order(prefix));
        } else {
            assert forall|j: int| 0 <= j < gacha_types_in_order(prefix).len() implies
                gacha_types_in_order(prefix)[j] != t by {
                assert(groups@[j].0 != t);
            }
            assert(!gacha_types_in_order(prefix).contains(t));
            assert(records_of_type(prefix, t).len() == 0);
            let mut members: Vec<GachaRecord> = Vec::new();
            members.push(x);
            assert(members@ =~= records_of_type(prefix, t).push(x));
            groups.push((t, members));
        }
    }
    assert(inp.take(n as int) =~= inp);
    proof {
        lemma_gacha_types_in_order(inp);
    }
    let mut out: Vec<FullUpdateGroup> = Vec::new();
    let ghost all = groups@;
    while groups.len() > 0
        invariant
            groups@.len() + out@.len() == all.len(),
            groups@ == all.skip(out@.len() as int),
            all.len() == gacha_types_in_order(inp).len(),
            forall|k: int|
                #![trigger all[k]]
                0 <= k < all.len() ==> all[k].0 == gacha_types_in_order(inp)[k] && all[k].1@
                    == records_of_type(inp, all[k].0),
            forall|t: u32|
                #![trigger gacha_types_in_order(inp).contains(t)]
                gacha_types_in_order(inp).contains(t) <==> records_of_type(inp, t).len() > 0,
            forall|k: int|
                #![trigger out@[k]]
                0 <= k < out@.len() ==> {
                    &&& out@[k].gacha_type == gacha_types_in_order(inp)[k]
                    &&& out@[k].records@ == records_of_type(inp, gacha_types_in_order(inp)[k])
                    &&& out@[k].records@.len() > 0
                    &&& out@[k].oldest_end_id@ == out@[k].records@.last().id@
                },
        decreases groups@.len(),
    {
        let ghost k = out@.len() as int;
        let (t, members) = groups.remove(0);
        assert(groups@ =~= all.skip(k + 1));
        assert((t, members) == all[k]);
        assert(gacha_types_in_order(inp).contains(gacha_types_in_order(inp)[k]));
        let oldest_end_id = members[members.len() - 1].id.clone();
        out.push(FullUpdateGroup { gacha_type: t, oldest_end_id, records: members });
    }
    out
}

/// The number of records the groups of a full update hold together.
pub open spec fn group_sizes_total(groups: Seq<FullUpdateGroup>) -> nat
    decreases groups.len(),
{
    if groups.len() == 0 {
        0
    } else {
        group_sizes_total(groups.drop_last()) + groups.last().records@.len()
    }
}

/// The number of records of `records` whose gacha type is one of `types`.
pub open spec fn records_of_types_total(records: Seq<GachaRecord>, types: Seq<u32>) -> nat
    decreases types.len(),
{
    if types.len() == 0 {
        0
    } else {
        records_of_types_total(records, types.drop_last()) + records_of_type(
            records,
            types.last(),
        ).len()
    }
}

proof fn lemma_records_of_types_total_push(records: Seq<GachaRecord>, types: Seq<u32>)
    requires
        records.len() > 0,
        forall|k: int, l: int| 0 <= k < l < types.len() ==> types[k] != types[l],
    ensures
        records_of_types_total(records, types) == records_of_types_total(records.drop_last(), types)
            + (if types.contains(records.last().gacha_type) {
            1int
        } else {
            0int
        }),
    decreases types.len(),
{
    if types.len() > 0 {
        let t2 = types.drop_last();
        lemma_records_of_types_total_push(records, t2);
        let x = records.last().gacha_type;
        if t2.contains(x) {
            let j = choose|j: int| 0 <= j < t2.len() && t2[j] == x;
            assert(types[j] == x);
            assert(types.last() != x);
        }
        if types.contains(x) && !t2.contains(x) {
            let j = choose|j: int| 0 <= j < types.len() && types[j] == x;
            if j < t2.len() {
                assert(t2[j] == x);
            }
        }
        if t2.contains(x) {
            let j = choose|j: int| 0 <= j < t2.len() && t2[j] == x;
            assert(types[j] == x);
        }
    }
}

proof fn lemma_records_of_types_total_all(records: Seq<GachaRecord>)
    ensures
        records_of_types_total(records, gacha_types_in_order(records)) == records.len(),
    decreases records.len(),
{
    if records.len() > 0 {
        let q = records.drop_last();
        let x = records.last();
        lemma_records_of_types_total_all(q);
        lemma_gacha_types_in_order(q);
        lemma_gacha_types_in_order(records);
        let tq = gacha_types_in_order(q);
        lemma_records_of_types_total_push(records, tq);
        if !tq.contains(x.gacha_type) {
            assert(gacha_types_in_order(records).drop_last() =~= tq);
            assert(records_of_type(q, x.gacha_type).len() == 0);
        }
    }
}

proof fn lemma_group_sizes_match(groups: Seq<FullUpdateGroup>, records: Seq<GachaRecord>, n: int)
    requires
        is_full_update_groups(groups, records),
        0 <= n <= groups.len(),
    ensures
        group_sizes_total(groups.take(n)) == records_of_types_total(
            records,
            gacha_types_in_order(records).take(n),
        ),
    decreases n,
{
    if n > 0 {
        lemma_group_sizes_match(groups, records, n - 1);
        assert(groups.take(n).drop_last() =~= groups.take(n - 1));
        assert(gacha_types_in_order(records).take(n).drop_last() =~= gacha_types_in_order(
            records,
        ).take(n - 1));
        assert(groups[n - 1].records@ == records_of_type(
            records,
            gacha_types_in_order(records)[n - 1],
        ));
    }
}

/// A full update loses and repeats no fetched record: its groups together hold
/// exactly as many records as were fetched, and every fetched record's gacha
/// type has a group.
pub proof fn lemma_full_update_groups_cover(groups: Seq<FullUpdateGroup>, records: Seq<GachaRecord>)
    requires
        is_full_update_groups(groups, records),
    ensures
        group_sizes_total(groups) == records.len(),
        forall|i: int|
            0 <= i < records.len() ==> exists|k: int|
                0 <= k < groups.len() && groups[k].gacha_type == (#[trigger] records[i]).gacha_type,
{
    lemma_group_sizes_match(groups, records, groups.len() as int);
    assert(groups.take(groups.len() as int) =~= groups);
    assert(gacha_types_in_order(records).take(groups.len() as int) =~= gacha_types_in_order(
        records,
    ));
    lemma_records_of_types_total_all(records);
    lemma_gacha_types_in_order(records);
    assert forall|i: int| 0 <= i < records.len() implies exists|k: int|
        0 <= k < groups.len() && groups[k].gacha_type == (#[trigger] records[i]).gacha_type by {
        lemma_record_has_type(records, i);
        let t = records[i].gacha_type;
        assert(gacha_types_in_order(records).contains(t));
        let k = choose|k: int| 0 <= k < gacha_types_in_order(records).len() && gacha_types_in_order(records)[k] == t;
        assert(groups[k].gacha_type == t);
    }
}

proof fn lemma_record_has_type(records: Seq<GachaRecord>, i: int)
    requires
        0 <= i < records.len(),
    ensures
        records_of_type(records, records[i].gacha_type).len() > 0,
    decreases records.len(),
{
    if i < records.len() - 1 {
        lemma_record_has_type(records.drop_last(), i);
    }
}

/// The codes of `businesses` in decimal, separated by commas.
pub open spec fn business_codes_list_spec(businesses: Seq<AccountBusiness>) -> Seq<char>
    decreases businesses.len(),
{
    if businesses.len() == 0 {
        Seq::empty()
    } else if businesses.len() == 1 {
        decimal_spec(business_code_spec(businesses[0]) as nat)
    } else {
        business_codes_list_spec(businesses.drop_last()) + seq![','] + decimal_spec(
            business_code_spec(businesses.last()) as nat,
        )
    }
}

/// The codes of `businesses` in decimal, separated by commas, as a query binds
/// them for a list of businesses.
pub fn business_codes_list(businesses: &[AccountBusiness]) -> (r: String)
    ensures
        r@ == business_codes_list_spec(businesses@),
{
    let mut s = String::new();
    let mut i: usize = 0;
    while i < businesses.len()
        invariant
            i <= businesses@.len(),
            s@ == business_codes_list_spec(businesses@.take(i as int)),
        decreases businesses@.len() - i,
    {
        assert(businesses@.take(i + 1).drop_last() =~= businesses@.take(i as int));
        if i > 0 {
            proof {
                reveal_strlit(",");
            }
            s.append(",");
        }
        push_decimal(&mut s, businesses[i].code() as u64);
        i = i + 1;
    }
    assert(businesses@.take(businesses@.len() as int) =~= businesses@);
    s
}

} // verus!
