//! The latest published data: the national series and one series for each
//! region.
//!
//! A snapshot is replaced as a whole and never changed in place. The cache
//! is a plain value; [`crate::shared::SharedBot`] puts it behind a lock for
//! one writer and many readers, and every reader then sees one whole
//! snapshot, the old one or the new one.

use vstd::prelude::*;

use crate::record::{check_series, series_wf, DailyRecord, SeriesSnapshot};

verus! {

/// The series of one region.
#[derive(Debug)]
pub struct RegionSeries {
    pub code: String,
    /// The region's records, in the order in which the source gave them.
    pub days: SeriesSnapshot,
}

/// The series of all regions, each region once, in the order in which the
/// regions first appeared in the source.
#[derive(Debug)]
pub struct RegionMap {
    pub entries: Vec<RegionSeries>,
}

/// The code under which a record is filed: its region's, or `N/A` for a
/// record without one.
pub open spec fn region_key(record: DailyRecord) -> Seq<char> {
    match record.region {
        Some(code) => code@,
        None => "N/A"@,
    }
}

/// The records of `data` that are filed under `code`, in their order.
pub open spec fn records_of(data: Seq<DailyRecord>, code: Seq<char>) -> Seq<DailyRecord>
    decreases data.len(),
{
    if data.len() == 0 {
        Seq::empty()
    } else if region_key(data.last()) == code {
        records_of(data.drop_last(), code).push(data.last())
    } else {
        records_of(data.drop_last(), code)
    }
}

/// The place in `data` of the first record filed under `code`; the length
/// of `data` where there is none.
pub open spec fn first_seen(data: Seq<DailyRecord>, code: Seq<char>) -> int
    decreases data.len(),
{
    if data.len() == 0 {
        0
    } else if first_seen(data.drop_last(), code) < data.len() - 1 {
        first_seen(data.drop_last(), code)
    } else if region_key(data.last()) == code {
        data.len() - 1
    } else {
        data.len() as int
    }
}

impl View for RegionMap {
    type V = Map<Seq<char>, Seq<DailyRecord>>;

    /// The map as a mapping from the code of a region to its series.
    open spec fn view(&self) -> Map<Seq<char>, Seq<DailyRecord>> {
        Map::new(|code: Seq<char>| self.has(code), |code: Seq<char>| self.series_of(code))
    }
}

impl RegionMap {
    /// No region has two entries.
    pub open spec fn wf(self) -> bool {
        forall|i: int, j: int|
            0 <= i < j < self.entries.len() ==> (#[trigger] self.entries[i]).code@ != (
            #[trigger] self.entries[j]).code@
    }

    /// Every record of every region is well formed.
    pub open spec fn records_wf(self) -> bool {
        forall|i: int|
            0 <= i < self.entries.len() ==> series_wf((#[trigger] self.entries[i]).days@)
    }

    /// Whether the map has an entry for `code`.
    pub open spec fn has(self, code: Seq<char>) -> bool {
        exists|i: int| 0 <= i < self.entries.len() && (#[trigger] self.entries[i]).code@ == code
    }

    /// The place of the entry for `code`, if there is one.
    pub open spec fn place_of(self, code: Seq<char>) -> int {
        choose|i: int| 0 <= i < self.entries.len() && (#[trigger] self.entries[i]).code@ == code
    }

    /// The series filed under `code`.
    pub open spec fn series_of(self, code: Seq<char>) -> Seq<DailyRecord> {
        self.entries[self.place_of(code)].days@
    }

    /// The entries group `data` by region: each holds the records filed
    /// under its code, in their order, and the entries stand in the order
    /// in which their codes first appear in `data`.
    pub open spec fn groups(self, data: Seq<DailyRecord>) -> bool {
        &&& self.wf()
        &&& forall|i: int|
            0 <= i < self.entries.len() ==> (#[trigger] self.entries[i]).days@ == records_of(
                data,
                self.entries[i].code@,
            )
        &&& forall|i: int|
            0 <= i < self.entries.len() ==> first_seen(data, (#[trigger] self.entries[i]).code@)
                < data.len()
        &&& forall|i: int, j: int|
            0 <= i < j < self.entries.len() ==> first_seen(
                data,
                (#[trigger] self.entries[i]).code@,
            ) < first_seen(data, (#[trigger] self.entries[j]).code@)
        &&& forall|k: int| 0 <= k < data.len() ==> self.has(region_key(#[trigger] data[k]))
    }

    /// The mapping files every record of `data` under its code and holds
    /// nothing else: a code is in it exactly when a record is filed under
    /// it, and it stands for the records filed under it, in their order.
    pub open spec fn files(self, data: Seq<DailyRecord>) -> bool {
        &&& forall|code: Seq<char>| #[trigger]
            self@.contains_key(code) <==> first_seen(data, code) < data.len()
        &&& forall|code: Seq<char>| #[trigger]
            self@.contains_key(code) ==> self@[code] == records_of(data, code) && self@[code].len()
                > 0
    }

    /// A map without a region.
    pub fn new() -> (map: RegionMap)
        ensures
            map.entries@.len() == 0,
            map.wf(),
            map.records_wf(),
    {
        RegionMap { entries: Vec::new() }
    }

    /// The number of regions.
    pub fn len(&self) -> (n: usize)
        ensures
            n == self.entries.len(),
    {
        self.entries.len()
    }

    /// The place of the entry for `code`.
    pub fn find(&self, code: &str) -> (place: Option<usize>)
        ensures
            match place {
                Some(i) => i < self.entries.len() && self.entries[i as int].code@ == code@,
                None => !self.has(code@),
            },
            self.wf() ==> (place matches Some(i) ==> i == self.place_of(code@)),
    {
        let mut i: usize = 0;
        while i < self.entries.len()
            invariant
                i <= self.entries.len(),
                forall|j: int| 0 <= j < i ==> (#[trigger] self.entries[j]).code@ != code@,
            decreases self.entries.len() - i,
        {
            if self.entries[i].code.as_str().eq(code) {
                return Some(i);
            }
            i += 1;
        }
        None
    }

    /// The series of the region `code`, if the map has one.
    pub fn get(&self, code: &str) -> (series: Option<&Vec<DailyRecord>>)
        requires
            self.wf(),
        ensures
            series is Some <==> self@.contains_key(code@),
            series matches Some(days) ==> days@ == self@[code@],
    {
        match self.find(code) {
            Some(i) => Some(&self.entries[i].days),
            None => None,
        }
    }

    /// Whether the map has a series for the region `code`.
    pub fn contains_key(&self, code: &str) -> (found: bool)
        ensures
            found == self@.contains_key(code@),
    {
        self.find(code).is_some()
    }

    /// Whether every record of every region is well formed.
    pub fn check_records(&self) -> (ok: bool)
        ensures
            ok == self.records_wf(),
    {
        let mut i: usize = 0;
        while i < self.entries.len()
            invariant
                i <= self.entries.len(),
                forall|j: int| 0 <= j < i ==> series_wf((#[trigger] self.entries[j]).days@),
            decreases self.entries.len() - i,
        {
            if !check_series(&self.entries[i].days) {
                return false;
            }
            i += 1;
        }
        true
    }
}

/// The code under which a record is filed.
pub fn key_of(record: &DailyRecord) -> (key: String)
    ensures
        key@ == region_key(*record),
{
    match &record.region {
        Some(code) => code.clone(),
        None => String::from_str("N/A"),
    }
}

/// Groups the records of a feed by region.
///
/// Each region gets one entry, which holds its records in the order of the
/// feed; a record without a region is filed under `N/A`. The entries stand
/// in the order in which the regions first appear.
pub fn construct_states_map(data: &Vec<DailyRecord>) -> (map: RegionMap)
    ensures
        map.groups(data@),
        map.files(data@),
        total_days(map.entries@) == data.len(),
        series_wf(data@) ==> map.records_wf(),
{
    let mut map = RegionMap::new();
    let mut k: usize = 0;
    assert(data@.subrange(0, 0) =~= Seq::<DailyRecord>::empty());
    while k < data.len()
        invariant
            k <= data.len(),
            map.groups(data@.subrange(0, k as int)),
            series_wf(data@) ==> map.records_wf(),
        decreases data.len() - k,
    {
        let ghost seen = data@.subrange(0, k as int);
        let ghost next = data@.subrange(0, k + 1);
        let ghost before = map;
        let record = &data[k];
        let key = key_of(record);
        proof {
            assert(next.drop_last() =~= seen);
            assert(next.last() == data@[k as int]);
            assert forall|i: int| 0 <= i < seen.len() implies before.has(
                region_key(#[trigger] next[i]),
            ) by {
                assert(next[i] == seen[i]);
            }
        }
        match map.find(key.as_str()) {
            Some(i) => {
                map.entries[i].days.push(record.clone());
                proof {
                    assert(map.entries@.len() == before.entries@.len());
                    assert forall|j: int| 0 <= j < map.entries.len() implies (
                    #[trigger] map.entries[j]).code@ == before.entries[j].code@ by {}
                    assert(map.entries[i as int].days@ == before.entries[i as int].days@.push(
                        data@[k as int],
                    ));
                    assert forall|j: int| 0 <= j < map.entries.len() && j != i implies (
                    #[trigger] map.entries[j]).days@ == before.entries[j].days@ by {}
                    assert forall|j: int| 0 <= j < map.entries.len() implies first_seen(
                        next,
                        (#[trigger] map.entries[j]).code@,
                    ) == first_seen(seen, before.entries[j].code@) by {
                        assert(first_seen(seen, before.entries[j].code@) < seen.len());
                    }
                    assert forall|x: int| 0 <= x < next.len() implies map.has(
                        region_key(#[trigger] next[x]),
                    ) by {
                        if x < seen.len() {
                            let j = before.place_of(region_key(next[x]));
                            assert(map.entries[j].code@ == region_key(next[x]));
                        } else {
                            assert(map.entries[i as int].code@ == region_key(next[x]));
                        }
                    }
                    assert(map.groups(next));
                    if series_wf(data@) {
                        assert forall|j: int| 0 <= j < map.entries.len() implies series_wf(
                            (#[trigger] map.entries[j]).days@,
                        ) by {
                            assert(series_wf(before.entries[j].days@));
                            assert(data@[k as int].wf());
                        }
                    }
                }
            },
            None => {
                let mut days: Vec<DailyRecord> = Vec::new();
                days.push(record.clone());
                map.entries.push(RegionSeries { code: key, days });
                proof {
                    let last = before.entries@.len() as int;
                    lemma_unseen_has_no_record(seen, before, key@);
                    assert(map.entries[last].days@ =~= records_of(next, key@));
                    assert forall|j: int| 0 <= j < last implies (#[trigger] map.entries[j])
                        == before.entries[j] by {}
                    assert forall|j: int| 0 <= j < last implies first_seen(
                        next,
                        (#[trigger] map.entries[j]).code@,
                    ) == first_seen(seen, before.entries[j].code@) by {
                        assert(first_seen(seen, before.entries[j].code@) < seen.len());
                    }
                    assert forall|j: int| 0 <= j < last implies (#[trigger] map.entries[j]).code@
                        != key@ by {
                        assert(before.entries[j].code@ != key@);
                    }
                    assert(first_seen(next, key@) == k);
                    assert forall|x: int| 0 <= x < next.len() implies map.has(
                        region_key(#[trigger] next[x]),
                    ) by {
                        if x < seen.len() {
                            let j = before.place_of(region_key(next[x]));
                            assert(map.entries[j].code@ == region_key(next[x]));
                        } else {
                            assert(map.entries[last].code@ == region_key(next[x]));
                        }
                    }
                    assert(map.groups(next));
                    if series_wf(data@) {
                        assert forall|j: int| 0 <= j < map.entries.len() implies series_wf(
                            (#[trigger] map.entries[j]).days@,
                        ) by {
                            if j < last {
                                assert(series_wf(before.entries[j].days@));
                            } else {
                                assert(data@[k as int].wf());
                            }
                        }
                    }
                }
            },
        }
        k += 1;
    }
    assert(data@.subrange(0, data.len() as int) =~= data@);
    proof {
        lemma_groups_files(map, data@);
        lemma_groups_keep_every_record(map, data@);
    }
    map
}

/// The first record filed under a code is filed under that code, and a
/// code with a record has a first one.
pub proof fn lemma_first_seen(data: Seq<DailyRecord>, code: Seq<char>)
    ensures
        0 <= first_seen(data, code) <= data.len(),
        first_seen(data, code) < data.len() ==> region_key(data[first_seen(data, code)]) == code
            && records_of(data, code).len() > 0,
        forall|k: int|
            0 <= k < data.len() && region_key(#[trigger] data[k]) == code ==> first_seen(
                data,
                code,
            ) <= k,
    decreases data.len(),
{
    if data.len() > 0 {
        lemma_first_seen(data.drop_last(), code);
        let found = first_seen(data.drop_last(), code);
        if found < data.len() - 1 {
            assert(data.drop_last()[found] == data[found]);
        }
        assert forall|k: int|
            0 <= k < data.len() && region_key(#[trigger] data[k]) == code implies first_seen(
            data,
            code,
        ) <= k by {
            if k < data.len() - 1 {
                assert(data.drop_last()[k] == data[k]);
            }
        }
    }
}

/// The number of records in the series of the entries, all together.
pub open spec fn total_days(entries: Seq<RegionSeries>) -> int
    decreases entries.len(),
{
    if entries.len() == 0 {
        0
    } else {
        total_days(entries.drop_last()) + entries.last().days@.len()
    }
}

/// The number of records of `data` that are filed under the codes of the
/// entries, each entry counted for itself.
pub open spec fn filed_under(entries: Seq<RegionSeries>, data: Seq<DailyRecord>) -> int
    decreases entries.len(),
{
    if entries.len() == 0 {
        0
    } else {
        filed_under(entries.drop_last(), data) + records_of(data, entries.last().code@).len()
    }
}

/// The number of entries that have the code `code`.
pub open spec fn entries_with(entries: Seq<RegionSeries>, code: Seq<char>) -> int
    decreases entries.len(),
{
    if entries.len() == 0 {
        0
    } else {
        entries_with(entries.drop_last(), code) + if entries.last().code@ == code {
            1int
        } else {
            0int
        }
    }
}

/// Whether one of the entries has the code `code`.
pub open spec fn has_entry(entries: Seq<RegionSeries>, code: Seq<char>) -> bool {
    exists|i: int| 0 <= i < entries.len() && (#[trigger] entries[i]).code@ == code
}

/// One more record is filed under as many entries as have its code.
proof fn lemma_one_more_record(entries: Seq<RegionSeries>, data: Seq<DailyRecord>)
    requires
        data.len() > 0,
    ensures
        filed_under(entries, data) == filed_under(entries, data.drop_last()) + entries_with(
            entries,
            region_key(data.last()),
        ),
    decreases entries.len(),
{
    if entries.len() > 0 {
        lemma_one_more_record(entries.drop_last(), data);
    }
}

/// Among entries of which no two have one code, a code has one entry or
/// none.
proof fn lemma_one_entry_a_code(entries: Seq<RegionSeries>, code: Seq<char>)
    requires
        forall|i: int, j: int|
            0 <= i < j < entries.len() ==> (#[trigger] entries[i]).code@ != (
            #[trigger] entries[j]).code@,
    ensures
        has_entry(entries, code) ==> entries_with(entries, code) == 1,
        (forall|i: int| 0 <= i < entries.len() ==> (#[trigger] entries[i]).code@ != code)
            ==> entries_with(entries, code) == 0,
    decreases entries.len(),
{
    if entries.len() > 0 {
        let rest = entries.drop_last();
        assert forall|i: int, j: int| 0 <= i < j < rest.len() implies (#[trigger] rest[i]).code@
            != (#[trigger] rest[j]).code@ by {
            assert(rest[i] == entries[i] && rest[j] == entries[j]);
        }
        lemma_one_entry_a_code(rest, code);
        if entries.last().code@ == code {
            assert forall|i: int| 0 <= i < rest.len() implies (#[trigger] rest[i]).code@
                != code by {
                assert(rest[i] == entries[i]);
                assert(entries[entries.len() - 1] == entries.last());
            }
        } else {
            if has_entry(entries, code) {
                let i = choose|i: int|
                    0 <= i < entries.len() && (#[trigger] entries[i]).code@ == code;
                assert(rest[i] == entries[i]);
                assert(has_entry(rest, code));
            }
            if forall|i: int| 0 <= i < entries.len() ==> (#[trigger] entries[i]).code@ != code {
                assert forall|i: int| 0 <= i < rest.len() implies (#[trigger] rest[i]).code@
                    != code by {
                    assert(rest[i] == entries[i]);
                }
            }
        }
    }
}

/// Where every record has an entry for its code, and no code two entries,
/// the records filed under the entries are all the records, each once.
proof fn lemma_all_are_filed(entries: Seq<RegionSeries>, data: Seq<DailyRecord>)
    requires
        forall|i: int, j: int|
            0 <= i < j < entries.len() ==> (#[trigger] entries[i]).code@ != (
            #[trigger] entries[j]).code@,
        forall|k: int| 0 <= k < data.len() ==> has_entry(entries, region_key(#[trigger] data[k])),
    ensures
        filed_under(entries, data) == data.len(),
    decreases data.len(),
{
    if data.len() == 0 {
        lemma_nothing_filed(entries, data);
    } else {
        let rest = data.drop_last();
        assert forall|k: int| 0 <= k < rest.len() implies has_entry(
            entries,
            region_key(#[trigger] rest[k]),
        ) by {
            assert(rest[k] == data[k]);
        }
        lemma_all_are_filed(entries, rest);
        lemma_one_more_record(entries, data);
        assert(data[data.len() - 1] == data.last());
        lemma_one_entry_a_code(entries, region_key(data.last()));
    }
}

/// Of no records none is filed.
proof fn lemma_nothing_filed(entries: Seq<RegionSeries>, data: Seq<DailyRecord>)
    requires
        data.len() == 0,
    ensures
        filed_under(entries, data) == 0,
    decreases entries.len(),
{
    if entries.len() > 0 {
        lemma_nothing_filed(entries.drop_last(), data);
    }
}

/// Entries that hold what is filed under their codes hold as many records
/// as are filed under them.
proof fn lemma_days_are_filed(entries: Seq<RegionSeries>, data: Seq<DailyRecord>)
    requires
        forall|i: int|
            0 <= i < entries.len() ==> (#[trigger] entries[i]).days@ == records_of(
                data,
                entries[i].code@,
            ),
    ensures
        total_days(entries) == filed_under(entries, data),
    decreases entries.len(),
{
    if entries.len() > 0 {
        let rest = entries.drop_last();
        assert forall|i: int| 0 <= i < rest.len() implies (#[trigger] rest[i]).days@
            == records_of(data, rest[i].code@) by {
            assert(rest[i] == entries[i]);
        }
        lemma_days_are_filed(rest, data);
        assert(entries[entries.len() - 1] == entries.last());
    }
}

/// A map that groups `data` keeps every record and adds none: the lengths
/// of its series add up to the length of `data`.
pub proof fn lemma_groups_keep_every_record(map: RegionMap, data: Seq<DailyRecord>)
    requires
        map.groups(data),
    ensures
        total_days(map.entries@) == data.len(),
{
    lemma_days_are_filed(map.entries@, data);
    assert forall|k: int| 0 <= k < data.len() implies has_entry(
        map.entries@,
        region_key(#[trigger] data[k]),
    ) by {
        assert(map.has(region_key(data[k])));
        let i = map.place_of(region_key(data[k]));
        assert(map.entries@[i].code@ == region_key(data[k]));
    }
    lemma_all_are_filed(map.entries@, data);
}

/// A map that groups `data` files it: seen as a mapping, it holds exactly
/// the codes of the records, each with its records.
pub proof fn lemma_groups_files(map: RegionMap, data: Seq<DailyRecord>)
    requires
        map.groups(data),
    ensures
        map.files(data),
{
    assert forall|code: Seq<char>| #[trigger]
        map@.contains_key(code) <==> first_seen(data, code) < data.len() by {
        lemma_first_seen(data, code);
        if first_seen(data, code) < data.len() {
            assert(map.has(region_key(data[first_seen(data, code)])));
        }
        if map.has(code) {
            let i = map.place_of(code);
            assert(first_seen(data, map.entries[i].code@) < data.len());
        }
    }
    assert forall|code: Seq<char>| #[trigger] map@.contains_key(code) implies map@[code]
        == records_of(data, code) && map@[code].len() > 0 by {
        lemma_first_seen(data, code);
        let i = map.place_of(code);
        assert(map.entries[i].days@ == records_of(data, map.entries[i].code@));
    }
}

/// A code that no entry of a grouping has is the code of no record.
proof fn lemma_unseen_has_no_record(data: Seq<DailyRecord>, map: RegionMap, code: Seq<char>)
    requires
        map.groups(data),
        !map.has(code),
    ensures
        records_of(data, code) == Seq::<DailyRecord>::empty(),
        first_seen(data, code) == data.len(),
{
    lemma_no_record(data, code);
    assert forall|k: int| 0 <= k < data.len() implies region_key(#[trigger] data[k]) != code by {
        assert(map.has(region_key(data[k])));
    }
}

/// A code that no record of `data` is filed under has no records and is
/// first seen nowhere.
proof fn lemma_no_record(data: Seq<DailyRecord>, code: Seq<char>)
    ensures
        (forall|k: int| 0 <= k < data.len() ==> region_key(#[trigger] data[k]) != code) ==> {
            &&& records_of(data, code) == Seq::<DailyRecord>::empty()
            &&& first_seen(data, code) == data.len()
        },
        0 <= first_seen(data, code) <= data.len(),
    decreases data.len(),
{
    if data.len() > 0 {
        lemma_no_record(data.drop_last(), code);
        if forall|k: int| 0 <= k < data.len() ==> region_key(#[trigger] data[k]) != code {
            assert forall|k: int| 0 <= k < data.drop_last().len() implies region_key(
                #[trigger] data.drop_last()[k],
            ) != code by {
                assert(data.drop_last()[k] == data[k]);
            }
            assert(region_key(data.last()) != code);
        }
    }
}

/// One published state of the data.
#[derive(Debug)]
pub struct CacheSnapshot {
    /// The national series; `None` where the source gave none.
    pub national: Option<SeriesSnapshot>,
    pub by_region: RegionMap,
}

impl CacheSnapshot {
    /// No region has two entries, and every record is well formed.
    pub open spec fn wf(self) -> bool {
        &&& self.national matches Some(days) ==> series_wf(days@)
        &&& self.by_region.wf()
        &&& self.by_region.records_wf()
    }
}

/// Why a refresh published nothing.
#[derive(Clone, Copy, Debug, PartialEq, Eq, Structural)]
pub enum RefreshError {
    /// The source could not be reached or did not answer with success.
    Network,
    /// The source's answer was malformed.
    Parse,
}

/// The snapshot that two feeds make: the national series as it is, the
/// regional feed grouped by region. The feeds are malformed where the date
/// of a record names no calendar day.
pub fn build_snapshot(national: Vec<DailyRecord>, regional: &Vec<DailyRecord>) -> (r: Result<
    CacheSnapshot,
    RefreshError,
>)
    ensures
        r is Ok <==> series_wf(national@) && series_wf(regional@),
        r matches Ok(snapshot) ==> {
            &&& snapshot.national == Some(national)
            &&& snapshot.by_region.groups(regional@)
            &&& snapshot.wf()
        },
        r matches Err(e) ==> e == RefreshError::Parse,
{
    if !check_series(&national) || !check_series(regional) {
        return Err(RefreshError::Parse);
    }
    let by_region = construct_states_map(regional);
    Ok(CacheSnapshot { national: Some(national), by_region })
}

/// The store of the latest snapshot. It is empty until the first one is
/// published, and whatever it holds is well formed.
#[derive(Debug)]
pub struct StatsCache {
    current: Option<CacheSnapshot>,
}

impl StatsCache {
    #[verifier::type_invariant]
    spec fn holds_well_formed(self) -> bool {
        self.current matches Some(snapshot) ==> snapshot.wf()
    }

    /// The snapshot that is published; `None` before the first one.
    pub closed spec fn snapshot(self) -> Option<CacheSnapshot> {
        self.current
    }

    /// The national series that a reader is given.
    pub open spec fn national(self) -> Option<Seq<DailyRecord>> {
        match self.snapshot() {
            Some(snapshot) => match snapshot.national {
                Some(days) => Some(days@),
                None => None,
            },
            None => None,
        }
    }

    /// The series of a region that a reader is given.
    pub open spec fn region(self, code: Seq<char>) -> Option<Seq<DailyRecord>> {
        match self.snapshot() {
            Some(snapshot) => if snapshot.by_region.has(code) {
                Some(snapshot.by_region.series_of(code))
            } else {
                None
            },
            None => None,
        }
    }

    /// A cache in which nothing was published yet.
    pub fn new() -> (cache: StatsCache)
        ensures
            cache.snapshot() is None,
    {
        StatsCache { current: None }
    }

    /// Puts a snapshot in the place of the one before it, as a whole.
    pub fn install(&mut self, snapshot: CacheSnapshot)
        requires
            snapshot.wf(),
        ensures
            final(self).snapshot() == Some(snapshot),
    {
        self.current = Some(snapshot);
    }

    /// Publishes a national series and the regional series together: from
    /// then on a reader is given both of them, and nothing of what was
    /// there before.
    pub fn publish(&mut self, national: Option<Vec<DailyRecord>>, by_region: RegionMap)
        requires
            (CacheSnapshot { national, by_region }).wf(),
        ensures
            final(self).snapshot() == Some(CacheSnapshot { national, by_region }),
            final(self).national() == (match national {
                Some(days) => Some(days@),
                None => None,
            }),
            forall|code: Seq<char>| #[trigger]
                final(self).region(code) == (if by_region.has(code) {
                    Some(by_region.series_of(code))
                } else {
                    None
                }),
    {
        self.current = Some(CacheSnapshot { national, by_region });
    }

    /// Publishes the snapshot that two feeds make. Where a feed is
    /// malformed the cache keeps what it had.
    pub fn refresh(&mut self, national: Vec<DailyRecord>, regional: &Vec<DailyRecord>) -> (r: Result<
        (),
        RefreshError,
    >)
        ensures
            r is Ok <==> series_wf(national@) && series_wf(regional@),
            r is Ok ==> (final(self).snapshot() matches Some(snapshot) && snapshot.national
                == Some(national) && snapshot.by_region.groups(regional@)),
            r matches Err(e) ==> e == RefreshError::Parse && *final(self) == *old(self),
    {
        match build_snapshot(national, regional) {
            Ok(snapshot) => {
                self.current = Some(snapshot);
                Ok(())
            },
            Err(e) => Err(e),
        }
    }

    /// The snapshot that is published, whole; `None` before the first one.
    /// What it holds is well formed.
    pub fn get_snapshot(&self) -> (snapshot: Option<&CacheSnapshot>)
        ensures
            snapshot is Some <==> self.snapshot() is Some,
            snapshot matches Some(s) ==> Some(*s) == self.snapshot() && s.wf(),
    {
        proof {
            use_type_invariant(self);
        }
        match &self.current {
            Some(snapshot) => Some(snapshot),
            None => None,
        }
    }

    /// The national series of the latest snapshot; `None` before the first
    /// snapshot, and where the snapshot has none. Its records are well
    /// formed.
    pub fn get_national(&self) -> (series: Option<&Vec<DailyRecord>>)
        ensures
            series is Some <==> self.national() is Some,
            series matches Some(days) ==> Some(days@) == self.national() && series_wf(days@),
    {
        proof {
            use_type_invariant(self);
        }
        match &self.current {
            Some(snapshot) => match &snapshot.national {
                Some(days) => Some(days),
                None => None,
            },
            None => None,
        }
    }

    /// The series of the region `code` in the latest snapshot; `None`
    /// before the first snapshot, and where the snapshot has no such
    /// region. Its records are well formed.
    pub fn get_region(&self, code: &str) -> (series: Option<&Vec<DailyRecord>>)
        ensures
            series is Some <==> self.region(code@) is Some,
            series matches Some(days) ==> Some(days@) == self.region(code@) && series_wf(days@),
    {
        proof {
            use_type_invariant(self);
        }
        match &self.current {
            Some(snapshot) => {
                let found = snapshot.by_region.get(code);
                proof {
                    if found is Some {
                        let i = snapshot.by_region.place_of(code@);
                        assert(series_wf(snapshot.by_region.entries[i].days@));
                    }
                }
                found
            },
            None => None,
        }
    }

    /// The regional series of the latest snapshot; `None` before the first
    /// snapshot.
    pub fn regions(&self) -> (map: Option<&RegionMap>)
        ensures
            map is Some <==> self.snapshot() is Some,
            map matches Some(m) ==> *m == self.snapshot()->0.by_region,
    {
        match &self.current {
            Some(snapshot) => Some(&snapshot.by_region),
            None => None,
        }
    }
}

/// What a reader is given comes from one snapshot: with nothing published
/// there is neither a national nor a regional series, and with a snapshot
/// published both are that snapshot's.
pub proof fn lemma_reads_are_of_one_snapshot(cache: StatsCache, code: Seq<char>)
    ensures
        cache.snapshot() is None ==> cache.national() is None && cache.region(code) is None,
        cache.snapshot() matches Some(snapshot) ==> {
            &&& cache.national() == (match snapshot.national {
                Some(days) => Some(days@),
                None => None,
            })
            &&& cache.region(code) == (if snapshot.by_region.has(code) {
                Some(snapshot.by_region.series_of(code))
            } else {
                None
            })
        },
{
}

} // verus!
