//! The tables as plain values: what is written when the store is saved
//! and read when it is loaded. The registrations of the finder are not
//! kept.

use crate::states::account::{Account, AccountView};
use crate::states::series::{is_listing, Series, SeriesView, Single, SingleView, Ticket};
use crate::states::{States, StatesView};
use vstd::prelude::*;

verus! {

/// One series as it is saved.
#[derive(Clone, Debug, PartialEq, Eq)]
pub struct SeriesRecord {
    pub single_map: Vec<(i64, Single)>,
    pub ticket_map: Vec<(i64, Ticket)>,
}

/// The tables as they are saved.
#[derive(Clone, Debug, PartialEq, Eq)]
pub struct Tables {
    pub accounts: Vec<(i64, Account)>,
    pub serieses: Vec<(i64, SeriesRecord)>,
}

pub struct SeriesRecordView {
    pub single_map: Seq<(i64, SingleView)>,
    pub ticket_map: Seq<(i64, Ticket)>,
}

pub struct TablesView {
    pub accounts: Seq<(i64, AccountView)>,
    pub serieses: Seq<(i64, SeriesRecordView)>,
}

impl View for SeriesRecord {
    type V = SeriesRecordView;

    open spec fn view(&self) -> SeriesRecordView {
        SeriesRecordView {
            single_map: self.single_map@.map_values(|entry: (i64, Single)| (entry.0, entry.1@)),
            ticket_map: self.ticket_map@,
        }
    }
}

impl View for Tables {
    type V = TablesView;

    open spec fn view(&self) -> TablesView {
        TablesView {
            accounts: self.accounts@.map_values(|entry: (i64, Account)| (entry.0, entry.1@)),
            serieses: self.serieses@.map_values(
                |entry: (i64, SeriesRecord)| (entry.0, entry.1@),
            ),
        }
    }
}

/// The keys of `entries`, in order.
pub open spec fn keys_of<V>(entries: Seq<(i64, V)>) -> Seq<i64> {
    entries.map_values(|entry: (i64, V)| entry.0)
}

/// The table that is read from `entries`: each key holds the value of its
/// last entry.
pub open spec fn table_of<V>(entries: Seq<(i64, V)>) -> Map<i64, V>
    decreases entries.len(),
{
    if entries.len() == 0 {
        Map::empty()
    } else {
        table_of(entries.drop_last()).insert(entries.last().0, entries.last().1)
    }
}

/// `entries` is `table` written down: each key once, with its value.
pub open spec fn writes<V>(table: Map<i64, V>, entries: Seq<(i64, V)>) -> bool {
    &&& is_listing(keys_of(entries), table.dom())
    &&& forall|i: int| 0 <= i < entries.len() ==> table[(#[trigger] entries[i]).0] == entries[i].1
}

/// The series that is read from `record`.
pub open spec fn series_of(record: SeriesRecordView) -> SeriesView {
    SeriesView { singles: table_of(record.single_map), tickets: table_of(record.ticket_map) }
}

/// `record` is `series` written down.
pub open spec fn writes_series(series: SeriesView, record: SeriesRecordView) -> bool {
    &&& writes(series.singles, record.single_map)
    &&& writes(series.tickets, record.ticket_map)
}

/// The store that is read from `tables`: no series is registered with the
/// finder.
pub open spec fn loaded(tables: TablesView) -> StatesView {
    StatesView {
        accounts: table_of(tables.accounts),
        serieses: table_of(
            tables.serieses.map_values(
                |entry: (i64, SeriesRecordView)| (entry.0, series_of(entry.1)),
            ),
        ),
        finders: Map::empty(),
    }
}

/// `tables` is the accounts and the series of `states` written down.
pub open spec fn saves(states: StatesView, tables: TablesView) -> bool {
    &&& writes(states.accounts, tables.accounts)
    &&& is_listing(keys_of(tables.serieses), states.serieses.dom())
    &&& forall|i: int|
        0 <= i < tables.serieses.len() ==> writes_series(
            states.serieses[(#[trigger] tables.serieses[i]).0],
            tables.serieses[i].1,
        )
}

/// Each ledger of `tables` keeps its invariant.
pub open spec fn ledgers_valid(tables: TablesView) -> bool {
    forall|i: int, j: int|
        0 <= i < tables.serieses.len() && 0 <= j < tables.serieses[i].1.ticket_map.len() ==> (
        #[trigger] tables.serieses[i].1.ticket_map[j]).1.valid()
}

/// What a key holds in the table that is read from `entries` is the value
/// of one of the entries of that key.
pub proof fn lemma_table_of_values<V>(entries: Seq<(i64, V)>, key: i64)
    requires
        table_of(entries).contains_key(key),
    ensures
        exists|i: int|
            0 <= i < entries.len() && #[trigger] entries[i] == (key, table_of(entries)[key]),
    decreases entries.len(),
{
    if entries.len() > 0 {
        if key == entries.last().0 {
            assert(entries[entries.len() - 1] == (key, table_of(entries)[key]));
        } else {
            lemma_table_of_values(entries.drop_last(), key);
            let i = choose|i: int|
                0 <= i < entries.drop_last().len() && #[trigger] entries.drop_last()[i] == (
                    key,
                    table_of(entries.drop_last())[key],
                );
            assert(entries[i] == entries.drop_last()[i]);
        }
    }
}

/// The store that is read from tables whose ledgers keep their invariant
/// keeps its invariants.
pub proof fn lemma_loaded_valid(tables: TablesView)
    requires
        ledgers_valid(tables),
    ensures
        loaded(tables).valid(),
{
    let read = tables.serieses.map_values(
        |entry: (i64, SeriesRecordView)| (entry.0, series_of(entry.1)),
    );
    let states = loaded(tables);
    assert forall|series: i64| #[trigger]
        states.serieses.contains_key(series) implies states.serieses[series].valid() by {
        lemma_table_of_values(read, series);
        let i = choose|i: int|
            0 <= i < read.len() && #[trigger] read[i] == (series, table_of(read)[series]);
        let record = tables.serieses[i].1;
        assert(read[i].1 == series_of(record));
        assert forall|account: i64| #[trigger]
            series_of(record).tickets.contains_key(account) implies series_of(
            record,
        ).tickets[account].valid() by {
            lemma_table_of_values(record.ticket_map, account);
            let j = choose|j: int|
                0 <= j < record.ticket_map.len() && #[trigger] record.ticket_map[j] == (
                    account,
                    table_of(record.ticket_map)[account],
                );
            assert(tables.serieses[i].1.ticket_map[j].1.valid());
        }
    }
}

/// What is written of a store that keeps its invariants holds ledgers that
/// keep theirs.
pub proof fn lemma_saved_valid(states: StatesView, tables: TablesView)
    requires
        states.valid(),
        saves(states, tables),
    ensures
        ledgers_valid(tables),
{
    assert forall|i: int, j: int|
        0 <= i < tables.serieses.len() && 0 <= j < tables.serieses[i].1.ticket_map.len() implies (
    #[trigger] tables.serieses[i].1.ticket_map[j]).1.valid() by {
        let key = tables.serieses[i].0;
        assert(keys_of(tables.serieses)[i] == key);
        assert(keys_of(tables.serieses).to_set().contains(key));
        assert(states.serieses.contains_key(key));
        let series = states.serieses[key];
        let record = tables.serieses[i].1;
        assert(writes_series(series, record));
        let account = record.ticket_map[j].0;
        assert(keys_of(record.ticket_map)[j] == account);
        assert(keys_of(record.ticket_map).to_set().contains(account));
        assert(series.tickets.contains_key(account));
    }
}

/// What is read from the first entries holds the keys of those entries.
pub proof fn lemma_table_of_dom<V>(entries: Seq<(i64, V)>)
    ensures
        table_of(entries).dom() =~= keys_of(entries).to_set(),
    decreases entries.len(),
{
    if entries.len() > 0 {
        lemma_table_of_dom(entries.drop_last());
        let keys = keys_of(entries);
        let before = keys_of(entries.drop_last());
        assert(before =~= keys.drop_last());
        assert forall|key: i64| table_of(entries).dom().contains(key) == keys.to_set().contains(
            key,
        ) by {
            if keys.to_set().contains(key) {
                let i = choose|i: int| 0 <= i < keys.len() && keys[i] == key;
                if i < keys.len() - 1 {
                    assert(before[i] == key);
                    assert(before.to_set().contains(key));
                }
            }
            if before.to_set().contains(key) {
                let i = choose|i: int| 0 <= i < before.len() && before[i] == key;
                assert(keys[i] == key);
            }
            if key == entries.last().0 {
                assert(keys[keys.len() - 1] == key);
            }
        }
    } else {
        assert(keys_of(entries).to_set() =~= Set::<i64>::empty());
    }
}

/// A table that was written down is read as it was.
pub proof fn lemma_table_round_trip<V>(table: Map<i64, V>, entries: Seq<(i64, V)>)
    requires
        writes(table, entries),
    ensures
        table_of(entries) == table,
{
    lemma_table_of_dom(entries);
    assert(entries.take(entries.len() as int) =~= entries);
    assert forall|key: i64| table_of(entries).dom().contains(key) implies table_of(entries)[key]
        == table[key] by {
        lemma_table_of_holds(table, entries, entries.len() as int, key);
    }
    assert(table_of(entries) =~= table);
}

proof fn lemma_table_of_holds<V>(table: Map<i64, V>, entries: Seq<(i64, V)>, upto: int, key: i64)
    requires
        0 <= upto <= entries.len(),
        forall|i: int| 0 <= i < entries.len() ==> table[(#[trigger] entries[i]).0] == entries[i].1,
        table_of(entries.take(upto)).dom().contains(key),
    ensures
        table_of(entries.take(upto))[key] == table[key],
    decreases upto,
{
    let first = entries.take(upto);
    if upto > 0 {
        assert(first.drop_last() =~= entries.take(upto - 1));
        assert(first.last() == entries[upto - 1]);
        if key != first.last().0 {
            lemma_table_of_holds(table, entries, upto - 1, key);
        }
    }
}

impl Series {
    /// The series written down.
    pub fn save(&self) -> (record: SeriesRecord)
        ensures
            writes_series(self@, record@),
    {
        let single_ids = self.single_ids();
        let mut single_map: Vec<(i64, Single)> = Vec::new();
        let mut at: usize = 0;
        while at < single_ids.len()
            invariant
                at <= single_ids.len(),
                is_listing(single_ids@, self@.singles.dom()),
                single_map.len() == at,
                forall|i: int|
                    0 <= i < at ==> (#[trigger] single_map@[i]).0 == single_ids@[i]
                        && single_map@[i].1@ == self@.singles[single_ids@[i]],
            decreases single_ids.len() - at,
        {
            let id = single_ids[at];
            assert(single_ids@.to_set().contains(id));
            match self.get_single(id) {
                Some(single) => {
                    single_map.push((id, single));
                },
                None => {
                    assert(false);
                },
            }
            at += 1;
        }
        let ticket_ids = self.ticket_ids();
        let mut ticket_map: Vec<(i64, Ticket)> = Vec::new();
        let mut at: usize = 0;
        while at < ticket_ids.len()
            invariant
                at <= ticket_ids.len(),
                is_listing(ticket_ids@, self@.tickets.dom()),
                ticket_map.len() == at,
                forall|i: int|
                    0 <= i < at ==> (#[trigger] ticket_map@[i]).0 == ticket_ids@[i]
                        && ticket_map@[i].1 == self@.tickets[ticket_ids@[i]],
            decreases ticket_ids.len() - at,
        {
            let id = ticket_ids[at];
            assert(ticket_ids@.to_set().contains(id));
            match self.get_tkt(id) {
                Ok(ticket) => {
                    ticket_map.push((id, ticket));
                },
                Err(_) => {
                    assert(false);
                },
            }
            at += 1;
        }
        let record = SeriesRecord { single_map, ticket_map };
        proof {
            assert(keys_of(record@.single_map) =~= single_ids@);
            assert(keys_of(record@.ticket_map) =~= ticket_ids@);
        }
        record
    }

    /// A copy of the series: it holds what the series holds.
    pub fn duplicate(&self) -> (copy: Series)
        ensures
            copy@ == self@,
    {
        let record = self.save();
        proof {
            lemma_series_round_trip(self@, record@);
        }
        Series::load(&record)
    }

    /// The series that is read from `record`.
    pub fn load(record: &SeriesRecord) -> (series: Series)
        ensures
            series@ == series_of(record@),
    {
        let mut series = Series::new();
        let ghost entries = record@.single_map;
        let mut at: usize = 0;
        assert(entries.take(0) =~= Seq::<(i64, SingleView)>::empty());
        while at < record.single_map.len()
            invariant
                at <= record.single_map.len(),
                entries == record@.single_map,
                series@.singles == table_of(entries.take(at as int)),
                series@.tickets == Map::<i64, Ticket>::empty(),
            decreases record.single_map.len() - at,
        {
            let entry = &record.single_map[at];
            proof {
                let upto = entries.take(at + 1);
                assert(upto.drop_last() =~= entries.take(at as int));
                assert(upto.last() == (entry.0, entry.1@));
            }
            series.put_single(entry.0, &entry.1);
            at += 1;
        }
        assert(entries.take(entries.len() as int) =~= entries);
        let ghost tickets = record@.ticket_map;
        let mut at: usize = 0;
        assert(tickets.take(0) =~= Seq::<(i64, Ticket)>::empty());
        while at < record.ticket_map.len()
            invariant
                at <= record.ticket_map.len(),
                tickets == record@.ticket_map,
                series@.singles == table_of(entries),
                series@.tickets == table_of(tickets.take(at as int)),
            decreases record.ticket_map.len() - at,
        {
            let entry = record.ticket_map[at];
            proof {
                let upto = tickets.take(at + 1);
                assert(upto.drop_last() =~= tickets.take(at as int));
                assert(upto.last() == entry);
            }
            series.set_tkt(entry.0, entry.1);
            at += 1;
        }
        assert(tickets.take(tickets.len() as int) =~= tickets);
        series
    }
}

impl Tables {
    /// Whether each ledger keeps its invariant.
    pub fn valid(&self) -> (valid: bool)
        ensures
            valid == ledgers_valid(self@),
    {
        let mut i: usize = 0;
        while i < self.serieses.len()
            invariant
                i <= self.serieses.len(),
                forall|a: int, b: int|
                    0 <= a < i && 0 <= b < self@.serieses[a].1.ticket_map.len() ==> (
                    #[trigger] self@.serieses[a].1.ticket_map[b]).1.valid(),
            decreases self.serieses.len() - i,
        {
            let record = &self.serieses[i].1;
            assert(self@.serieses[i as int].1 == record@);
            let mut j: usize = 0;
            while j < record.ticket_map.len()
                invariant
                    j <= record.ticket_map.len(),
                    i < self.serieses.len(),
                    self@.serieses[i as int].1 == record@,
                    forall|b: int| 0 <= b < j ==> (#[trigger] record@.ticket_map[b]).1.valid(),
                decreases record.ticket_map.len() - j,
            {
                if record.ticket_map[j].1.permanent < 0 {
                    assert(!self@.serieses[i as int].1.ticket_map[j as int].1.valid());
                    return false;
                }
                j += 1;
            }
            i += 1;
        }
        true
    }
}

impl States {
    /// The accounts and the series written down. The store stays as it is.
    pub fn save(&mut self) -> (tables: Tables)
        ensures
            saves(old(self)@, tables@),
            final(self)@ == old(self)@,
            old(self)@.valid() ==> ledgers_valid(tables@),
    {
        let account_ids = self.account_ids();
        let mut accounts: Vec<(i64, Account)> = Vec::new();
        let mut at: usize = 0;
        while at < account_ids.len()
            invariant
                at <= account_ids.len(),
                self@ == old(self)@,
                is_listing(account_ids@, self@.accounts.dom()),
                accounts.len() == at,
                forall|i: int|
                    0 <= i < at ==> (#[trigger] accounts@[i]).0 == account_ids@[i]
                        && accounts@[i].1@ == self@.accounts[account_ids@[i]],
            decreases account_ids.len() - at,
        {
            let id = account_ids[at];
            assert(account_ids@.to_set().contains(id));
            match self.get_acc(id) {
                Ok(account) => {
                    accounts.push((id, account));
                },
                Err(_) => {
                    assert(false);
                },
            }
            at += 1;
        }
        let series_ids = self.series_ids();
        let mut serieses: Vec<(i64, SeriesRecord)> = Vec::new();
        let mut at: usize = 0;
        while at < series_ids.len()
            invariant
                at <= series_ids.len(),
                self@ == old(self)@,
                is_listing(series_ids@, self@.serieses.dom()),
                serieses.len() == at,
                forall|i: int|
                    0 <= i < at ==> (#[trigger] serieses@[i]).0 == series_ids@[i]
                        && writes_series(self@.serieses[series_ids@[i]], serieses@[i].1@),
            decreases series_ids.len() - at,
        {
            let id = series_ids[at];
            assert(series_ids@.to_set().contains(id));
            let ghost before = self@;
            let series = self.take_srs(id);
            let record = series.save();
            self.put_srs(id, series);
            assert(self@.serieses =~= before.serieses);
            serieses.push((id, record));
            at += 1;
        }
        let tables = Tables { accounts, serieses };
        proof {
            assert(keys_of(tables@.accounts) =~= account_ids@);
            assert(keys_of(tables@.serieses) =~= series_ids@);
            if old(self)@.valid() {
                lemma_saved_valid(old(self)@, tables@);
            }
        }
        tables
    }

    /// The store that is read from `tables`.
    pub fn load(tables: &Tables) -> (states: States)
        ensures
            states@ == loaded(tables@),
            ledgers_valid(tables@) ==> states@.valid(),
    {
        proof {
            if ledgers_valid(tables@) {
                lemma_loaded_valid(tables@);
            }
        }
        let mut states = States::new();
        let ghost accounts = tables@.accounts;
        let mut at: usize = 0;
        assert(accounts.take(0) =~= Seq::<(i64, AccountView)>::empty());
        while at < tables.accounts.len()
            invariant
                at <= tables.accounts.len(),
                accounts == tables@.accounts,
                states@.accounts == table_of(accounts.take(at as int)),
                states@.serieses == Map::<i64, SeriesView>::empty(),
                states@.finders == StatesView::empty().finders,
            decreases tables.accounts.len() - at,
        {
            let entry = &tables.accounts[at];
            proof {
                let upto = accounts.take(at + 1);
                assert(upto.drop_last() =~= accounts.take(at as int));
                assert(upto.last() == (entry.0, entry.1@));
            }
            states.put_acc(entry.0, &entry.1);
            at += 1;
        }
        assert(accounts.take(accounts.len() as int) =~= accounts);
        let ghost serieses = tables@.serieses.map_values(
            |entry: (i64, SeriesRecordView)| (entry.0, series_of(entry.1)),
        );
        let mut at: usize = 0;
        assert(serieses.take(0) =~= Seq::<(i64, SeriesView)>::empty());
        while at < tables.serieses.len()
            invariant
                at <= tables.serieses.len(),
                serieses == tables@.serieses.map_values(
                    |entry: (i64, SeriesRecordView)| (entry.0, series_of(entry.1)),
                ),
                states@.accounts == table_of(accounts),
                states@.serieses == table_of(serieses.take(at as int)),
                states@.finders == StatesView::empty().finders,
            decreases tables.serieses.len() - at,
        {
            let entry = &tables.serieses[at];
            proof {
                let upto = serieses.take(at + 1);
                assert(upto.drop_last() =~= serieses.take(at as int));
                assert(upto.last() == (entry.0, series_of(entry.1@)));
            }
            let series = Series::load(&entry.1);
            states.put_srs(entry.0, series);
            at += 1;
        }
        assert(serieses.take(serieses.len() as int) =~= serieses);
        states
    }
}

/// A series that was written down is read as it was.
pub proof fn lemma_series_round_trip(series: SeriesView, record: SeriesRecordView)
    requires
        writes_series(series, record),
    ensures
        series_of(record) == series,
{
    lemma_table_round_trip(series.singles, record.single_map);
    lemma_table_round_trip(series.tickets, record.ticket_map);
}

/// The persistence round trip: the store that is read from what was
/// written of a store holds the accounts and the series of that store,
/// each ledger and each cached item as it was.
pub proof fn lemma_persistence_round_trip(states: StatesView, tables: TablesView)
    requires
        saves(states, tables),
    ensures
        loaded(tables).accounts == states.accounts,
        loaded(tables).serieses == states.serieses,
{
    lemma_table_round_trip(states.accounts, tables.accounts);
    let read = tables.serieses.map_values(
        |entry: (i64, SeriesRecordView)| (entry.0, series_of(entry.1)),
    );
    assert(keys_of(read) =~= keys_of(tables.serieses));
    assert forall|i: int| 0 <= i < read.len() implies states.serieses[(#[trigger] read[i]).0]
        == read[i].1 by {
        assert(read[i].0 == tables.serieses[i].0);
        lemma_series_round_trip(states.serieses[tables.serieses[i].0], tables.serieses[i].1);
    }
    lemma_table_round_trip(states.serieses, read);
}

} // verus!

