//! Diaries: entry ids, and the entry that comes first in a diary.

use vstd::prelude::*;

use itertools::Itertools;

verus! {

/// The identity of a diary entry: the diary's name and the date and time
/// (to the minute) that the entry is for.
#[derive(Debug)]
pub struct DiaryId {
    pub name: String,
    pub year: i32,
    pub month: u32,
    pub day: u32,
    pub hour: u32,
    pub minute: u32,
}

impl DiaryId {
    pub fn new(name: String, year: i32, month: u32, day: u32, hour: u32, minute: u32) -> (id: DiaryId)
        ensures
            id.name@ == name@,
            id.year == year,
            id.month == month,
            id.day == day,
            id.hour == hour,
            id.minute == minute,
    {
        DiaryId { name, year, month, day, hour, minute }
    }

    /// The same date and time in the diary named `name`.
    pub fn with_diary_name(self, name: String) -> (id: DiaryId)
        ensures
            id.name@ == name@,
            id.year == self.year,
            id.month == self.month,
            id.day == self.day,
            id.hour == self.hour,
            id.minute == self.minute,
    {
        DiaryId { name, ..self }
    }
}

/// The position of an entry in the order in which a diary lists its
/// entries: readable entries (rank 0) before unreadable ones (rank 1),
/// readable ones by date and time, and otherwise by their place in the list.
pub type EntryKey = (u8, i32, u32, u32, u32, u32, usize);

/// `a` comes before `b`, or is `b`, in the lexicographic order of the key's
/// components.
pub open spec fn key_le(a: EntryKey, b: EntryKey) -> bool {
    ||| a.0 < b.0
    ||| a.0 == b.0 && a.1 < b.1
    ||| a.0 == b.0 && a.1 == b.1 && a.2 < b.2
    ||| a.0 == b.0 && a.1 == b.1 && a.2 == b.2 && a.3 < b.3
    ||| a.0 == b.0 && a.1 == b.1 && a.2 == b.2 && a.3 == b.3 && a.4 < b.4
    ||| a.0 == b.0 && a.1 == b.1 && a.2 == b.2 && a.3 == b.3 && a.4 == b.4 && a.5 < b.5
    ||| a.0 == b.0 && a.1 == b.1 && a.2 == b.2 && a.3 == b.3 && a.4 == b.4 && a.5 == b.5 && a.6
        <= b.6
}

/// The key of the entry at position `i`.
pub open spec fn entry_key<E>(entry: Result<DiaryId, E>, i: int) -> EntryKey {
    match entry {
        Ok(id) => (0u8, id.year, id.month, id.day, id.hour, id.minute, i as usize),
        Err(_) => (1u8, 0i32, 0u32, 0u32, 0u32, 0u32, i as usize),
    }
}

/// Entry `i` comes first when the entries are put in order.
pub open spec fn first_in_order<E>(entries: Seq<Result<DiaryId, E>>, i: int) -> bool {
    &&& 0 <= i < entries.len()
    &&& forall|j: int|
        0 <= j < entries.len() ==> key_le(entry_key(entries[i], i), #[trigger] entry_key(entries[j], j))
}

/// The date and time of `a` is no later than that of `b`: compared by
/// year, then month, then day, then hour, then minute.
pub open spec fn not_later(a: DiaryId, b: DiaryId) -> bool {
    ||| a.year < b.year
    ||| a.year == b.year && a.month < b.month
    ||| a.year == b.year && a.month == b.month && a.day < b.day
    ||| a.year == b.year && a.month == b.month && a.day == b.day && a.hour < b.hour
    ||| a.year == b.year && a.month == b.month && a.day == b.day && a.hour == b.hour && a.minute
        <= b.minute
}

/// Law: the entry that comes first in order is readable whenever some
/// entry is, and then no readable entry is earlier than it.
pub proof fn lemma_first_is_earliest<E>(entries: Seq<Result<DiaryId, E>>, i: int)
    requires
        first_in_order(entries, i),
    ensures
        (exists|j: int| 0 <= j < entries.len() && #[trigger] entries[j] is Ok) ==> entries[i] is Ok,
        entries[i] matches Ok(id) ==> forall|j: int|
            0 <= j < entries.len() ==> (#[trigger] entries[j] matches Ok(o) ==> not_later(id, o)),
{
    assert forall|j: int| 0 <= j < entries.len() && #[trigger] entries[j] is Ok implies entries[i] is Ok by {
        assert(key_le(entry_key(entries[i], i), entry_key(entries[j], j)));
    }
    if let Ok(id) = entries[i] {
        assert forall|j: int| 0 <= j < entries.len() implies (#[trigger] entries[j] matches Ok(o)
            ==> not_later(id, o)) by {
            assert(key_le(entry_key(entries[i], i), entry_key(entries[j], j)));
        }
    }
}

/// Trusted: itertools' `sorted` yields the same elements, each as often,
/// in ascending order of the tuple's `Ord`, which std documents as
/// lexicographic.
#[verifier::external_body]
fn sorted_keys(keys: Vec<EntryKey>) -> (r: Vec<EntryKey>)
    ensures
        r@.to_multiset() == keys@.to_multiset(),
        forall|i: int, j: int| 0 <= i < j < r.len() ==> key_le(r@[i], r@[j]),
{
    keys.into_iter().sorted().collect()
}

/// Trusted: chrono's local date of the current moment; chrono's `Datelike`
/// documents the month as 1 to 12 and the day of the month as 1 to 31.
/// Which date comes back depends on the clock and the time zone.
#[verifier::external_body]
fn local_today() -> (r: (i32, u32, u32))
    ensures
        1 <= r.1 <= 12,
        1 <= r.2 <= 31,
{
    let now = chrono::Local::now().naive_local();
    (chrono::Datelike::year(&now), chrono::Datelike::month(&now), chrono::Datelike::day(&now))
}

/// A diary: the entries of the store that bear its name.
#[derive(Debug)]
pub struct Diary<'a> {
    name: &'a str,
}

impl<'a> Diary<'a> {
    pub closed spec fn diary_name(&self) -> Seq<char> {
        self.name@
    }

    pub fn open(name: &'a str) -> (d: Diary<'a>)
        ensures
            d.diary_name() == name@,
    {
        Diary { name }
    }

    pub fn name(&self) -> (n: &'a str)
        ensures
            n@ == self.diary_name(),
    {
        self.name
    }

    /// The id of today's entry in this diary: today's local date, at 00:00.
    pub fn new_entry_today(&self) -> (id: DiaryId)
        ensures
            id.name@ == self.diary_name(),
            1 <= id.month <= 12,
            1 <= id.day <= 31,
            id.hour == 0,
            id.minute == 0,
    {
        let (year, month, day) = local_today();
        self.entry_for_date(year, month, day)
    }

    /// The id of this diary's entry for a date, at 00:00.
    pub fn entry_for_date(&self, year: i32, month: u32, day: u32) -> (id: DiaryId)
        ensures
            id.name@ == self.diary_name(),
            id.year == year,
            id.month == month,
            id.day == day,
            id.hour == 0,
            id.minute == 0,
    {
        let id = DiaryId::new(String::from_str(self.name), year, month, day, 0, 0);
        self.new_entry_by_id(id)
    }

    /// The id under which the entry for `id` is kept in this diary.
    pub fn new_entry_by_id(&self, id: DiaryId) -> (r: DiaryId)
        ensures
            r.name@ == self.diary_name(),
            r.year == id.year,
            r.month == id.month,
            r.day == id.day,
            r.hour == id.hour,
            r.minute == id.minute,
    {
        id.with_diary_name(String::from_str(self.name))
    }

    /// The entry that comes first when the diary's entries are ordered:
    /// the readable entry of the earliest date and time, the earliest
    /// listed among equals; when no entry is readable, the first listed.
    /// A failure to list the entries is handed back as it is.
    pub fn get_youngest_entry<E>(&self, entries: Result<Vec<Result<DiaryId, E>>, E>) -> (r: Option<
        Result<DiaryId, E>,
    >)
        ensures
            entries matches Err(e) ==> r == Some(Err::<DiaryId, E>(e)),
            entries matches Ok(v) ==> (v.len() == 0 <==> r is None),
            entries matches Ok(v) ==> (r matches Some(x) ==> exists|i: int|
                first_in_order(v@, i) && x == v@[i]),
            entries matches Ok(v) ==> (r matches Some(Ok(id)) ==> forall|j: int|
                0 <= j < v.len() ==> (#[trigger] v@[j] matches Ok(o) ==> not_later(id, o))),
            entries matches Ok(v) ==> ((exists|j: int| 0 <= j < v.len() && #[trigger] v@[j] is Ok)
                ==> r matches Some(Ok(_))),
    {
        match entries {
            Err(e) => Some(Err(e)),
            Ok(mut v) => {
                let mut keys: Vec<EntryKey> = Vec::new();
                let mut i: usize = 0;
                while i < v.len()
                    invariant
                        i <= v.len(),
                        keys.len() == i,
                        forall|k: int| 0 <= k < i ==> #[trigger] keys@[k] == entry_key(v@[k], k),
                    decreases v.len() - i,
                {
                    let key: EntryKey = match &v[i] {
                        Ok(id) => (0u8, id.year, id.month, id.day, id.hour, id.minute, i),
                        Err(_) => (1u8, 0i32, 0u32, 0u32, 0u32, 0u32, i),
                    };
                    keys.push(key);
                    i += 1;
                }
                let ghost ks = keys@;
                let sorted = sorted_keys(keys);
                proof {
                    ks.to_multiset_ensures();
                    sorted@.to_multiset_ensures();
                }
                if sorted.len() == 0 {
                    assert(ks.len() == 0);
                    return None;
                }
                let idx = sorted[0].6;
                proof {
                    assert(sorted@.contains(sorted@[0]));
                    assert(sorted@.to_multiset().count(sorted@[0]) > 0);
                    assert(ks.to_multiset().count(sorted@[0]) > 0);
                    assert(ks.contains(sorted@[0]));
                    let p = choose|p: int| 0 <= p < ks.len() && ks[p] == sorted@[0];
                    assert(idx == p);
                    assert forall|j: int| 0 <= j < v@.len() implies key_le(
                        entry_key(v@[idx as int], idx as int),
                        #[trigger] entry_key(v@[j], j),
                    ) by {
                        assert(ks[j] == entry_key(v@[j], j));
                        assert(ks.contains(ks[j]));
                        assert(ks.to_multiset().count(ks[j]) > 0);
                        assert(sorted@.to_multiset().count(ks[j]) > 0);
                        assert(sorted@.contains(ks[j]));
                        let q = choose|q: int| 0 <= q < sorted@.len() && sorted@[q] == ks[j];
                        if q > 0 {
                            assert(key_le(sorted@[0], sorted@[q]));
                        }
                    }
                }
                let ghost before = v@;
                let x = v.remove(idx);
                assert(first_in_order(before, idx as int));
                proof {
                    lemma_first_is_earliest(before, idx as int);
                }
                Some(x)
            },
        }
    }
}

} // verus!
