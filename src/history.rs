//! The colour history: most recent first, one row per hex value, bounded.
use vstd::prelude::*;

verus! {

/// Entries that a history keeps unless it is made with another bound.
pub const DEFAULT_MAX_ENTRIES: usize = 50;

/// One picked colour.
#[derive(Debug)]
pub struct ColorEntry {
    pub hex: String,
    pub rgb: (u8, u8, u8),
    /// Seconds since the Unix epoch when the colour was first added.
    pub timestamp: i64,
}

/// The history, most recent entry first.
#[derive(Debug)]
pub struct ColorHistory {
    pub entries: Vec<ColorEntry>,
    /// New entries past this many are dropped from the end.
    pub max_entries: usize,
}

impl Clone for ColorEntry {
    fn clone(&self) -> (e: ColorEntry)
        ensures
            e.hex@ == self.hex@,
            e.rgb == self.rgb,
            e.timestamp == self.timestamp,
    {
        ColorEntry { hex: self.hex.clone(), rgb: self.rgb, timestamp: self.timestamp }
    }
}

/// An entry as plain values: hex text, RGB triple, timestamp.
pub open spec fn entry_view(e: ColorEntry) -> (Seq<char>, (u8, u8, u8), i64) {
    (e.hex@, e.rgb, e.timestamp)
}

/// Index `i` holds the first entry with hex text `hex`.
pub open spec fn first_with_hex(s: Seq<(Seq<char>, (u8, u8, u8), i64)>, hex: Seq<char>, i: int) -> bool {
    &&& 0 <= i < s.len()
    &&& s[i].0 == hex
    &&& forall|k: int| 0 <= k < i ==> #[trigger] s[k].0 != hex
}

/// The history after adding a colour: an entry with the same hex text moves
/// to the front unchanged; otherwise a new entry goes to the front and the
/// list is cut to `max` entries.
pub open spec fn added(
    s: Seq<(Seq<char>, (u8, u8, u8), i64)>,
    hex: Seq<char>,
    rgb: (u8, u8, u8),
    timestamp: i64,
    max: nat,
) -> Seq<(Seq<char>, (u8, u8, u8), i64)> {
    if exists|i: int| first_with_hex(s, hex, i) {
        let i = choose|i: int| first_with_hex(s, hex, i);
        s.remove(i).insert(0, s[i])
    } else {
        let t = s.insert(0, (hex, rgb, timestamp));
        if t.len() > max {
            t.subrange(0, max as int)
        } else {
            t
        }
    }
}

proof fn lemma_first_with_hex_unique(
    s: Seq<(Seq<char>, (u8, u8, u8), i64)>,
    hex: Seq<char>,
    i: int,
    j: int,
)
    requires
        first_with_hex(s, hex, i),
        first_with_hex(s, hex, j),
    ensures
        i == j,
{
    if i < j {
        assert(s[i].0 != hex);
    } else if j < i {
        assert(s[j].0 != hex);
    }
}

/// No two entries share a hex text.
pub open spec fn hexes_distinct(s: Seq<(Seq<char>, (u8, u8, u8), i64)>) -> bool {
    forall|i: int, j: int| 0 <= i < j < s.len() ==> #[trigger] s[i].0 != #[trigger] s[j].0
}

proof fn lemma_first_exists(s: Seq<(Seq<char>, (u8, u8, u8), i64)>, hex: Seq<char>, k: int)
    requires
        0 <= k < s.len(),
        s[k].0 == hex,
    ensures
        exists|i: int| first_with_hex(s, hex, i),
    decreases k,
{
    if forall|m: int| 0 <= m < k ==> #[trigger] s[m].0 != hex {
        assert(first_with_hex(s, hex, k));
    } else {
        let m = choose|m: int| 0 <= m < k && #[trigger] s[m].0 == hex;
        lemma_first_exists(s, hex, m);
    }
}

/// Adding a colour puts it at the front, keeps one row per hex text, and
/// keeps the history within its bound.
pub proof fn lemma_added_front_distinct_bounded(
    s: Seq<(Seq<char>, (u8, u8, u8), i64)>,
    hex: Seq<char>,
    rgb: (u8, u8, u8),
    timestamp: i64,
    max: nat,
)
    requires
        hexes_distinct(s),
        s.len() <= max,
        max >= 1,
    ensures
        added(s, hex, rgb, timestamp, max).len() > 0,
        added(s, hex, rgb, timestamp, max)[0].0 == hex,
        hexes_distinct(added(s, hex, rgb, timestamp, max)),
        added(s, hex, rgb, timestamp, max).len() <= max,
{
    let r = added(s, hex, rgb, timestamp, max);
    if exists|i: int| first_with_hex(s, hex, i) {
        let c = choose|i: int| first_with_hex(s, hex, i);
        let q = s.remove(c);
        assert(r == q.insert(0, s[c]));
        assert forall|i: int, j: int| 0 <= i < j < r.len() implies #[trigger] r[i].0
            != #[trigger] r[j].0 by {
            let si = if i == 0 { c } else if i - 1 < c { i - 1 } else { i };
            let sj = if j - 1 < c { j - 1 } else { j };
            assert(r[i] == s[si]);
            assert(r[j] == s[sj]);
            assert(si != sj);
            if si < sj {
                assert(s[si].0 != s[sj].0);
            } else {
                assert(s[sj].0 != s[si].0);
            }
        }
    } else {
        assert forall|k: int| 0 <= k < s.len() implies #[trigger] s[k].0 != hex by {
            if s[k].0 == hex {
                lemma_first_exists(s, hex, k);
            }
        }
        let t = s.insert(0, (hex, rgb, timestamp));
        assert forall|i: int, j: int| 0 <= i < j < t.len() implies #[trigger] t[i].0
            != #[trigger] t[j].0 by {
            assert(t[j] == s[j - 1]);
            if i > 0 {
                assert(t[i] == s[i - 1]);
            }
        }
    }
}

/// Relies on chrono's `From<SystemTime> for DateTime<Utc>` and
/// `DateTime::timestamp`: the current time in whole seconds since the Unix
/// epoch, negative for a clock set before it. Nothing is promised of its value.
#[verifier::external_body]
fn unix_now() -> i64 {
    chrono::DateTime::<chrono::Utc>::from(std::time::SystemTime::now()).timestamp()
}

impl ColorHistory {
    /// The entries as plain values.
    pub open spec fn view_entries(&self) -> Seq<(Seq<char>, (u8, u8, u8), i64)> {
        self.entries@.map_values(|e: ColorEntry| entry_view(e))
    }

    /// Adds a colour picked at `timestamp`, as `added` says.
    pub fn add_color_at(&mut self, hex: String, rgb: (u8, u8, u8), timestamp: i64)
        ensures
            final(self).view_entries() == added(
                old(self).view_entries(),
                hex@,
                rgb,
                timestamp,
                old(self).max_entries as nat,
            ),
            final(self).max_entries == old(self).max_entries,
    {
        let ghost s = self.view_entries();
        let n = self.entries.len();
        let mut i: usize = 0;
        while i < n
            invariant
                i <= n == self.entries@.len(),
                s == self.view_entries(),
                s == old(self).view_entries(),
                self.max_entries == old(self).max_entries,
                forall|k: int| 0 <= k < i ==> #[trigger] s[k].0 != hex@,
            decreases n - i,
        {
            if self.entries[i].hex == hex {
                proof {
                    assert(first_with_hex(s, hex@, i as int));
                    let c = choose|c: int| first_with_hex(s, hex@, c);
                    lemma_first_with_hex_unique(s, hex@, i as int, c);
                }
                let entry = self.entries.remove(i);
                self.entries.insert(0, entry);
                assert(self.view_entries() =~= s.remove(i as int).insert(0, s[i as int]));
                return;
            }
            i += 1;
        }
        assert(!exists|c: int| first_with_hex(s, hex@, c));
        self.entries.insert(0, ColorEntry { hex, rgb, timestamp });
        let ghost t = s.insert(0, (hex@, rgb, timestamp));
        assert(self.view_entries() =~= t);
        if self.entries.len() > self.max_entries {
            self.entries.truncate(self.max_entries);
            assert(self.view_entries() =~= t.subrange(0, self.max_entries as int));
        }
    }

    /// Adds a colour picked now.
    pub fn add_color(&mut self, hex: String, rgb: (u8, u8, u8))
        ensures
            exists|t: i64|
                final(self).view_entries() == added(
                    old(self).view_entries(),
                    hex@,
                    rgb,
                    t,
                    old(self).max_entries as nat,
                ),
            final(self).max_entries == old(self).max_entries,
    {
        let now = unix_now();
        self.add_color_at(hex, rgb, now);
    }

    /// Removes every entry.
    pub fn clear(&mut self)
        ensures
            final(self).entries@.len() == 0,
            final(self).max_entries == old(self).max_entries,
    {
        self.entries.clear();
    }
}

impl Default for ColorHistory {
    fn default() -> (h: ColorHistory)
        ensures
            h.entries@.len() == 0,
            h.max_entries == DEFAULT_MAX_ENTRIES,
    {
        ColorHistory { entries: Vec::new(), max_entries: DEFAULT_MAX_ENTRIES }
    }
}

} // verus!
