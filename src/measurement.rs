//! Measurements: a name, tags and fields kept sorted by key, and a timestamp.
use vstd::prelude::*;
use crate::clock::{current_timestamp, format_timestamp, timestamp_text};
use crate::keys::{compare_keys, key_lt, lemma_key_cmp_basics, lemma_key_lt_transitive};
use crate::text::{fixed4_text, int_text, push_fixed4, push_int};

verus! {

/// A tag or field value.
#[derive(Debug, Clone)]
pub enum Value {
    /// Text, printed as it is.
    Text(String),
    /// An integer, printed in plain decimal.
    Integer(i64),
    /// A decimal number held in ten-thousandths, printed with four decimals.
    Decimal(i64),
}

/// What a `Value` holds.
pub enum ValueView {
    Text(Seq<char>),
    Integer(i64),
    Decimal(i64),
}

impl View for Value {
    type V = ValueView;

    open spec fn view(&self) -> ValueView {
        match self {
            Value::Text(s) => ValueView::Text(s@),
            Value::Integer(n) => ValueView::Integer(*n),
            Value::Decimal(n) => ValueView::Decimal(*n),
        }
    }
}

impl Value {
    /// A copy of the value.
    pub fn duplicate(&self) -> (r: Value)
        ensures
            r@ == self@,
    {
        match self {
            Value::Text(s) => Value::Text(s.clone()),
            Value::Integer(n) => Value::Integer(*n),
            Value::Decimal(n) => Value::Decimal(*n),
        }
    }
}

/// One key with its value, as the contracts see it.
pub type EntryView = (Seq<char>, ValueView);

/// The keys and values of a list of entries.
pub open spec fn entries_view(v: Seq<(String, Value)>) -> Seq<EntryView> {
    Seq::new(v.len(), |i: int| (v[i].0@, v[i].1@))
}

/// Keys strictly increase along the list, so each key occurs once.
pub open spec fn sorted_by_key(s: Seq<EntryView>) -> bool {
    forall|i: int, j: int| 0 <= i < j < s.len() ==> key_lt(#[trigger] s[i].0, #[trigger] s[j].0)
}

/// `after` is `before` with `key` set to `value`, as a map from keys to
/// values listed in key order.
pub open spec fn put_entry(
    before: Seq<EntryView>,
    after: Seq<EntryView>,
    key: Seq<char>,
    value: ValueView,
) -> bool {
    &&& sorted_by_key(after)
    &&& after.contains((key, value))
    &&& forall|e: EntryView| #[trigger]
        before.contains(e) && e.0 != key ==> after.contains(e)
    &&& forall|e: EntryView| #[trigger]
        after.contains(e) ==> e == (key, value) || (before.contains(e) && e.0 != key)
}

/// The first position whose key does not sort before `key`, with the
/// comparison of `key` against the key there.
fn find_slot(entries: &Vec<(String, Value)>, key: &str) -> (r: (usize, i8))
    ensures
        r.0 <= entries@.len(),
        forall|j: int| 0 <= j < r.0 ==> key_lt(#[trigger] entries_view(entries@)[j].0, key@),
        r.0 < entries@.len() ==> r.1 <= 0 && r.1 as int == crate::keys::key_cmp(
            key@,
            entries_view(entries@)[r.0 as int].0,
        ),
{
    let ghost before = entries_view(entries@);
    let n = entries.len();
    let mut i: usize = 0;
    while i < n
        invariant
            n == entries@.len(),
            before == entries_view(entries@),
            i <= n,
            forall|j: int| 0 <= j < i ==> key_lt(#[trigger] before[j].0, key@),
        decreases n - i,
    {
        let c = compare_keys(key, entries[i].0.as_str());
        proof {
            lemma_key_cmp_basics(key@, before[i as int].0);
        }
        if c <= 0 {
            return (i, c);
        }
        i = i + 1;
    }
    (i, 1)
}

/// Sets `key` to `value` in a list of entries sorted by key.
pub fn put(entries: &mut Vec<(String, Value)>, key: &str, value: Value)
    requires
        sorted_by_key(entries_view(old(entries)@)),
    ensures
        put_entry(entries_view(old(entries)@), entries_view(final(entries)@), key@, value@),
{
    let ghost before = entries_view(entries@);
    let n = entries.len();
    let (i, c) = find_slot(entries, key);
    let ghost val = value@;
    let ghost e_new: EntryView = (key@, val);
    proof {
        assert forall|j: int| 0 <= j < before.len() && before[j].0 == key@ implies j == i by {
            lemma_key_cmp_basics(before[j].0, key@);
            if j > i {
                lemma_key_cmp_basics(key@, before[i as int].0);
                if c < 0 {
                    lemma_key_lt_transitive(key@, before[i as int].0, before[j].0);
                } else {
                    lemma_key_cmp_basics(before[i as int].0, before[j].0);
                }
            }
        }
    }
    if i < n && c == 0 {
        entries.set(i, (String::from_str(key), value));
        proof {
            let after = entries_view(entries@);
            assert(after =~= before.update(i as int, e_new));
            lemma_key_cmp_basics(key@, before[i as int].0);
            assert(after[i as int] == e_new);
            assert forall|e: EntryView| #[trigger] before.contains(e) && e.0 != key@ implies after.contains(e) by {
                let j = choose|j: int| 0 <= j < before.len() && before[j] == e;
                assert(after[j] == e);
            }
            assert forall|e: EntryView| #[trigger] after.contains(e) implies e == e_new || (before.contains(e) && e.0 != key@) by {
                let j = choose|j: int| 0 <= j < after.len() && after[j] == e;
                if j != i {
                    assert(before[j] == e);
                }
            }
        }
    } else {
        entries.insert(i, (String::from_str(key), value));
        proof {
            let after = entries_view(entries@);
            assert(after =~= before.insert(i as int, e_new));
            assert(after[i as int] == e_new);
            assert forall|a: int, b: int| 0 <= a < b < after.len() implies key_lt(#[trigger] after[a].0, #[trigger] after[b].0) by {
                if b == i {
                } else if a == i {
                    lemma_key_cmp_basics(key@, before[i as int].0);
                    if b - 1 > i {
                        lemma_key_lt_transitive(key@, before[i as int].0, before[b - 1].0);
                    }
                }
            }
            assert forall|e: EntryView| #[trigger] before.contains(e) && e.0 != key@ implies after.contains(e) by {
                let j = choose|j: int| 0 <= j < before.len() && before[j] == e;
                if j < i {
                    assert(after[j] == e);
                } else {
                    assert(after[j + 1] == e);
                }
            }
            assert forall|e: EntryView| #[trigger] after.contains(e) implies e == e_new || (before.contains(e) && e.0 != key@) by {
                let j = choose|j: int| 0 <= j < after.len() && after[j] == e;
                if j < i {
                    assert(before[j] == e);
                    lemma_key_cmp_basics(before[j].0, key@);
                } else if j > i {
                    assert(before[j - 1] == e);
                    lemma_key_cmp_basics(key@, before[i as int].0);
                    if j - 1 > i {
                        lemma_key_lt_transitive(key@, before[i as int].0, before[j - 1].0);
                    }
                    lemma_key_cmp_basics(key@, before[j - 1].0);
                }
            }
        }
    }
}

/// One assembled reading: a name, tags and fields sorted by key, and the
/// capture time in nanoseconds since the Unix epoch.
#[derive(Debug, Clone)]
pub struct Measurement {
    pub measurement: String,
    pub fields: Vec<(String, Value)>,
    pub tags: Vec<(String, Value)>,
    pub timestamp: i64,
}

/// What a `Measurement` holds.
pub struct MeasurementView {
    pub name: Seq<char>,
    pub fields: Seq<EntryView>,
    pub tags: Seq<EntryView>,
    pub timestamp: i64,
}

impl View for Measurement {
    type V = MeasurementView;

    open spec fn view(&self) -> MeasurementView {
        MeasurementView {
            name: self.measurement@,
            fields: entries_view(self.fields@),
            tags: entries_view(self.tags@),
            timestamp: self.timestamp,
        }
    }
}

/// The text of one entry: `key=value`.
pub open spec fn entry_text(e: EntryView) -> Seq<char> {
    e.0 + seq!['='] + match e.1 {
        ValueView::Text(s) => s,
        ValueView::Integer(n) => int_text(n as int),
        ValueView::Decimal(n) => fixed4_text(n as int),
    }
}

/// The entries' texts joined by commas.
pub open spec fn entries_text(s: Seq<EntryView>) -> Seq<char>
    decreases s.len(),
{
    if s.len() == 0 {
        seq![]
    } else if s.len() == 1 {
        entry_text(s[0])
    } else {
        entries_text(s.drop_last()) + seq![','] + entry_text(s.last())
    }
}

/// The console line of a measurement whose timestamp reads as `clock`:
/// name, time, tags (left out with their separator when there are none)
/// and fields, separated by spaces.
pub open spec fn line_text(m: MeasurementView, clock: Seq<char>) -> Seq<char> {
    m.name + seq![' '] + clock + seq![' '] + (if m.tags.len() > 0 {
        entries_text(m.tags) + seq![' ']
    } else {
        seq![]
    }) + entries_text(m.fields)
}

fn push_entries(out: &mut String, entries: &Vec<(String, Value)>)
    ensures
        final(out)@ == old(out)@ + entries_text(entries_view(entries@)),
{
    let ghost start = out@;
    let ghost all = entries_view(entries@);
    let n = entries.len();
    let mut i: usize = 0;
    while i < n
        invariant
            n == entries@.len(),
            all == entries_view(entries@),
            i <= n,
            out@ == start + entries_text(all.subrange(0, i as int)),
        decreases n - i,
    {
        proof {
            reveal_strlit(",");
            reveal_strlit("=");
        }
        if i > 0 {
            out.append(",");
        }
        let ghost mid = out@;
        let entry = &entries[i];
        assert(all[i as int] == (entry.0@, entry.1@));
        out.append(entry.0.as_str());
        out.append("=");
        let ghost head = out@;
        assert(head =~= mid + entry.0@ + seq!['=']);
        match &entry.1 {
            Value::Text(s) => {
                out.append(s.as_str());
                assert(out@ =~= head + s@);
            },
            Value::Integer(v) => push_int(out, *v),
            Value::Decimal(v) => push_fixed4(out, *v),
        }
        assert(out@ =~= mid + entry_text(all[i as int]));
        proof {
            let pre = all.subrange(0, i as int);
            let post = all.subrange(0, i + 1);
            assert(post.drop_last() =~= pre);
            assert(post.last() == all[i as int]);
            if i == 0 {
                assert(mid == start);
                assert(entries_text(pre) =~= seq![]);
                assert(entries_text(post) == entry_text(post[0]));
            } else {
                assert(mid =~= start + entries_text(pre) + seq![',']);
            }
        }
        i = i + 1;
        assert(out@ =~= start + entries_text(all.subrange(0, i as int)));
    }
    assert(all.subrange(0, n as int) =~= all);
}

impl Measurement {
    /// A measurement with no tags and no fields, taken at `timestamp`.
    pub fn at(name: &str, timestamp: i64) -> (r: Measurement)
        ensures
            r@.name == name@,
            r@.fields.len() == 0,
            r@.tags.len() == 0,
            r@.timestamp == timestamp,
    {
        Measurement {
            measurement: String::from_str(name),
            fields: Vec::new(),
            tags: Vec::new(),
            timestamp,
        }
    }

    /// A measurement with no tags and no fields, stamped with the current
    /// time.
    pub fn new(name: &str) -> (r: Measurement)
        ensures
            r@.name == name@,
            r@.fields.len() == 0,
            r@.tags.len() == 0,
    {
        Measurement::at(name, current_timestamp())
    }

    /// Tags and fields are each sorted by key.
    pub open spec fn wf(&self) -> bool {
        sorted_by_key(self@.fields) && sorted_by_key(self@.tags)
    }

    /// The measurement with field `name` set to `value`.
    pub fn field(self, name: &str, value: Value) -> (r: Measurement)
        requires
            self.wf(),
        ensures
            r.wf(),
            put_entry(self@.fields, r@.fields, name@, value@),
            r@.tags == self@.tags,
            r@.name == self@.name,
            r@.timestamp == self@.timestamp,
    {
        let mut m = self;
        put(&mut m.fields, name, value);
        m
    }

    /// The measurement with tag `name` set to `value`.
    pub fn tag(self, name: &str, value: Value) -> (r: Measurement)
        requires
            self.wf(),
        ensures
            r.wf(),
            put_entry(self@.tags, r@.tags, name@, value@),
            r@.fields == self@.fields,
            r@.name == self@.name,
            r@.timestamp == self@.timestamp,
    {
        let mut m = self;
        put(&mut m.tags, name, value);
        m
    }

    /// The console line, given the calendar text of the timestamp.
    pub fn render_with_clock(&self, clock: &str) -> (r: String)
        ensures
            r@ == line_text(self@, clock@),
    {
        proof {
            reveal_strlit(" ");
        }
        let mut out = String::from_str(self.measurement.as_str());
        out.append(" ");
        out.append(clock);
        out.append(" ");
        if self.tags.len() > 0 {
            push_entries(&mut out, &self.tags);
            out.append(" ");
        }
        push_entries(&mut out, &self.fields);
        assert(out@ =~= line_text(self@, clock@));
        out
    }

    /// The console line: `name time tags fields`, with the time as
    /// `YYYY-MM-DD HH:MM:SS.ffffff` in UTC.
    pub fn render(&self) -> (r: String)
        ensures
            r@ == line_text(self@, timestamp_text(self.timestamp as int)),
    {
        let clock = format_timestamp(self.timestamp);
        self.render_with_clock(clock.as_str())
    }

    /// A copy of the measurement.
    pub fn duplicate(&self) -> (r: Measurement)
        ensures
            r@ == self@,
    {
        let mut fields: Vec<(String, Value)> = Vec::new();
        let mut tags: Vec<(String, Value)> = Vec::new();
        copy_entries(&self.fields, &mut fields);
        copy_entries(&self.tags, &mut tags);
        Measurement {
            measurement: self.measurement.clone(),
            fields,
            tags,
            timestamp: self.timestamp,
        }
    }
}

fn copy_entries(src: &Vec<(String, Value)>, dst: &mut Vec<(String, Value)>)
    requires
        old(dst)@.len() == 0,
    ensures
        entries_view(final(dst)@) == entries_view(src@),
{
    let n = src.len();
    let mut i: usize = 0;
    while i < n
        invariant
            n == src@.len(),
            i <= n,
            dst@.len() == i,
            entries_view(dst@) == entries_view(src@).subrange(0, i as int),
        decreases n - i,
    {
        let k = src[i].0.clone();
        let v = src[i].1.duplicate();
        let ghost prev = dst@;
        dst.push((k, v));
        assert(dst@ == prev.push((k, v)));
        assert(entries_view(dst@)[i as int] == entries_view(src@)[i as int]);
        i = i + 1;
        assert(entries_view(dst@) =~= entries_view(src@).subrange(0, i as int));
    }
    assert(entries_view(dst@) =~= entries_view(src@));
}

} // verus!
