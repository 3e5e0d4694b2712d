//! The record parser: a record `k1=v1 k2=v2 ...` read into a map from key
//! to raw (still escaped) value, and the typed update of a field from such
//! a map.
use crate::text::{pieces, same_text, split, views, Separator};
use crate::text::{i64_of, parse_i64, parse_u64, signed_text_value, unsigned_text_value};
use vstd::prelude::*;

verus! {

/// The key and the value of one field `key=value`, split at its first `=`;
/// none where the field holds no `=`.
pub open spec fn key_value(t: Seq<char>) -> Option<(Seq<char>, Seq<char>)>
    decreases t.len(),
{
    if t.len() == 0 {
        None
    } else if t[0] == '=' {
        Some((Seq::empty(), t.skip(1)))
    } else {
        match key_value(t.skip(1)) {
            Some((k, v)) => Some((seq![t[0]] + k, v)),
            None => None,
        }
    }
}

/// The map of a sequence of fields: the fields without `=` are left out,
/// and a later field overwrites an earlier one with the same key.
pub open spec fn fields_map(ts: Seq<Seq<char>>) -> Map<Seq<char>, Seq<char>>
    decreases ts.len(),
{
    if ts.len() == 0 {
        Map::empty()
    } else {
        let m = fields_map(ts.drop_last());
        match key_value(ts.last()) {
            Some((k, v)) => m.insert(k, v),
            None => m,
        }
    }
}

/// The map of a record: its fields are the pieces between whitespace.
pub open spec fn record_map(s: Seq<char>) -> Map<Seq<char>, Seq<char>> {
    fields_map(pieces(s, Separator::Space))
}

/// The empty record gives the empty map.
pub proof fn lemma_record_map_empty()
    ensures
        record_map(Seq::empty()) == Map::<Seq<char>, Seq<char>>::empty(),
{
    let ts = pieces(Seq::<char>::empty(), Separator::Space);
    assert(ts == seq![Seq::<char>::empty()]);
    assert(ts.drop_last() =~= Seq::<Seq<char>>::empty());
    assert(fields_map(ts.drop_last()) == Map::<Seq<char>, Seq<char>>::empty());
    assert(key_value(ts.last()) is None);
}

/// The map of a sequence of entries, a later entry overwriting an earlier
/// one with the same key.
pub open spec fn entries_map(es: Seq<(String, String)>) -> Map<Seq<char>, Seq<char>>
    decreases es.len(),
{
    if es.len() == 0 {
        Map::empty()
    } else {
        entries_map(es.drop_last()).insert(es.last().0@, es.last().1@)
    }
}

pub open spec fn keys_unique(es: Seq<(String, String)>) -> bool {
    forall|i: int, j: int| 0 <= i < j < es.len() ==> es[i].0@ != es[j].0@
}

proof fn lemma_entries_map(es: Seq<(String, String)>, k: Seq<char>)
    requires
        keys_unique(es),
    ensures
        entries_map(es).contains_key(k) <==> exists|i: int| 0 <= i < es.len() && es[i].0@ == k,
        forall|i: int| 0 <= i < es.len() && es[i].0@ == k ==> entries_map(es)[k] == es[i].1@,
    decreases es.len(),
{
    if es.len() > 0 {
        let init = es.drop_last();
        assert(keys_unique(init));
        lemma_entries_map(init, k);
        if entries_map(es).contains_key(k) && es.last().0@ != k {
            let i = choose|i: int| 0 <= i < init.len() && init[i].0@ == k;
            assert(es[i].0@ == k);
        }
        assert forall|i: int| 0 <= i < es.len() && es[i].0@ == k implies entries_map(es)[k]
            == es[i].1@ by {
            if i < es.len() - 1 {
                assert(init[i].0@ == k);
            }
        }
        assert forall|i: int| 0 <= i < es.len() && es[i].0@ == k implies entries_map(
            es,
        ).contains_key(k) by {
            if i < es.len() - 1 {
                assert(init[i].0@ == k);
            }
        }
    }
}

proof fn lemma_entries_map_update(es: Seq<(String, String)>, j: int, e: (String, String))
    requires
        keys_unique(es),
        0 <= j < es.len(),
        es[j].0@ == e.0@,
    ensures
        keys_unique(es.update(j, e)),
        entries_map(es.update(j, e)) == entries_map(es).insert(e.0@, e.1@),
{
    let fs = es.update(j, e);
    assert(keys_unique(fs));
    assert forall|k: Seq<char>| #[trigger]
        entries_map(fs).contains_key(k) == entries_map(es).insert(e.0@, e.1@).contains_key(k) by {
        lemma_entries_map(es, k);
        lemma_entries_map(fs, k);
        if entries_map(fs).contains_key(k) {
            let i = choose|i: int| 0 <= i < fs.len() && fs[i].0@ == k;
            if i != j {
                assert(es[i].0@ == k);
            }
        }
        if entries_map(es).contains_key(k) {
            let i = choose|i: int| 0 <= i < es.len() && es[i].0@ == k;
            assert(fs[i].0@ == k);
        }
        if k == e.0@ {
            assert(fs[j].0@ == k);
        }
    }
    assert forall|k: Seq<char>| #[trigger] entries_map(fs).contains_key(k) implies entries_map(
        fs,
    )[k] == entries_map(es).insert(e.0@, e.1@)[k] by {
        lemma_entries_map(es, k);
        lemma_entries_map(fs, k);
        let i = choose|i: int| 0 <= i < fs.len() && fs[i].0@ == k;
        if i != j {
            assert(es[i].0@ == k);
        }
    }
    assert(entries_map(fs) =~= entries_map(es).insert(e.0@, e.1@));
}

/// A map from key to raw value, as a record of the wire format gives it.
/// Each key stands in it once.
#[derive(Debug)]
pub struct StringMap {
    entries: Vec<(String, String)>,
}

impl View for StringMap {
    type V = Map<Seq<char>, Seq<char>>;

    closed spec fn view(&self) -> Map<Seq<char>, Seq<char>> {
        entries_map(self.entries@)
    }
}

impl StringMap {
    #[verifier::type_invariant]
    spec fn inv(&self) -> bool {
        keys_unique(self.entries@)
    }

    /// An empty map.
    pub fn new() -> (r: StringMap)
        ensures
            r@ == Map::<Seq<char>, Seq<char>>::empty(),
    {
        StringMap { entries: Vec::new() }
    }

    /// The number of keys.
    pub fn len(&self) -> (r: usize)
        ensures
            r == self@.len(),
    {
        proof {
            use_type_invariant(self);
            self.lemma_len();
        }
        self.entries.len()
    }

    proof fn lemma_len(&self)
        requires
            keys_unique(self.entries@),
        ensures
            self@.len() == self.entries@.len(),
            self@.dom().finite(),
    {
        lemma_entries_map_len(self.entries@);
    }

    /// Whether the map holds no key.
    pub fn is_empty(&self) -> (r: bool)
        ensures
            r == (self@ == Map::<Seq<char>, Seq<char>>::empty()),
    {
        proof {
            use_type_invariant(self);
            self.lemma_len();
            if self.entries@.len() > 0 {
                lemma_entries_map(self.entries@, self.entries@[0].0@);
                assert(self@.contains_key(self.entries@[0].0@));
            } else {
                assert(self@ =~= Map::<Seq<char>, Seq<char>>::empty());
            }
        }
        self.entries.len() == 0
    }

    /// The position of `key` among the entries.
    fn find(&self, key: &str) -> (r: Option<usize>)
        ensures
            match r {
                Some(i) => i < self.entries@.len() && self.entries@[i as int].0@ == key@,
                None => forall|i: int|
                    0 <= i < self.entries@.len() ==> self.entries@[i].0@ != key@,
            },
    {
        let mut i: usize = 0;
        while i < self.entries.len()
            invariant
                i <= self.entries@.len(),
                forall|j: int| 0 <= j < i ==> self.entries@[j].0@ != key@,
            decreases self.entries@.len() - i,
        {
            if same_text(self.entries[i].0.as_str(), key) {
                return Some(i);
            }
            i = i + 1;
        }
        None
    }

    /// The raw value of `key`, if the map holds it.
    pub fn get(&self, key: &str) -> (r: Option<&String>)
        ensures
            r is Some <==> self@.contains_key(key@),
            r matches Some(v) ==> v@ == self@[key@],
    {
        proof {
            use_type_invariant(self);
            lemma_entries_map(self.entries@, key@);
        }
        match self.find(key) {
            Some(i) => Some(&self.entries[i].1),
            None => None,
        }
    }

    /// Sets the raw value of `key`, in place of the one that it had.
    pub fn insert(&mut self, key: String, value: String)
        ensures
            final(self)@ == old(self)@.insert(key@, value@),
    {
        proof {
            use_type_invariant(&*self);
        }
        let found = self.find(key.as_str());
        let mut es: Vec<(String, String)> = Vec::new();
        std::mem::swap(&mut es, &mut self.entries);
        let ghost before = es@;
        match found {
            Some(i) => {
                let ghost e = (key, value);
                proof {
                    lemma_entries_map_update(before, i as int, e);
                }
                es.set(i, (key, value));
                assert(es@ == before.update(i as int, e));
            },
            None => {
                es.push((key, value));
                assert(es@.drop_last() =~= before);
            },
        }
        self.entries = es;
    }
}

proof fn lemma_entries_map_len(es: Seq<(String, String)>)
    requires
        keys_unique(es),
    ensures
        entries_map(es).len() == es.len(),
        entries_map(es).dom().finite(),
    decreases es.len(),
{
    if es.len() > 0 {
        let init = es.drop_last();
        assert(keys_unique(init));
        lemma_entries_map_len(init);
        lemma_entries_map(init, es.last().0@);
        if entries_map(init).contains_key(es.last().0@) {
            let i = choose|i: int| 0 <= i < init.len() && init[i].0@ == es.last().0@;
            assert(es[i].0@ == es[es.len() - 1].0@);
        }
    }
}

proof fn lemma_key_value_at(t: Seq<char>, j: int)
    requires
        0 <= j <= t.len(),
        forall|i: int| 0 <= i < j ==> t[i] != '=',
    ensures
        j < t.len() && t[j] == '=' ==> key_value(t) == Some((t.take(j), t.skip(j + 1))),
        j == t.len() ==> key_value(t) is None,
    decreases j,
{
    if j > 0 {
        let r = t.skip(1);
        assert forall|i: int| 0 <= i < j - 1 implies r[i] != '=' by {
            assert(r[i] == t[i + 1]);
        }
        lemma_key_value_at(r, j - 1);
        if j < t.len() && t[j] == '=' {
            assert(seq![t[0]] + r.take(j - 1) =~= t.take(j));
            assert(r.skip(j) =~= t.skip(j + 1));
        }
    } else if t.len() > 0 && t[0] == '=' {
        assert(t.take(0) =~= Seq::<char>::empty());
    }
}

/// Splits one field at its first `=`.
pub fn split_field(t: &str) -> (r: Option<(String, String)>)
    ensures
        match r {
            Some((k, v)) => key_value(t@) == Some((k@, v@)),
            None => key_value(t@) is None,
        },
{
    let n = t.unicode_len();
    let mut j: usize = 0;
    while j < n && t.get_char(j) != '='
        invariant
            n == t@.len(),
            j <= n,
            forall|i: int| 0 <= i < j ==> t@[i] != '=',
        decreases n - j,
    {
        j = j + 1;
    }
    proof {
        lemma_key_value_at(t@, j as int);
    }
    if j == n {
        None
    } else {
        let k = String::from_str(t.substring_char(0, j));
        let v = String::from_str(t.substring_char(j + 1, n));
        assert(t@.subrange(0, j as int) =~= t@.take(j as int));
        assert(t@.subrange(j + 1, n as int) =~= t@.skip(j + 1));
        Some((k, v))
    }
}

/// Reads a record `k1=v1 k2=v2 ...` into a map from key to raw value. The
/// record is split at every whitespace character, each field at its first
/// `=`; fields without `=` are left out, and of two fields with the same key
/// the later one stands.
pub fn to_map(s: &str) -> (r: StringMap)
    ensures
        r@ == record_map(s@),
{
    let fields = split(s, Separator::Space);
    let ghost ts = views(fields@);
    let mut map = StringMap::new();
    let mut i: usize = 0;
    assert(ts.take(0) =~= Seq::<Seq<char>>::empty());
    while i < fields.len()
        invariant
            ts == views(fields@),
            ts == pieces(s@, Separator::Space),
            i <= fields@.len(),
            map@ == fields_map(ts.take(i as int)),
        decreases fields@.len() - i,
    {
        assert(ts.take(i + 1).drop_last() =~= ts.take(i as int));
        assert(ts.take(i + 1).last() == fields@[i as int]@);
        match split_field(fields[i].as_str()) {
            Some((k, v)) => map.insert(k, v),
            None => {},
        }
        i = i + 1;
    }
    assert(ts.take(fields@.len() as int) =~= ts);
    map
}

/// A type that a field of an entity has, read from the raw value of a
/// record.
pub trait MapField: Sized + View {
    /// Whether `raw` reads as a value of the type.
    spec fn reads(raw: Seq<char>) -> bool;

    /// The view of the value that `raw` reads as.
    spec fn read_value(raw: Seq<char>) -> Self::V;

    fn read_field(raw: &str) -> (r: Option<Self>)
        ensures
            r is Some <==> Self::reads(raw@),
            r matches Some(v) ==> v@ == Self::read_value(raw@),
    ;
}

impl MapField for i64 {
    open spec fn reads(raw: Seq<char>) -> bool {
        i64_of(raw) is Some
    }

    open spec fn read_value(raw: Seq<char>) -> i64 {
        i64_of(raw)->0
    }

    fn read_field(raw: &str) -> (r: Option<i64>) {
        parse_i64(raw)
    }
}

/// The integer that `raw` writes, where it lies in `lo..=hi`: what
/// `str::parse` gives for a signed integer type of that range.
pub open spec fn signed_in(raw: Seq<char>, lo: int, hi: int) -> Option<int> {
    match signed_text_value(raw) {
        Some(v) => if lo <= v <= hi {
            Some(v)
        } else {
            None
        },
        None => None,
    }
}

/// The number that `raw` writes, where it is at most `hi`: what
/// `str::parse` gives for an unsigned integer type of that range.
pub open spec fn unsigned_in(raw: Seq<char>, hi: int) -> Option<int> {
    match unsigned_text_value(raw) {
        Some(v) => if v <= hi {
            Some(v as int)
        } else {
            None
        },
        None => None,
    }
}

impl MapField for i8 {
    open spec fn reads(raw: Seq<char>) -> bool {
        signed_in(raw, i8::MIN as int, i8::MAX as int) is Some
    }

    open spec fn read_value(raw: Seq<char>) -> i8 {
        signed_in(raw, i8::MIN as int, i8::MAX as int)->0 as i8
    }

    fn read_field(raw: &str) -> (r: Option<i8>) {
        match parse_i64(raw) {
            Some(v) => if i8::MIN as i64 <= v && v <= i8::MAX as i64 {
                Some(v as i8)
            } else {
                None
            },
            None => None,
        }
    }
}

impl MapField for i16 {
    open spec fn reads(raw: Seq<char>) -> bool {
        signed_in(raw, i16::MIN as int, i16::MAX as int) is Some
    }

    open spec fn read_value(raw: Seq<char>) -> i16 {
        signed_in(raw, i16::MIN as int, i16::MAX as int)->0 as i16
    }

    fn read_field(raw: &str) -> (r: Option<i16>) {
        match parse_i64(raw) {
            Some(v) => if i16::MIN as i64 <= v && v <= i16::MAX as i64 {
                Some(v as i16)
            } else {
                None
            },
            None => None,
        }
    }
}

impl MapField for i32 {
    open spec fn reads(raw: Seq<char>) -> bool {
        signed_in(raw, i32::MIN as int, i32::MAX as int) is Some
    }

    open spec fn read_value(raw: Seq<char>) -> i32 {
        signed_in(raw, i32::MIN as int, i32::MAX as int)->0 as i32
    }

    fn read_field(raw: &str) -> (r: Option<i32>) {
        match parse_i64(raw) {
            Some(v) => if i32::MIN as i64 <= v && v <= i32::MAX as i64 {
                Some(v as i32)
            } else {
                None
            },
            None => None,
        }
    }
}

impl MapField for isize {
    open spec fn reads(raw: Seq<char>) -> bool {
        signed_in(raw, isize::MIN as int, isize::MAX as int) is Some
    }

    open spec fn read_value(raw: Seq<char>) -> isize {
        signed_in(raw, isize::MIN as int, isize::MAX as int)->0 as isize
    }

    fn read_field(raw: &str) -> (r: Option<isize>) {
        match parse_i64(raw) {
            Some(v) => if isize::MIN as i64 <= v && v <= isize::MAX as i64 {
                Some(v as isize)
            } else {
                None
            },
            None => None,
        }
    }
}

impl MapField for u8 {
    open spec fn reads(raw: Seq<char>) -> bool {
        unsigned_in(raw, u8::MAX as int) is Some
    }

    open spec fn read_value(raw: Seq<char>) -> u8 {
        unsigned_in(raw, u8::MAX as int)->0 as u8
    }

    fn read_field(raw: &str) -> (r: Option<u8>) {
        match parse_u64(raw) {
            Some(v) => if v <= u8::MAX as u64 {
                Some(v as u8)
            } else {
                None
            },
            None => None,
        }
    }
}

impl MapField for u16 {
    open spec fn reads(raw: Seq<char>) -> bool {
        unsigned_in(raw, u16::MAX as int) is Some
    }

    open spec fn read_value(raw: Seq<char>) -> u16 {
        unsigned_in(raw, u16::MAX as int)->0 as u16
    }

    fn read_field(raw: &str) -> (r: Option<u16>) {
        match parse_u64(raw) {
            Some(v) => if v <= u16::MAX as u64 {
                Some(v as u16)
            } else {
                None
            },
            None => None,
        }
    }
}

impl MapField for u32 {
    open spec fn reads(raw: Seq<char>) -> bool {
        unsigned_in(raw, u32::MAX as int) is Some
    }

    open spec fn read_value(raw: Seq<char>) -> u32 {
        unsigned_in(raw, u32::MAX as int)->0 as u32
    }

    fn read_field(raw: &str) -> (r: Option<u32>) {
        match parse_u64(raw) {
            Some(v) => if v <= u32::MAX as u64 {
                Some(v as u32)
            } else {
                None
            },
            None => None,
        }
    }
}

impl MapField for u64 {
    open spec fn reads(raw: Seq<char>) -> bool {
        unsigned_in(raw, u64::MAX as int) is Some
    }

    open spec fn read_value(raw: Seq<char>) -> u64 {
        unsigned_in(raw, u64::MAX as int)->0 as u64
    }

    fn read_field(raw: &str) -> (r: Option<u64>) {
        match parse_u64(raw) {
            Some(v) => if v <= u64::MAX as u64 {
                Some(v as u64)
            } else {
                None
            },
            None => None,
        }
    }
}

impl MapField for usize {
    open spec fn reads(raw: Seq<char>) -> bool {
        unsigned_in(raw, usize::MAX as int) is Some
    }

    open spec fn read_value(raw: Seq<char>) -> usize {
        unsigned_in(raw, usize::MAX as int)->0 as usize
    }

    fn read_field(raw: &str) -> (r: Option<usize>) {
        match parse_u64(raw) {
            Some(v) => if v <= usize::MAX as u64 {
                Some(v as usize)
            } else {
                None
            },
            None => None,
        }
    }
}

impl MapField for String {
    open spec fn reads(raw: Seq<char>) -> bool {
        true
    }

    open spec fn read_value(raw: Seq<char>) -> Seq<char> {
        raw
    }

    fn read_field(raw: &str) -> (r: Option<String>) {
        Some(String::from_str(raw))
    }
}

/// Whether `map` holds `key` with a raw value that reads as a `T`.
pub open spec fn updates<T: MapField>(map: Map<Seq<char>, Seq<char>>, key: Seq<char>) -> bool {
    map.contains_key(key) && T::reads(map[key])
}

/// Overwrites `value` with the raw value of `key` in `map`, read as a `T`.
/// Where `map` does not hold `key`, or its raw value does not read as a
/// `T`, `value` stays as it was.
pub fn update_from_map<T: MapField>(map: &StringMap, key: &str, value: &mut T)
    ensures
        updates::<T>(map@, key@) ==> final(value)@ == T::read_value(map@[key@]),
        !updates::<T>(map@, key@) ==> *final(value) == *old(value),
{
    match map.get(key) {
        Some(raw) => match T::read_field(raw.as_str()) {
            Some(v) => {
                *value = v;
            },
            None => {},
        },
        None => {},
    }
}

} // verus!
