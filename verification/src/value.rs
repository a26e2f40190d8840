use vstd::prelude::*;

use crate::strutil::str_eq;

verus! {

/// A script-engine value as the host reads it: the model every decoder in
/// this crate works on. Numbers carry the bit pattern of the 32-bit float
/// the host ultimately stores; the decoders only move them, never compute
/// with them. `Other` stands for any value kind the binding layer never
/// interprets (functions, userdata, error values): present, but never
/// type-compatible with a declared field.
#[derive(Debug, PartialEq, Eq)]
pub enum LuaValue {
    Nil,
    Boolean(bool),
    Number(u32),
    Text(String),
    Table(LuaTable),
    Other,
}

/// A script table restricted to what the binding layer reads: string keys,
/// each mapped to a value. Entry order is the iteration order; a read by
/// key sees the first entry with that key.
#[derive(Debug, PartialEq, Eq)]
pub struct LuaTable {
    pub entries: Vec<(String, LuaValue)>,
}

/// The mathematical reading of a script value: strings as character
/// sequences, tables as sequences of key/value pairs.
pub enum SpecValue {
    Nil,
    Boolean(bool),
    Number(u32),
    Text(Seq<char>),
    Table(Seq<(Seq<char>, SpecValue)>),
    Other,
}

impl LuaValue {
    /// The mathematical reading of this value.
    pub open spec fn model(self) -> SpecValue
        decreases self,
    {
        match self {
            LuaValue::Nil => SpecValue::Nil,
            LuaValue::Boolean(b) => SpecValue::Boolean(b),
            LuaValue::Number(n) => SpecValue::Number(n),
            LuaValue::Text(s) => SpecValue::Text(s@),
            LuaValue::Table(t) => SpecValue::Table(entries_model(t.entries@)),
            LuaValue::Other => SpecValue::Other,
        }
    }
}

/// The mathematical reading of a table's entry list, pair by pair.
pub open spec fn entries_model(s: Seq<(String, LuaValue)>) -> Seq<(Seq<char>, SpecValue)>
    decreases s,
{
    if s.len() == 0 {
        Seq::empty()
    } else {
        seq![(s[0].0@, s[0].1.model())] + entries_model(s.skip(1))
    }
}

/// `entries_model` keeps the length.
pub broadcast proof fn lemma_entries_model_len(s: Seq<(String, LuaValue)>)
    ensures
        (#[trigger] entries_model(s)).len() == s.len(),
    decreases s.len(),
{
    if s.len() != 0 {
        lemma_entries_model_len(s.skip(1));
    }
}

/// `entries_model` reads each pair in place.
pub broadcast proof fn lemma_entries_model_index(s: Seq<(String, LuaValue)>, i: int)
    requires
        0 <= i < s.len(),
    ensures
        #[trigger] entries_model(s)[i] == (s[i].0@, s[i].1.model()),
    decreases s.len(),
{
    lemma_entries_model_len(s);
    if i == 0 {
    } else {
        lemma_entries_model_len(s.skip(1));
        lemma_entries_model_index(s.skip(1), i - 1);
        assert(s.skip(1)[i - 1] == s[i]);
    }
}

impl View for LuaValue {
    type V = SpecValue;

    open spec fn view(&self) -> SpecValue {
        self.model()
    }
}

impl LuaTable {
    /// The mathematical reading of this table's entries.
    pub open spec fn model(self) -> Seq<(Seq<char>, SpecValue)> {
        entries_model(self.entries@)
    }
}

impl View for LuaTable {
    type V = Seq<(Seq<char>, SpecValue)>;

    open spec fn view(&self) -> Seq<(Seq<char>, SpecValue)> {
        self.model()
    }
}

/// First pair of `entries` whose key is `key`, if any: what reading a field
/// by name yields.
pub open spec fn lookup(entries: Seq<(Seq<char>, SpecValue)>, key: Seq<char>) -> Option<SpecValue>
    decreases entries.len(),
{
    if entries.len() == 0 {
        None
    } else if entries[0].0 == key {
        Some(entries[0].1)
    } else {
        lookup(entries.skip(1), key)
    }
}

impl Clone for LuaValue {
    /// A clone reads as the very same value.
    fn clone(&self) -> (r: LuaValue)
        ensures
            r@ == self@,
        decreases *self,
    {
        match self {
            LuaValue::Nil => LuaValue::Nil,
            LuaValue::Boolean(b) => LuaValue::Boolean(*b),
            LuaValue::Number(n) => LuaValue::Number(*n),
            LuaValue::Text(s) => LuaValue::Text(s.clone()),
            LuaValue::Table(t) => LuaValue::Table(t.clone()),
            LuaValue::Other => LuaValue::Other,
        }
    }
}

impl Clone for LuaTable {
    /// A clone reads as the very same table.
    fn clone(&self) -> (r: LuaTable)
        ensures
            r@ == self@,
        decreases *self,
    {
        broadcast use lemma_entries_model_len, lemma_entries_model_index;

        let n = self.entries.len();
        let mut entries: Vec<(String, LuaValue)> = Vec::new();
        let mut i: usize = 0;
        while i < n
            invariant
                0 <= i <= n,
                n == self.entries@.len(),
                entries@.len() == i,
                forall|j: int| 0 <= j < i ==> #[trigger] entries@[j].0@ == self.entries@[j].0@
                    && entries@[j].1@ == self.entries@[j].1@,
            decreases n - i,
        {
            let key = self.entries[i].0.clone();
            let val = self.entries[i].1.clone();
            entries.push((key, val));
            i = i + 1;
        }
        let r = LuaTable { entries };
        proof {
            assert(r@ =~= self@);
        }
        r
    }
}

impl LuaTable {
    /// The empty table.
    pub fn new() -> (t: LuaTable)
        ensures
            t@ == Seq::<(Seq<char>, SpecValue)>::empty(),
    {
        broadcast use lemma_entries_model_len, lemma_entries_model_index;

        let t = LuaTable { entries: Vec::new() };
        proof {
            assert(t@ =~= Seq::<(Seq<char>, SpecValue)>::empty());
        }
        t
    }

    /// Append one entry at the end; a read still sees the first entry
    /// under each key, as `lookup` says.
    pub fn push(&mut self, key: String, value: LuaValue)
        ensures
            final(self)@ == old(self)@.push((key@, value@)),
    {
        broadcast use lemma_entries_model_len, lemma_entries_model_index;

        self.entries.push((key, value));
        proof {
            assert(self@ =~= old(self)@.push((key@, value@)));
        }
    }

    /// Read a field by name.
    pub fn get(&self, key: &str) -> (r: Option<&LuaValue>)
        ensures
            match r {
                Some(v) => lookup(self@, key@) == Some(v@),
                None => lookup(self@, key@) is None,
            },
    {
        broadcast use lemma_entries_model_len, lemma_entries_model_index;

        let n = self.entries.len();
        let mut i: usize = 0;
        proof {
            assert(self@.skip(0) =~= self@);
        }
        while i < n
            invariant
                0 <= i <= n,
                n == self.entries@.len(),
                self@.len() == n,
                lookup(self@.skip(i as int), key@) == lookup(self@, key@),
            decreases n - i,
        {
            proof {
                lemma_entries_model_len(self.entries@);
                lemma_entries_model_index(self.entries@, i as int);
                assert(self@.skip(i as int)[0] == self@[i as int]);
            }
            if str_eq(self.entries[i].0.as_str(), key) {
                return Some(&self.entries[i].1);
            }
            proof {
                assert(self@.skip(i as int).skip(1) =~= self@.skip(i as int + 1));
            }
            i = i + 1;
        }
        proof {
            assert(self@.skip(n as int) =~= Seq::<(Seq<char>, SpecValue)>::empty());
        }
        None
    }
}

} // verus!
