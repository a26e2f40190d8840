use vstd::prelude::*;

use crate::binding::{Binding, Decoded, DecodeError, SpecFieldValue, SpecDecodeError, spec_decode,
    spec_strict_error};
use crate::value::{LuaValue, LuaTable, SpecValue, lookup, lemma_entries_model_len,
    lemma_entries_model_index};

verus! {

/// A typed array projection over a script table shaped `{count, data}`.
/// `count` is the table's own declared size and is advisory only: iteration
/// is driven by the actual entries of `data`, never by `count`. It carries
/// the numeric payload as read (the 32-bit pattern), uninterpreted.
#[derive(Debug, PartialEq, Eq)]
pub struct LuaArray {
    pub count: u32,
    pub data: LuaTable,
}

/// What projecting `{count, data}` out of a script value yields: the two
/// fields read strictly, or the first failure.
pub open spec fn spec_array(v: SpecValue) -> Result<(u32, Seq<(Seq<char>, SpecValue)>), SpecDecodeError> {
    match v {
        SpecValue::Table(es) => match lookup(es, "count"@) {
            Some(SpecValue::Number(n)) => match lookup(es, "data"@) {
                Some(SpecValue::Table(des)) => Ok((n, des)),
                other => Err(spec_strict_error(other, "data"@)),
            },
            other => Err(spec_strict_error(other, "count"@)),
        },
        _ => Err(SpecDecodeError::NotATable),
    }
}

impl LuaArray {
    /// Read the projection out of a script value, strictly.
    pub fn from_lua(v: &LuaValue) -> (r: Result<LuaArray, DecodeError>)
        ensures
            match r {
                Ok(arr) => spec_array(v@) == Ok::<(u32, Seq<(Seq<char>, SpecValue)>), SpecDecodeError>(
                    (arr.count, arr.data@),
                ),
                Err(e) => spec_array(v@) == Err::<(u32, Seq<(Seq<char>, SpecValue)>), SpecDecodeError>(
                    e@,
                ),
            },
    {
        let t = match v {
            LuaValue::Table(t) => t,
            _ => {
                return Err(DecodeError::NotATable);
            },
        };
        let count = match t.get("count") {
            Some(LuaValue::Number(n)) => *n,
            Some(LuaValue::Nil) | None => {
                return Err(DecodeError::Missing("count".to_owned()));
            },
            Some(_) => {
                return Err(DecodeError::Mismatch("count".to_owned()));
            },
        };
        let data = match t.get("data") {
            Some(LuaValue::Table(d)) => d.clone(),
            Some(LuaValue::Nil) | None => {
                return Err(DecodeError::Missing("data".to_owned()));
            },
            Some(_) => {
                return Err(DecodeError::Mismatch("data".to_owned()));
            },
        };
        Ok(LuaArray { count, data })
    }

    /// Iterate the backing `data` table: one (key, decoded element) pair per
    /// actual entry, in entry order, each element decoded through `b` on its
    /// own — a failing element is reported in place, it does not stop the
    /// others. The sequence covers every actual entry whatever the declared
    /// `count` says; it is produced afresh on every call from the same
    /// backing table.
    pub fn iter(&self, b: &Binding) -> (out: Vec<(String, Result<Decoded, DecodeError>)>)
        ensures
            out@.len() == self.data@.len(),
            forall|i: int| 0 <= i < out@.len() ==> (#[trigger] out@[i]).0@ == self.data@[i].0
                && (match out@[i].1 {
                    Ok(d) => spec_decode(*b, self.data@[i].1) == Ok::<
                        Seq<(Seq<char>, SpecFieldValue)>,
                        SpecDecodeError,
                    >(d@),
                    Err(e) => spec_decode(*b, self.data@[i].1) == Err::<
                        Seq<(Seq<char>, SpecFieldValue)>,
                        SpecDecodeError,
                    >(e@),
                }),
    {
        let n = self.data.entries.len();
        let mut out: Vec<(String, Result<Decoded, DecodeError>)> = Vec::new();
        let mut i: usize = 0;
        proof {
            lemma_entries_model_len(self.data.entries@);
        }
        while i < n
            invariant
                0 <= i <= n,
                n == self.data.entries@.len(),
                self.data@.len() == n,
                out@.len() == i,
                forall|j: int| 0 <= j < i ==> (#[trigger] out@[j]).0@ == self.data@[j].0
                    && (match out@[j].1 {
                        Ok(d) => spec_decode(*b, self.data@[j].1) == Ok::<
                            Seq<(Seq<char>, SpecFieldValue)>,
                            SpecDecodeError,
                        >(d@),
                        Err(e) => spec_decode(*b, self.data@[j].1) == Err::<
                            Seq<(Seq<char>, SpecFieldValue)>,
                            SpecDecodeError,
                        >(e@),
                    }),
            decreases n - i,
        {
            proof {
                lemma_entries_model_index(self.data.entries@, i as int);
            }
            let key = self.data.entries[i].0.clone();
            let element = b.decode(&self.data.entries[i].1);
            out.push((key, element));
            i = i + 1;
        }
        out
    }
}

} // verus!
