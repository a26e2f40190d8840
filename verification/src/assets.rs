use vstd::prelude::*;

use crate::binding::{DecodeError, SpecDecodeError};
use crate::components::{spec_table_field, spec_text_field};
use crate::strutil::str_eq;
use crate::value::{LuaValue, LuaTable, SpecValue, lemma_entries_model_len,
    lemma_entries_model_index};

verus! {

/// First value under `key`, if any: what a storage read yields.
pub open spec fn storage_lookup<T>(entries: Seq<(Seq<char>, T)>, key: Seq<char>) -> Option<T>
    decreases entries.len(),
{
    if entries.len() == 0 {
        None
    } else if entries[0].0 == key {
        Some(entries[0].1)
    } else {
        storage_lookup(entries.skip(1), key)
    }
}

/// A name-keyed store of loaded assets. An `add` under a name already taken
/// is ignored — the first load wins — so reads always see the value stored
/// first under their key.
pub struct AssetStorage<T> {
    entries: Vec<(String, T)>,
}

impl<T> AssetStorage<T> {
    /// The stored pairs, in the order they were accepted.
    pub closed spec fn spec_entries(self) -> Seq<(Seq<char>, T)> {
        Seq::new(self.entries@.len(), |i: int| (self.entries@[i].0@, self.entries@[i].1))
    }

    /// An empty store.
    pub fn new() -> (s: AssetStorage<T>)
        ensures
            s.spec_entries() == Seq::<(Seq<char>, T)>::empty(),
    {
        let s = AssetStorage { entries: Vec::new() };
        proof {
            assert(s.spec_entries() =~= Seq::<(Seq<char>, T)>::empty());
        }
        s
    }

    /// Find the position of `name`, if it is stored.
    fn position(&self, name: &str) -> (r: Option<usize>)
        ensures
            match r {
                Some(i) => 0 <= i < self.spec_entries().len() && self.spec_entries()[i as int].0
                    == name@ && storage_lookup(self.spec_entries(), name@) == Some(
                    self.spec_entries()[i as int].1,
                ),
                None => storage_lookup(self.spec_entries(), name@) is None,
            },
    {
        let n = self.entries.len();
        let mut i: usize = 0;
        proof {
            assert(self.spec_entries().skip(0) =~= self.spec_entries());
        }
        while i < n
            invariant
                0 <= i <= n,
                n == self.entries@.len(),
                self.spec_entries().len() == n,
                storage_lookup(self.spec_entries().skip(i as int), name@) == storage_lookup(
                    self.spec_entries(),
                    name@,
                ),
            decreases n - i,
        {
            proof {
                assert(self.spec_entries().skip(i as int)[0] == self.spec_entries()[i as int]);
            }
            if str_eq(self.entries[i].0.as_str(), name) {
                return Some(i);
            }
            proof {
                assert(self.spec_entries().skip(i as int).skip(1) =~= self.spec_entries().skip(
                    i as int + 1,
                ));
            }
            i = i + 1;
        }
        proof {
            assert(self.spec_entries().skip(n as int) =~= Seq::<(Seq<char>, T)>::empty());
        }
        None
    }

    /// Store `value` under `name` — unless `name` is already taken, in
    /// which case nothing changes.
    pub fn add(&mut self, name: &str, value: T)
        ensures
            storage_lookup(old(self).spec_entries(), name@) is Some ==> final(self).spec_entries()
                == old(self).spec_entries(),
            storage_lookup(old(self).spec_entries(), name@) is None ==> final(self).spec_entries()
                == old(self).spec_entries().push((name@, value)),
    {
        match self.position(name) {
            Some(_) => {},
            None => {
                let ghost before = self.spec_entries();
                self.entries.push((name.to_owned(), value));
                proof {
                    assert(self.spec_entries() =~= before.push((name@, value)));
                }
            },
        }
    }

    /// Read the asset stored under `name`, if any.
    pub fn get(&self, name: &str) -> (r: Option<&T>)
        ensures
            match r {
                Some(v) => storage_lookup(self.spec_entries(), name@) == Some(*v),
                None => storage_lookup(self.spec_entries(), name@) is None,
            },
    {
        match self.position(name) {
            Some(i) => Some(&self.entries[i].1),
            None => None,
        }
    }
}

/// One asset reference a script declares: which file to load and what kind
/// of asset it is.
#[derive(Debug, PartialEq, Eq)]
pub struct LuaAsset {
    filename: String,
    file_type: String,
}

/// Mathematical reading of a script-declared asset reference.
pub struct SpecLuaAsset {
    pub filename: Seq<char>,
    pub file_type: Seq<char>,
}

/// What decoding a `LuaAsset` from table entries yields.
pub open spec fn spec_lua_asset(es: Seq<(Seq<char>, SpecValue)>) -> Result<
    SpecLuaAsset,
    SpecDecodeError,
> {
    match spec_text_field(es, "filename"@) {
        Ok(filename) => match spec_text_field(es, "file_type"@) {
            Ok(file_type) => Ok(SpecLuaAsset { filename, file_type }),
            Err(e) => Err(e),
        },
        Err(e) => Err(e),
    }
}

impl LuaAsset {
    /// The mathematical reading of this asset reference.
    pub closed spec fn model(self) -> SpecLuaAsset {
        SpecLuaAsset { filename: self.filename@, file_type: self.file_type@ }
    }

    /// Decode from a script table, strictly.
    pub fn from_lua_table(t: &LuaTable) -> (r: Result<LuaAsset, DecodeError>)
        ensures
            match r {
                Ok(a) => spec_lua_asset(t@) == Ok::<SpecLuaAsset, SpecDecodeError>(a.model()),
                Err(e) => spec_lua_asset(t@) == Err::<SpecLuaAsset, SpecDecodeError>(e@),
            },
    {
        let filename = match t.get("filename") {
            Some(LuaValue::Text(s)) => s.clone(),
            Some(LuaValue::Nil) | None => {
                return Err(DecodeError::Missing("filename".to_owned()));
            },
            Some(_) => {
                return Err(DecodeError::Mismatch("filename".to_owned()));
            },
        };
        let file_type = match t.get("file_type") {
            Some(LuaValue::Text(s)) => s.clone(),
            Some(LuaValue::Nil) | None => {
                return Err(DecodeError::Missing("file_type".to_owned()));
            },
            Some(_) => {
                return Err(DecodeError::Mismatch("file_type".to_owned()));
            },
        };
        Ok(LuaAsset { filename, file_type })
    }

    /// Which file this asset reference names.
    pub fn get_filename(&self) -> (r: &String)
        ensures
            r@ == self.model().filename,
    {
        &self.filename
    }
}

/// What reading a script's asset declarations yields: the `textures` table
/// taken from the `Assets` global's value, each entry decoded as an asset
/// reference on its own — a failing entry is reported in place.
pub open spec fn spec_texture_entry(e: (Seq<char>, SpecValue)) -> Result<
    SpecLuaAsset,
    SpecDecodeError,
> {
    match e.1 {
        SpecValue::Table(aes) => spec_lua_asset(aes),
        _ => Err(SpecDecodeError::NotATable),
    }
}

/// Read the texture asset references out of a script's `Assets` table
/// value: the `textures` field strictly, then one (key, decoded reference)
/// pair per actual entry, in entry order, each decoded on its own.
pub fn texture_assets(assets: &LuaValue) -> (r: Result<
    Vec<(String, Result<LuaAsset, DecodeError>)>,
    DecodeError,
>)
    ensures
        match r {
            Ok(items) => (match assets@ {
                SpecValue::Table(es) => match spec_table_field(es, "textures"@) {
                    Ok(tes) => items@.len() == tes.len() && (forall|i: int|
                        0 <= i < tes.len() ==> (#[trigger] items@[i]).0@ == tes[i].0 && (match items@[i].1 {
                            Ok(a) => spec_texture_entry(tes[i]) == Ok::<
                                SpecLuaAsset,
                                SpecDecodeError,
                            >(a.model()),
                            Err(e) => spec_texture_entry(tes[i]) == Err::<
                                SpecLuaAsset,
                                SpecDecodeError,
                            >(e@),
                        })),
                    Err(_) => false,
                },
                _ => false,
            }),
            Err(e) => (match assets@ {
                SpecValue::Table(es) => spec_table_field(es, "textures"@) == Err::<
                    Seq<(Seq<char>, SpecValue)>,
                    SpecDecodeError,
                >(e@),
                _ => e@ == SpecDecodeError::NotATable,
            }),
        },
{
    let t = match assets {
        LuaValue::Table(t) => t,
        _ => {
            return Err(DecodeError::NotATable);
        },
    };
    let textures = match t.get("textures") {
        Some(LuaValue::Table(d)) => d,
        Some(LuaValue::Nil) | None => {
            return Err(DecodeError::Missing("textures".to_owned()));
        },
        Some(_) => {
            return Err(DecodeError::Mismatch("textures".to_owned()));
        },
    };
    let n = textures.entries.len();
    let mut items: Vec<(String, Result<LuaAsset, DecodeError>)> = Vec::new();
    let mut i: usize = 0;
    proof {
        lemma_entries_model_len(textures.entries@);
    }
    while i < n
        invariant
            0 <= i <= n,
            n == textures.entries@.len(),
            textures@.len() == n,
            items@.len() == i,
            forall|j: int| 0 <= j < i ==> (#[trigger] items@[j]).0@ == textures@[j].0 && (match items@[j].1 {
                Ok(a) => spec_texture_entry(textures@[j]) == Ok::<SpecLuaAsset, SpecDecodeError>(
                    a.model(),
                ),
                Err(e) => spec_texture_entry(textures@[j]) == Err::<SpecLuaAsset, SpecDecodeError>(
                    e@,
                ),
            }),
        decreases n - i,
    {
        proof {
            lemma_entries_model_index(textures.entries@, i as int);
        }
        let key = textures.entries[i].0.clone();
        let decoded = match &textures.entries[i].1 {
            LuaValue::Table(at) => LuaAsset::from_lua_table(at),
            _ => Err(DecodeError::NotATable),
        };
        items.push((key, decoded));
        i = i + 1;
    }
    Ok(items)
}

} // verus!
