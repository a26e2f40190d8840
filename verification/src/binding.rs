use vstd::prelude::*;

use crate::strutil::str_eq;
use crate::value::{LuaValue, LuaTable, SpecValue, lookup};

verus! {

/// The type a declared field decodes to. `Opaque` passes the raw table
/// through uninterpreted; `Optional` turns a missing or nil value into
/// "absent" instead of a failure; `Nested` decodes through another binding.
pub enum FieldType {
    Num,
    Text,
    Flag,
    Opaque,
    Optional(Box<FieldType>),
    Nested(Box<Binding>),
}

/// One declared field: a name and the type its value must decode to.
pub struct Field {
    pub name: String,
    pub ty: FieldType,
}

/// A typed binding: a named, ordered list of declared fields. Decoding is
/// strict: every declared field must be present and type-compatible, and
/// the first failure is the result.
pub struct Binding {
    pub name: String,
    pub fields: Vec<Field>,
}

/// A decoded field value, mirroring `FieldType`.
#[derive(Debug, PartialEq, Eq)]
pub enum FieldValue {
    Num(u32),
    Text(String),
    Flag(bool),
    Opaque(LuaTable),
    Absent,
    Nested(Decoded),
}

/// One decoded field: the declared name with its decoded value.
#[derive(Debug, PartialEq, Eq)]
pub struct DecodedField {
    pub name: String,
    pub value: FieldValue,
}

/// A freshly produced host structure: the declared fields, in declaration
/// order, each with its decoded value.
#[derive(Debug, PartialEq, Eq)]
pub struct Decoded {
    pub fields: Vec<DecodedField>,
}

/// Why a decode failed: the input was not a table, a declared field was
/// missing (or nil), or a field's value had the wrong type. The payload
/// names the failing field.
#[derive(Debug, PartialEq, Eq)]
pub enum DecodeError {
    NotATable,
    Missing(String),
    Mismatch(String),
}

/// Mathematical reading of a decoded field value.
pub enum SpecFieldValue {
    Num(u32),
    Text(Seq<char>),
    Flag(bool),
    Opaque(Seq<(Seq<char>, SpecValue)>),
    Absent,
    Nested(Seq<(Seq<char>, SpecFieldValue)>),
}

/// Mathematical reading of a decode failure.
pub enum SpecDecodeError {
    NotATable,
    Missing(Seq<char>),
    Mismatch(Seq<char>),
}

impl FieldValue {
    /// The mathematical reading of this value.
    pub open spec fn model(self) -> SpecFieldValue
        decreases self,
    {
        match self {
            FieldValue::Num(n) => SpecFieldValue::Num(n),
            FieldValue::Text(s) => SpecFieldValue::Text(s@),
            FieldValue::Flag(b) => SpecFieldValue::Flag(b),
            FieldValue::Opaque(t) => SpecFieldValue::Opaque(t@),
            FieldValue::Absent => SpecFieldValue::Absent,
            FieldValue::Nested(d) => SpecFieldValue::Nested(decoded_model(d.fields@)),
        }
    }
}

/// The mathematical reading of a decoded field list, pair by pair.
pub open spec fn decoded_model(s: Seq<DecodedField>) -> Seq<(Seq<char>, SpecFieldValue)>
    decreases s,
{
    if s.len() == 0 {
        Seq::empty()
    } else {
        seq![(s[0].name@, s[0].value.model())] + decoded_model(s.skip(1))
    }
}

/// `decoded_model` keeps the length.
pub broadcast proof fn lemma_decoded_model_len(s: Seq<DecodedField>)
    ensures
        (#[trigger] decoded_model(s)).len() == s.len(),
    decreases s.len(),
{
    if s.len() != 0 {
        lemma_decoded_model_len(s.skip(1));
    }
}

/// `decoded_model` reads each field in place.
pub broadcast proof fn lemma_decoded_model_index(s: Seq<DecodedField>, i: int)
    requires
        0 <= i < s.len(),
    ensures
        #[trigger] decoded_model(s)[i] == (s[i].name@, s[i].value.model()),
    decreases s.len(),
{
    lemma_decoded_model_len(s);
    if i != 0 {
        lemma_decoded_model_len(s.skip(1));
        lemma_decoded_model_index(s.skip(1), i - 1);
        assert(s.skip(1)[i - 1] == s[i]);
    }
}

/// Appending a decoded field extends the reading by its pair.
pub proof fn lemma_decoded_model_push(s: Seq<DecodedField>, df: DecodedField)
    ensures
        decoded_model(s.push(df)) == decoded_model(s) + seq![(df.name@, df.value.model())],
{
    broadcast use lemma_decoded_model_len, lemma_decoded_model_index;

    assert(decoded_model(s.push(df)) =~= decoded_model(s) + seq![(df.name@, df.value.model())]);
}

impl View for FieldValue {
    type V = SpecFieldValue;

    open spec fn view(&self) -> SpecFieldValue {
        self.model()
    }
}

impl View for Decoded {
    type V = Seq<(Seq<char>, SpecFieldValue)>;

    open spec fn view(&self) -> Seq<(Seq<char>, SpecFieldValue)> {
        decoded_model(self.fields@)
    }
}

impl View for DecodeError {
    type V = SpecDecodeError;

    open spec fn view(&self) -> SpecDecodeError {
        match *self {
            DecodeError::NotATable => SpecDecodeError::NotATable,
            DecodeError::Missing(ref s) => SpecDecodeError::Missing(s@),
            DecodeError::Mismatch(ref s) => SpecDecodeError::Mismatch(s@),
        }
    }
}

/// Whether a read field counts as not there: no entry, or an explicit nil.
pub open spec fn spec_absent(ov: Option<SpecValue>) -> bool {
    ov is None || ov == Some(SpecValue::Nil)
}

/// The failure a strictly required field reports: missing when absent,
/// otherwise a type mismatch.
pub open spec fn spec_strict_error(ov: Option<SpecValue>, name: Seq<char>) -> SpecDecodeError {
    if spec_absent(ov) {
        SpecDecodeError::Missing(name)
    } else {
        SpecDecodeError::Mismatch(name)
    }
}

/// What decoding one declared field named `name` of type `ty` from the
/// read value `ov` yields.
pub open spec fn spec_decode_field(ty: FieldType, ov: Option<SpecValue>, name: Seq<char>) -> Result<
    SpecFieldValue,
    SpecDecodeError,
>
    decreases ty,
{
    match ty {
        FieldType::Num => match ov {
            Some(SpecValue::Number(n)) => Ok(SpecFieldValue::Num(n)),
            _ => Err(spec_strict_error(ov, name)),
        },
        FieldType::Text => match ov {
            Some(SpecValue::Text(s)) => Ok(SpecFieldValue::Text(s)),
            _ => Err(spec_strict_error(ov, name)),
        },
        FieldType::Flag => match ov {
            Some(SpecValue::Boolean(b)) => Ok(SpecFieldValue::Flag(b)),
            _ => Err(spec_strict_error(ov, name)),
        },
        FieldType::Opaque => match ov {
            Some(SpecValue::Table(es)) => Ok(SpecFieldValue::Opaque(es)),
            _ => Err(spec_strict_error(ov, name)),
        },
        FieldType::Optional(inner) => if spec_absent(ov) {
            Ok(SpecFieldValue::Absent)
        } else {
            spec_decode_field(*inner, ov, name)
        },
        FieldType::Nested(b) => match ov {
            Some(SpecValue::Table(es)) => match spec_decode(*b, SpecValue::Table(es)) {
                Ok(fs) => Ok(SpecFieldValue::Nested(fs)),
                Err(e) => Err(e),
            },
            _ => Err(spec_strict_error(ov, name)),
        },
    }
}

/// What decoding the declared fields from position `i` on, against the
/// table entries `es`, yields: the decoded pairs in declaration order, or
/// the first failure.
pub open spec fn spec_decode_fields(fields: Seq<Field>, es: Seq<(Seq<char>, SpecValue)>, i: int) -> Result<
    Seq<(Seq<char>, SpecFieldValue)>,
    SpecDecodeError,
>
    decreases fields, fields.len() - i,
{
    if i < 0 || i >= fields.len() {
        Ok(Seq::empty())
    } else {
        match spec_decode_field(fields[i].ty, lookup(es, fields[i].name@), fields[i].name@) {
            Ok(fv) => match spec_decode_fields(fields, es, i + 1) {
                Ok(rest) => Ok(seq![(fields[i].name@, fv)] + rest),
                Err(e) => Err(e),
            },
            Err(e) => Err(e),
        }
    }
}

/// What decoding a whole binding from a script value yields: a non-table
/// always fails; a table is read field by field, strictly.
pub open spec fn spec_decode(b: Binding, v: SpecValue) -> Result<
    Seq<(Seq<char>, SpecFieldValue)>,
    SpecDecodeError,
>
    decreases b,
{
    match v {
        SpecValue::Table(es) => spec_decode_fields(b.fields@, es, 0),
        _ => Err(SpecDecodeError::NotATable),
    }
}

/// Optional-field law: a field declared optional that the table does not
/// hold — no entry under its name, or an explicit nil — decodes to
/// "absent", never to a failure, whatever the inner type declared.
pub proof fn lemma_optional_absent(inner: Box<FieldType>, ov: Option<SpecValue>, name: Seq<char>)
    requires
        spec_absent(ov),
    ensures
        spec_decode_field(FieldType::Optional(inner), ov, name) == Ok::<
            SpecFieldValue,
            SpecDecodeError,
        >(SpecFieldValue::Absent),
{
}

/// The reading of an optional borrowed value.
pub open spec fn opt_model(ov: Option<&LuaValue>) -> Option<SpecValue> {
    match ov {
        Some(v) => Some(v@),
        None => None,
    }
}

/// Decode one declared field from the value read out of the table.
fn decode_field_value(ty: &FieldType, ov: Option<&LuaValue>, name: &String) -> (r: Result<
    FieldValue,
    DecodeError,
>)
    ensures
        match r {
            Ok(fv) => spec_decode_field(*ty, opt_model(ov), name@) == Ok::<
                SpecFieldValue,
                SpecDecodeError,
            >(fv@),
            Err(e) => spec_decode_field(*ty, opt_model(ov), name@) == Err::<
                SpecFieldValue,
                SpecDecodeError,
            >(e@),
        },
    decreases *ty,
{
    match ty {
        FieldType::Num => match ov {
            Some(LuaValue::Number(n)) => Ok(FieldValue::Num(*n)),
            Some(LuaValue::Nil) | None => Err(DecodeError::Missing(name.clone())),
            Some(_) => Err(DecodeError::Mismatch(name.clone())),
        },
        FieldType::Text => match ov {
            Some(LuaValue::Text(s)) => Ok(FieldValue::Text(s.clone())),
            Some(LuaValue::Nil) | None => Err(DecodeError::Missing(name.clone())),
            Some(_) => Err(DecodeError::Mismatch(name.clone())),
        },
        FieldType::Flag => match ov {
            Some(LuaValue::Boolean(b)) => Ok(FieldValue::Flag(*b)),
            Some(LuaValue::Nil) | None => Err(DecodeError::Missing(name.clone())),
            Some(_) => Err(DecodeError::Mismatch(name.clone())),
        },
        FieldType::Opaque => match ov {
            Some(LuaValue::Table(t)) => Ok(FieldValue::Opaque(t.clone())),
            Some(LuaValue::Nil) | None => Err(DecodeError::Missing(name.clone())),
            Some(_) => Err(DecodeError::Mismatch(name.clone())),
        },
        FieldType::Optional(inner) => match ov {
            Some(LuaValue::Nil) | None => Ok(FieldValue::Absent),
            Some(_) => decode_field_value(&**inner, ov, name),
        },
        FieldType::Nested(b) => match ov {
            Some(vv) => match vv {
                LuaValue::Table(_) => match (&**b).decode(vv) {
                    Ok(d) => Ok(FieldValue::Nested(d)),
                    Err(e) => Err(e),
                },
                LuaValue::Nil => Err(DecodeError::Missing(name.clone())),
                _ => Err(DecodeError::Mismatch(name.clone())),
            },
            None => Err(DecodeError::Missing(name.clone())),
        },
    }
}

impl Binding {
    /// A binding with no fields yet.
    pub fn new(name: String) -> (b: Binding)
        ensures
            b.name == name,
            b.fields@ == Seq::<Field>::empty(),
    {
        Binding { name, fields: Vec::new() }
    }

    /// Declare one more field, after the ones already declared.
    pub fn field(self, name: String, ty: FieldType) -> (b: Binding)
        ensures
            b.name == self.name,
            b.fields@ == self.fields@.push(Field { name, ty }),
    {
        let mut fields = self.fields;
        fields.push(Field { name, ty });
        Binding { name: self.name, fields }
    }

    /// Decode a script value through this binding: a fresh host structure,
    /// or the first failure, exactly as `spec_decode` says.
    pub fn decode(&self, v: &LuaValue) -> (r: Result<Decoded, DecodeError>)
        ensures
            match r {
                Ok(d) => spec_decode(*self, v@) == Ok::<
                    Seq<(Seq<char>, SpecFieldValue)>,
                    SpecDecodeError,
                >(d@),
                Err(e) => spec_decode(*self, v@) == Err::<
                    Seq<(Seq<char>, SpecFieldValue)>,
                    SpecDecodeError,
                >(e@),
            },
        decreases *self,
    {
        match v {
            LuaValue::Table(t) => {
                let n = self.fields.len();
                let mut out: Vec<DecodedField> = Vec::new();
                let mut i: usize = 0;
                proof {
                    let r0 = spec_decode_fields(self.fields@, t@, 0);
                    if r0 is Ok {
                        assert(decoded_model(out@) + r0->Ok_0 =~= r0->Ok_0);
                    }
                }
                while i < n
                    invariant
                        0 <= i <= n,
                        n == self.fields@.len(),
                        *v == LuaValue::Table(*t),
                        out@.len() == i,
                        (match spec_decode_fields(self.fields@, t@, i as int) {
                            Ok(rest) => spec_decode_fields(self.fields@, t@, 0) == Ok::<
                                Seq<(Seq<char>, SpecFieldValue)>,
                                SpecDecodeError,
                            >(decoded_model(out@) + rest),
                            Err(e) => spec_decode_fields(self.fields@, t@, 0) == Err::<
                                Seq<(Seq<char>, SpecFieldValue)>,
                                SpecDecodeError,
                            >(e),
                        }),
                    decreases n - i,
                {
                    let f = &self.fields[i];
                    let ov = t.get(f.name.as_str());
                    match decode_field_value(&f.ty, ov, &f.name) {
                        Ok(fv) => {
                            let ghost old_out = out@;
                            let df = DecodedField { name: f.name.clone(), value: fv };
                            proof {
                                lemma_decoded_model_push(old_out, df);
                                let fs = self.fields@;
                                let step = spec_decode_fields(fs, t@, i as int);
                                let rest = spec_decode_fields(fs, t@, i as int + 1);
                                if rest is Ok {
                                    assert(decoded_model(old_out) + (seq![(fs[i as int].name@, df.value.model())] + rest->Ok_0)
                                        =~= (decoded_model(old_out) + seq![(fs[i as int].name@, df.value.model())]) + rest->Ok_0);
                                }
                            }
                            out.push(df);
                        },
                        Err(e) => {
                            return Err(e);
                        },
                    }
                    i = i + 1;
                }
                proof {
                    assert(spec_decode_fields(self.fields@, t@, n as int) == Ok::<
                        Seq<(Seq<char>, SpecFieldValue)>,
                        SpecDecodeError,
                    >(Seq::empty()));
                    assert(decoded_model(out@) + Seq::<(Seq<char>, SpecFieldValue)>::empty()
                        =~= decoded_model(out@));
                }
                Ok(Decoded { fields: out })
            },
            _ => Err(DecodeError::NotATable),
        }
    }
}

/// First pair of decoded fields whose name is `key`, if any.
pub open spec fn lookup_decoded(s: Seq<(Seq<char>, SpecFieldValue)>, key: Seq<char>) -> Option<
    SpecFieldValue,
>
    decreases s.len(),
{
    if s.len() == 0 {
        None
    } else if s[0].0 == key {
        Some(s[0].1)
    } else {
        lookup_decoded(s.skip(1), key)
    }
}

impl Decoded {
    /// Read a decoded field back by its declared name.
    pub fn get(&self, key: &str) -> (r: Option<&FieldValue>)
        ensures
            match r {
                Some(fv) => lookup_decoded(self@, key@) == Some(fv@),
                None => lookup_decoded(self@, key@) is None,
            },
    {
        broadcast use lemma_decoded_model_len, lemma_decoded_model_index;

        let n = self.fields.len();
        let mut i: usize = 0;
        proof {
            assert(self@.skip(0) =~= self@);
        }
        while i < n
            invariant
                0 <= i <= n,
                n == self.fields@.len(),
                self@.len() == n,
                lookup_decoded(self@.skip(i as int), key@) == lookup_decoded(self@, key@),
            decreases n - i,
        {
            proof {
                lemma_decoded_model_len(self.fields@);
                lemma_decoded_model_index(self.fields@, i as int);
                assert(self@.skip(i as int)[0] == self@[i as int]);
            }
            if str_eq(self.fields[i].name.as_str(), key) {
                return Some(&self.fields[i].value);
            }
            proof {
                assert(self@.skip(i as int).skip(1) =~= self@.skip(i as int + 1));
            }
            i = i + 1;
        }
        proof {
            assert(self@.skip(n as int) =~= Seq::<(Seq<char>, SpecFieldValue)>::empty());
        }
        None
    }
}

} // verus!
