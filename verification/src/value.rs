//! The values scripts exchange with the tool, and script objects: tables from
//! field names to values without repeated names.

use vstd::prelude::*;
use vstd::string::*;

use crate::assoc::{find_key, has_key, insert_entry, key_index, key_texts, keys_unique, lemma_lookup_at, lookup};
use crate::dotconfig::ConfigOpt;

verus! {

/// A value handed over by a script.
pub enum ScriptValue {
    Str(String),
    Bool(bool),
    Config(ConfigOpt),
    Other,
}

/// The text of a string value.
pub open spec fn str_text(v: Option<ScriptValue>) -> Option<Seq<char>> {
    match v {
        Some(ScriptValue::Str(s)) => Some(s@),
        _ => None,
    }
}

/// A script object: named fields, each name at most once.
pub struct ScriptObject {
    entries: Vec<(String, ScriptValue)>,
}

impl ScriptObject {
    #[verifier::type_invariant]
    spec fn names_unique(self) -> bool {
        keys_unique(self.entries@)
    }

    /// The fields, in the order they were first set.
    pub closed spec fn fields(&self) -> Seq<(String, ScriptValue)> {
        self.entries@
    }

    /// The value of field `name`, if it is set.
    pub open spec fn field(&self, name: Seq<char>) -> Option<ScriptValue> {
        lookup(self.fields(), name)
    }

    /// An object without fields.
    pub fn new() -> (r: ScriptObject)
        ensures
            r.fields().len() == 0,
    {
        ScriptObject { entries: Vec::new() }
    }

    /// The number of fields (and, for the reader, that names never repeat).
    pub fn len(&self) -> (r: usize)
        ensures
            r == self.fields().len(),
            keys_unique(self.fields()),
    {
        proof {
            use_type_invariant(self);
        }
        self.entries.len()
    }

    /// The field at position `i`.
    pub fn field_at(&self, i: usize) -> (r: (&String, &ScriptValue))
        requires
            i < self.fields().len(),
        ensures
            *r.0 == self.fields()[i as int].0,
            *r.1 == self.fields()[i as int].1,
    {
        (&self.entries[i].0, &self.entries[i].1)
    }

    /// The value of field `name`, if it is set.
    pub fn get(&self, name: &str) -> (r: Option<&ScriptValue>)
        ensures
            match r {
                Some(v) => self.field(name@) == Some(*v),
                None => self.field(name@) is None,
            },
    {
        proof {
            use_type_invariant(self);
        }
        match find_key(&self.entries, name) {
            Some(i) => {
                proof {
                    lemma_lookup_at(self.entries@, i as int);
                }
                Some(&self.entries[i].1)
            },
            None => None,
        }
    }

    /// Sets field `name` to `value`: a field already set keeps its place and
    /// takes the new value; a new field goes last.
    pub fn insert(&mut self, name: String, value: ScriptValue)
        ensures
            keys_unique(final(self).fields()),
            final(self).fields() == if has_key(old(self).fields(), name@) {
                old(self).fields().update(
                    key_index(old(self).fields(), name@),
                    (name, value),
                )
            } else {
                old(self).fields().push((name, value))
            },
            forall|q: Seq<char>|
                #[trigger] final(self).field(q) == if q == name@ {
                    Some(value)
                } else {
                    old(self).field(q)
                },
    {
        proof {
            use_type_invariant(&*self);
        }
        let mut entries: Vec<(String, ScriptValue)> = Vec::new();
        std::mem::swap(&mut entries, &mut self.entries);
        insert_entry(&mut entries, name, value);
        self.entries = entries;
    }
}

/// Why a field could not be read as text.
pub enum FieldError {
    /// The object has no field of that name.
    Missing(String),
    /// The field is set but does not hold a string.
    NotString(String),
}

impl FieldError {
    /// The name of the field at fault.
    pub open spec fn name(self) -> Seq<char> {
        match self {
            FieldError::Missing(n) => n@,
            FieldError::NotString(n) => n@,
        }
    }
}

/// Field `name` of `obj` is set and holds a string.
pub open spec fn field_is_text(obj: ScriptObject, name: Seq<char>) -> bool {
    obj.field(name) matches Some(ScriptValue::Str(_))
}

/// The error reported for field `name` of `obj`, which is not text.
pub open spec fn field_error_fits(obj: ScriptObject, name: Seq<char>, e: FieldError) -> bool {
    &&& e.name() == name
    &&& (e is Missing <==> obj.field(name) is None)
}

/// Reads the named fields of `obj` as text, in the order given. It fails on
/// the first field that is missing or does not hold a string.
pub fn object_field(obj: &ScriptObject, names: &[&str]) -> (r: Result<Vec<String>, FieldError>)
    ensures
        r is Ok <==> forall|i: int| 0 <= i < names@.len() ==> field_is_text(*obj, #[trigger] names@[i]@),
        r matches Ok(v) ==> v@.len() == names@.len() && forall|i: int|
            0 <= i < names@.len() ==> Some(#[trigger] v@[i]@) == str_text(obj.field(names@[i]@)),
        r matches Err(e) ==> exists|i: int|
            0 <= i < names@.len() && !field_is_text(*obj, #[trigger] names@[i]@)
                && field_error_fits(*obj, names@[i]@, e) && forall|j: int|
                0 <= j < i ==> field_is_text(*obj, #[trigger] names@[j]@),
{
    let mut out: Vec<String> = Vec::new();
    let mut i: usize = 0;
    while i < names.len()
        invariant
            i <= names@.len(),
            out@.len() == i,
            forall|j: int| 0 <= j < i ==> field_is_text(*obj, #[trigger] names@[j]@),
            forall|j: int|
                0 <= j < i ==> Some(#[trigger] out@[j]@) == str_text(obj.field(names@[j]@)),
        decreases names@.len() - i,
    {
        let name: &str = names[i];
        match obj.get(name) {
            Some(ScriptValue::Str(s)) => {
                out.push(s.clone());
            },
            Some(_) => {
                return Err(FieldError::NotString(name.to_owned()));
            },
            None => {
                return Err(FieldError::Missing(name.to_owned()));
            },
        }
        i = i + 1;
    }
    Ok(out)
}

/// A user and a path on that user's machine, as a script names them.
pub struct UserPath {
    pub user: String,
    pub path: String,
}

impl UserPath {
    /// Reads the `user` and `path` fields of `obj`, both as text; `user` is
    /// checked first.
    pub fn from_object(obj: &ScriptObject) -> (r: Result<UserPath, FieldError>)
        ensures
            r is Ok <==> field_is_text(*obj, "user"@) && field_is_text(*obj, "path"@),
            r matches Ok(up) ==> Some(up.user@) == str_text(obj.field("user"@)) && Some(up.path@)
                == str_text(obj.field("path"@)),
            r matches Err(e) ==> if !field_is_text(*obj, "user"@) {
                field_error_fits(*obj, "user"@, e)
            } else {
                field_error_fits(*obj, "path"@, e)
            },
    {
        let names: [&str; 2] = ["user", "path"];
        let r = object_field(obj, names.as_slice());
        assert(names@.len() == 2 && names@[0]@ == "user"@ && names@[1]@ == "path"@);
        match r {
            Ok(v) => {
                assert(v@.len() == 2);
                let user = v[0].clone();
                let path = v[1].clone();
                Ok(UserPath { user, path })
            },
            Err(e) => Err(e),
        }
    }
}

/// A string value holding `s`.
fn text_value(s: &str) -> (r: ScriptValue)
    ensures
        r matches ScriptValue::Str(t) && t@ == s@,
{
    ScriptValue::Str(s.to_owned())
}

/// Builds a user description with the first field `first` set to `value`,
/// then `mount` and `os` set to the tool's defaults.
fn user_description(first: &str, value: &str) -> (r: ScriptObject)
    requires
        first@ != "mount"@,
        first@ != "os"@,
    ensures
        key_texts(r.fields()) == seq![first@, "mount"@, "os"@],
        str_text(r.field(first@)) == Some(value@),
        str_text(r.field("mount"@)) == Some("~/.local/share/dv"@),
        str_text(r.field("os"@)) == Some("linux"@),
{
    proof {
        reveal_strlit("mount");
        reveal_strlit("os");
    }
    assert("mount"@ != "os"@) by {
        assert("mount"@.len() != "os"@.len());
    }
    let mut o = ScriptObject::new();
    o.insert(first.to_owned(), text_value(value));
    let ghost f1 = o.fields();
    assert(f1.len() == 1 && f1[0].0@ == first@);
    o.insert("mount".to_owned(), text_value("~/.local/share/dv"));
    let ghost f2 = o.fields();
    assert(f2.len() == 2 && f2[0].0@ == first@ && f2[1].0@ == "mount"@);
    o.insert("os".to_owned(), text_value("linux"));
    let ghost f3 = o.fields();
    assert(f3.len() == 3 && f3[0].0@ == first@ && f3[1].0@ == "mount"@ && f3[2].0@ == "os"@);
    proof {
        assert(key_texts(o.fields()) =~= seq![first@, "mount"@, "os"@]);
    }
    o
}

/// The description of the local user: host id `local`, the default mount
/// point and Linux.
pub fn current_user() -> (r: ScriptObject)
    ensures
        key_texts(r.fields()) == seq!["hid"@, "mount"@, "os"@],
        str_text(r.field("hid"@)) == Some("local"@),
        str_text(r.field("mount"@)) == Some("~/.local/share/dv"@),
        str_text(r.field("os"@)) == Some("linux"@),
{
    proof {
        reveal_strlit("hid");
        reveal_strlit("mount");
        reveal_strlit("os");
    }
    assert("hid"@.len() == 3 && "mount"@.len() == 5 && "os"@.len() == 2);
    user_description("hid", "local")
}

/// The description of a user reached over SSH at `host`: that host, the
/// default mount point and Linux.
pub fn ssh_user(host: &str) -> (r: ScriptObject)
    ensures
        key_texts(r.fields()) == seq!["host"@, "mount"@, "os"@],
        str_text(r.field("host"@)) == Some(host@),
        str_text(r.field("mount"@)) == Some("~/.local/share/dv"@),
        str_text(r.field("os"@)) == Some("linux"@),
{
    proof {
        reveal_strlit("host");
        reveal_strlit("mount");
        reveal_strlit("os");
    }
    assert("host"@.len() == 4 && "mount"@.len() == 5 && "os"@.len() == 2);
    user_description("host", host)
}

/// A field reads as text exactly when it is set to a string; a field that
/// cannot be read is reported as missing exactly when it is not set, and the
/// report names that field.
pub proof fn lemma_field_reading(obj: ScriptObject, name: Seq<char>, e: FieldError)
    ensures
        field_is_text(obj, name) <==> (obj.field(name) matches Some(ScriptValue::Str(_))),
        field_is_text(obj, name) ==> str_text(obj.field(name)) is Some,
        field_error_fits(obj, name, e) <==> (e.name() == name && (e is Missing <==> obj.field(
            name,
        ) is None)),
{
}

} // verus!
