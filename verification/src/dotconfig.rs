//! The application entries a script hands to a dotfile sync: a bare name, or
//! a configured entry with an optional copy action.

use vstd::prelude::*;

use crate::value::ScriptValue;

verus! {

/// A configured application entry: its name and an optional copy action.
pub struct ConfigOpt {
    pub name: String,
    pub copy_action: Option<String>,
}

impl ConfigOpt {
    /// A configured entry with the given name and copy action.
    pub fn new(name: String, copy_action: Option<String>) -> (r: ConfigOpt)
        ensures
            r.name == name,
            r.copy_action == copy_action,
    {
        ConfigOpt { name, copy_action }
    }
}

impl Default for ConfigOpt {
    /// An entry with an empty name and no copy action.
    fn default() -> (r: ConfigOpt)
        ensures
            r.name@.len() == 0,
            r.copy_action is None,
    {
        ConfigOpt { name: String::new(), copy_action: None }
    }
}

/// One application of a sync request.
pub enum AppConfig {
    /// An application given by its name alone.
    Named(String),
    /// An application given as a configured entry.
    Configured(ConfigOpt),
}

/// The application a script value stands for, if it stands for one: a string
/// names an application, a configured entry is taken as it is, anything else
/// is not an application.
pub open spec fn app_of(v: ScriptValue) -> Option<AppConfig> {
    match v {
        ScriptValue::Str(s) => Some(AppConfig::Named(s)),
        ScriptValue::Config(c) => Some(AppConfig::Configured(c)),
        _ => None,
    }
}

/// The value at `index` of an application list stands for no application.
pub struct NotAnApp {
    pub index: usize,
}

/// Reads an application list: each value becomes the application it stands
/// for, in order; the first value that stands for none makes the whole list
/// fail.
pub fn sync_apps(values: Vec<ScriptValue>) -> (r: Result<Vec<AppConfig>, NotAnApp>)
    ensures
        r is Ok <==> forall|i: int| 0 <= i < values@.len() ==> (#[trigger] app_of(values@[i])) is Some,
        r matches Ok(apps) ==> apps@.len() == values@.len() && forall|i: int|
            0 <= i < values@.len() ==> Some(#[trigger] apps@[i]) == app_of(values@[i]),
        r matches Err(e) ==> e.index < values@.len() && app_of(values@[e.index as int]) is None
            && forall|j: int| 0 <= j < e.index ==> (#[trigger] app_of(values@[j])) is Some,
{
    let ghost orig = values@;
    let n = values.len();
    let mut rest = values;
    let mut apps: Vec<AppConfig> = Vec::new();
    let mut i: usize = 0;
    while i < n
        invariant
            n == orig.len(),
            orig == values@,
            i <= n,
            rest@ == orig.subrange(i as int, n as int),
            apps@.len() == i,
            forall|j: int| 0 <= j < i ==> Some(#[trigger] apps@[j]) == app_of(orig[j]),
        decreases n - i,
    {
        let v = rest.remove(0);
        assert(v == orig[i as int]);
        match v {
            ScriptValue::Str(s) => apps.push(AppConfig::Named(s)),
            ScriptValue::Config(c) => apps.push(AppConfig::Configured(c)),
            _ => {
                assert(app_of(orig[i as int]) is None);
                assert forall|j: int| 0 <= j < i implies (#[trigger] app_of(orig[j])) is Some by {
                    assert(Some(apps@[j]) == app_of(orig[j]));
                }
                return Err(NotAnApp { index: i });
            },
        }
        i = i + 1;
    }
    assert forall|j: int| 0 <= j < orig.len() implies (#[trigger] app_of(orig[j])) is Some by {
        assert(Some(apps@[j]) == app_of(orig[j]));
    }
    Ok(apps)
}

/// A string names an application, a configured entry is taken as it is, and
/// any other value stands for no application.
pub proof fn lemma_app_of_values(s: String, c: ConfigOpt, b: bool)
    ensures
        app_of(ScriptValue::Str(s)) == Some(AppConfig::Named(s)),
        app_of(ScriptValue::Config(c)) == Some(AppConfig::Configured(c)),
        app_of(ScriptValue::Bool(b)) is None,
        app_of(ScriptValue::Other) is None,
{
}

} // verus!
