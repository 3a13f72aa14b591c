//! The users a script registers and the devices they live on, and the user
//! configuration read from a script object.

use vstd::prelude::*;
use vstd::string::*;

use crate::assoc::{
    find_key, has_key, key_index, keys_unique, lemma_lookup_at, lemma_lookup_push,
    lookup, same_text,
};
use crate::value::{str_text, ScriptObject, ScriptValue};

verus! {

/// The text of an optional string.
pub open spec fn text_opt(s: Option<String>) -> Option<Seq<char>> {
    match s {
        Some(t) => Some(t@),
        None => None,
    }
}

/// The flag of field `is_system` of a user description, when it holds a
/// boolean.
pub open spec fn system_flag(v: Option<ScriptValue>) -> Option<bool> {
    match v {
        Some(ScriptValue::Bool(b)) => Some(b),
        _ => None,
    }
}

/// A field of a user description is acceptable: `is_system` holds a boolean,
/// every other field holds a string.
pub open spec fn config_field_ok(e: (String, ScriptValue)) -> bool {
    if e.0@ == "is_system"@ {
        e.1 is Bool
    } else {
        e.1 is Str
    }
}

/// The configuration of a user: whether it is the system user, if said, and
/// its named settings.
pub struct UserConfig {
    pub is_system: Option<bool>,
    pub vars: Vec<(String, String)>,
}

/// Why a user description was refused: the named field should have held a
/// boolean, or a string.
pub enum ConfigError {
    NotBool(String),
    NotString(String),
}

impl ConfigError {
    /// The name of the field at fault.
    pub open spec fn name(self) -> Seq<char> {
        match self {
            ConfigError::NotBool(n) => n@,
            ConfigError::NotString(n) => n@,
        }
    }
}

/// The error reported for field `e` of a user description.
pub open spec fn config_error_fits(e: (String, ScriptValue), err: ConfigError) -> bool {
    &&& err.name() == e.0@
    &&& (err is NotBool <==> e.0@ == "is_system"@)
}

/// Every field of the user description `obj` is acceptable.
pub open spec fn description_ok(obj: ScriptObject) -> bool {
    forall|i: int| 0 <= i < obj.fields().len() ==> config_field_ok(#[trigger] obj.fields()[i])
}

/// `c` is the configuration the description `obj` gives: the system flag of
/// field `is_system`, and each other field as a setting of the same name.
pub open spec fn configured_from(obj: ScriptObject, c: UserConfig) -> bool {
    &&& c.is_system == system_flag(obj.field("is_system"@))
    &&& keys_unique(c.vars@)
    &&& forall|k: Seq<char>|
        #[trigger] text_opt(lookup(c.vars@, k)) == if k == "is_system"@ {
            None
        } else {
            str_text(obj.field(k))
        }
}

/// `err` reports the first field of `obj`, in order, that is not acceptable.
pub open spec fn refused_at_first_bad_field(obj: ScriptObject, err: ConfigError) -> bool {
    exists|i: int|
        0 <= i < obj.fields().len() && !config_field_ok(#[trigger] obj.fields()[i])
            && config_error_fits(obj.fields()[i], err) && forall|j: int|
            0 <= j < i ==> config_field_ok(#[trigger] obj.fields()[j])
}

impl UserConfig {
    /// Reads a user description: field `is_system` gives the system flag,
    /// every other field a setting of the same name. The first field, in
    /// order, that does not hold the right kind of value makes it fail.
    pub fn from_object(obj: &ScriptObject) -> (r: Result<UserConfig, ConfigError>)
        ensures
            r is Ok <==> description_ok(*obj),
            r matches Ok(c) ==> configured_from(*obj, c),
            r matches Err(err) ==> refused_at_first_bad_field(*obj, err),
    {
        let ghost fields = obj.fields();
        let n = obj.len();
        let mut is_system: Option<bool> = None;
        let mut vars: Vec<(String, String)> = Vec::new();
        let mut i: usize = 0;
        while i < n
            invariant
                n == fields.len(),
                fields == obj.fields(),
                keys_unique(fields),
                i <= n,
                forall|j: int| 0 <= j < i ==> config_field_ok(#[trigger] fields[j]),
                is_system == system_flag(lookup(fields.subrange(0, i as int), "is_system"@)),
                keys_unique(vars@),
                forall|k: Seq<char>|
                    #[trigger] text_opt(lookup(vars@, k)) == if k == "is_system"@ {
                        None
                    } else {
                        str_text(lookup(fields.subrange(0, i as int), k))
                    },
            decreases n - i,
        {
            let (name, value) = obj.field_at(i);
            let ghost prefix = fields.subrange(0, i as int);
            let ghost next = fields.subrange(0, i + 1);
            proof {
                assert(next =~= prefix.push(fields[i as int]));
                assert(keys_unique(prefix));
                if has_key(prefix, name@) {
                    let j = key_index(prefix, name@);
                    assert(fields[j].0@ == fields[i as int].0@);
                }
                lemma_lookup_push(prefix, fields[i as int].0, fields[i as int].1);
            }
            if same_text(name.as_str(), "is_system") {
                match value {
                    ScriptValue::Bool(b) => {
                        is_system = Some(*b);
                    },
                    _ => {
                        assert(!config_field_ok(fields[i as int]));
                        return Err(ConfigError::NotBool(name.clone()));
                    },
                }
            } else {
                match value {
                    ScriptValue::Str(s) => {
                        proof {
                            if has_key(vars@, name@) {
                                let j = key_index(vars@, name@);
                                lemma_lookup_at(vars@, j);
                                assert(text_opt(lookup(vars@, name@)) is Some);
                            }
                        }
                        let ghost before = vars@;
                        let entry = (name.clone(), s.clone());
                        proof {
                            lemma_lookup_push(before, entry.0, entry.1);
                        }
                        vars.push(entry);
                    },
                    _ => {
                        assert(!config_field_ok(fields[i as int]));
                        return Err(ConfigError::NotString(name.clone()));
                    },
                }
            }
            i = i + 1;
        }
        proof {
            assert(fields.subrange(0, n as int) =~= fields);
        }
        Ok(UserConfig { is_system, vars })
    }

    /// The host id setting (`hid`): the first setting of that name, if any.
    pub fn hid(&self) -> (r: Option<String>)
        ensures
            match r {
                Some(h) => exists|i: int|
                    0 <= i < self.vars@.len() && (#[trigger] self.vars@[i]).0@ == "hid"@ && h@
                        == self.vars@[i].1@ && forall|j: int|
                        0 <= j < i ==> (#[trigger] self.vars@[j]).0@ != "hid"@,
                None => !has_key(self.vars@, "hid"@),
            },
            keys_unique(self.vars@) ==> text_opt(r) == text_opt(lookup(self.vars@, "hid"@)),
    {
        match find_key(&self.vars, "hid") {
            Some(i) => {
                proof {
                    if keys_unique(self.vars@) {
                        lemma_lookup_at(self.vars@, i as int);
                    }
                }
                Some(self.vars[i].1.clone())
            },
            None => None,
        }
    }
}

/// A device: what was detected about it, its system user if one was
/// registered, and its other users in registration order.
pub struct Device<I> {
    pub info: I,
    pub system: Option<String>,
    pub users: Vec<String>,
}

impl<I> Device<I> {
    /// A device without users.
    pub fn new(info: I) -> (r: Device<I>)
        ensures
            r.info == info,
            r.system is None,
            r.users@.len() == 0,
    {
        Device { info, system: None, users: Vec::new() }
    }
}

/// The user id `uid` names a member of device `d`.
pub open spec fn is_member<I>(d: Device<I>, uid: Seq<char>) -> bool {
    ||| d.system matches Some(s) && s@ == uid
    ||| device_users(d).contains(uid)
}

/// No id fills two slots of device `d`: its other users are distinct, and
/// its system user is not among them.
pub open spec fn members_distinct<I>(d: Device<I>) -> bool {
    &&& device_users(d).no_duplicates()
    &&& d.system matches Some(s) ==> !device_users(d).contains(s@)
}

/// No id fills more than one slot (system user or other user) across all the
/// devices of `devs`.
pub open spec fn single_slots<I>(devs: Seq<(String, Device<I>)>) -> bool {
    &&& forall|i: int| 0 <= i < devs.len() ==> members_distinct(#[trigger] devs[i].1)
    &&& forall|i: int, j: int, q: Seq<char>|
        0 <= i < devs.len() && 0 <= j < devs.len() && #[trigger] is_member(devs[i].1, q)
            && #[trigger] is_member(devs[j].1, q) ==> i == j
}

/// The ids of the users of device `d` other than its system user, in order.
pub open spec fn device_users<I>(d: Device<I>) -> Seq<Seq<char>> {
    d.users@.map_values(|s: String| s@)
}

/// Device `after` is device `before` with user `uid` joined: as its system
/// user, or appended to its other users.
pub open spec fn joined<I>(before: Device<I>, after: Device<I>, uid: Seq<char>, is_system: bool) -> bool {
    &&& after.info == before.info
    &&& if is_system {
        &&& text_opt(after.system) == Some(uid)
        &&& device_users(after) == device_users(before)
    } else {
        &&& after.system == before.system
        &&& device_users(after) == device_users(before).push(uid)
    }
}

/// A user who belonged to no slot of a device joins it: afterwards it fills
/// exactly one slot there, and every other member was a member before.
pub proof fn lemma_join_one_slot<I>(before: Device<I>, after: Device<I>, uid: Seq<char>, is_system: bool)
    requires
        joined(before, after, uid, is_system),
        members_distinct(before),
        !is_member(before, uid),
    ensures
        members_distinct(after),
        is_member(after, uid),
        forall|q: Seq<char>| #[trigger] is_member(after, q) ==> q == uid || is_member(before, q),
{
    if !is_system {
        assert(device_users(after).last() == uid);
        assert forall|q: Seq<char>| #[trigger] device_users(after).contains(q) implies q == uid
            || device_users(before).contains(q) by {
            let k = choose|k: int| 0 <= k < device_users(after).len() && device_users(after)[k] == q;
            if k < device_users(before).len() {
                assert(device_users(before)[k] == q);
            }
        }
        assert(device_users(after).no_duplicates()) by {
            assert forall|a: int, b: int|
                0 <= a < device_users(after).len() && 0 <= b < device_users(after).len() && a != b implies
                device_users(after)[a] != device_users(after)[b] by {
                if a < device_users(before).len() && b < device_users(before).len() {
                } else if a < device_users(before).len() {
                    assert(device_users(before).contains(device_users(before)[a]));
                } else {
                    assert(device_users(before).contains(device_users(before)[b]));
                }
            }
        }
        match after.system {
            Some(sys) => {
                assert(before.system == Some(sys));
                if device_users(after).contains(sys@) {
                    assert(sys@ == uid || device_users(before).contains(sys@));
                }
            },
            None => {},
        }
    }
}

/// The user `uid` is registered already.
pub struct UserExists {
    pub uid: String,
}

/// Why a user could not be added.
pub enum AddUserError {
    /// A user of that id is registered already.
    Exists(UserExists),
    /// The user description was refused.
    Config(ConfigError),
}

/// The registered users, each under its id, and the devices, each under its
/// host id. Ids never repeat, and every member of a device is a registered
/// user.
pub struct Registry<U, I> {
    users: Vec<(String, U)>,
    devices: Vec<(String, Device<I>)>,
}

impl<U, I> Registry<U, I> {
    #[verifier::type_invariant]
    spec fn registry_invariant(self) -> bool {
        &&& keys_unique(self.users@)
        &&& keys_unique(self.devices@)
        &&& single_slots(self.devices@)
        &&& forall|i: int, q: Seq<char>|
            0 <= i < self.devices@.len() && is_member(#[trigger] self.devices@[i].1, q)
                ==> #[trigger] has_key(self.users@, q)
    }

    /// Ids never repeat, no user id fills more than one device slot, and
    /// every member of a device is a registered user.
    pub open spec fn consistent(&self) -> bool {
        &&& keys_unique(self.users())
        &&& keys_unique(self.devices())
        &&& single_slots(self.devices())
        &&& forall|i: int, q: Seq<char>|
            0 <= i < self.devices().len() && is_member(#[trigger] self.devices()[i].1, q)
                ==> #[trigger] has_key(self.users(), q)
    }

    /// The users, in registration order.
    pub closed spec fn users(&self) -> Seq<(String, U)> {
        self.users@
    }

    /// The devices, in the order they were first seen.
    pub closed spec fn devices(&self) -> Seq<(String, Device<I>)> {
        self.devices@
    }

    /// An empty registry.
    pub fn new() -> (r: Registry<U, I>)
        ensures
            r.users().len() == 0,
            r.devices().len() == 0,
            r.consistent(),
    {
        Registry { users: Vec::new(), devices: Vec::new() }
    }

    /// Whether user `uid` is registered. (Every query of the registry also
    /// states that the registry is `consistent`.)
    pub fn has_user(&self, uid: &str) -> (r: bool)
        ensures
            r == has_key(self.users(), uid@),
            self.consistent(),
    {
        proof {
            use_type_invariant(self);
        }
        find_key(&self.users, uid).is_some()
    }

    /// The user registered as `uid`, if any.
    pub fn user(&self, uid: &str) -> (r: Option<&U>)
        ensures
            match r {
                Some(u) => lookup(self.users(), uid@) == Some(*u),
                None => lookup(self.users(), uid@) is None,
            },
            self.consistent(),
    {
        proof {
            use_type_invariant(self);
        }
        match find_key(&self.users, uid) {
            Some(i) => {
                proof {
                    lemma_lookup_at(self.users@, i as int);
                }
                Some(&self.users[i].1)
            },
            None => None,
        }
    }

    /// Whether a device is known under `hid`.
    pub fn has_device(&self, hid: &str) -> (r: bool)
        ensures
            r == has_key(self.devices(), hid@),
            self.consistent(),
    {
        proof {
            use_type_invariant(self);
        }
        find_key(&self.devices, hid).is_some()
    }

    /// The device known under `hid`, if any.
    pub fn device(&self, hid: &str) -> (r: Option<&Device<I>>)
        ensures
            match r {
                Some(d) => lookup(self.devices(), hid@) == Some(*d),
                None => lookup(self.devices(), hid@) is None,
            },
            self.consistent(),
    {
        proof {
            use_type_invariant(self);
        }
        match find_key(&self.devices, hid) {
            Some(i) => {
                proof {
                    lemma_lookup_at(self.devices@, i as int);
                }
                Some(&self.devices[i].1)
            },
            None => None,
        }
    }

    /// The first decisions of adding user `uid` described by `desc`: a user
    /// of that id must not be registered yet, and then the description must
    /// read as a user configuration (see `UserConfig::from_object`).
    pub fn prepare_user(&self, uid: &str, desc: &ScriptObject) -> (r: Result<UserConfig, AddUserError>)
        ensures
            has_key(self.users(), uid@) <==> r matches Err(AddUserError::Exists(_)),
            r matches Err(AddUserError::Exists(e)) ==> e.uid@ == uid@,
            !has_key(self.users(), uid@) ==> (r is Ok <==> description_ok(*desc)),
            r matches Ok(c) ==> configured_from(*desc, c),
            r matches Err(AddUserError::Config(e)) ==> refused_at_first_bad_field(*desc, e),
    {
        if self.has_user(uid) {
            return Err(AddUserError::Exists(UserExists { uid: uid.to_owned() }));
        }
        match UserConfig::from_object(desc) {
            Ok(c) => Ok(c),
            Err(e) => Err(AddUserError::Config(e)),
        }
    }

    /// Whether a device has to be detected before a user with host id `hid`
    /// joins: there is a host id and no device is known under it.
    pub fn needs_device(&self, hid: &Option<String>) -> (r: bool)
        ensures
            r == (hid matches Some(h) && !has_key(self.devices(), h@)),
    {
        match hid {
            Some(h) => !self.has_device(h.as_str()),
            None => false,
        }
    }

    /// Records a device under `hid` with no users, unless one is known there
    /// already; says whether it was recorded.
    pub fn add_device(&mut self, hid: String, info: I) -> (r: bool)
        ensures
            r == !has_key(old(self).devices(), hid@),
            final(self).consistent(),
            final(self).users() == old(self).users(),
            !r ==> final(self).devices() == old(self).devices(),
            r ==> {
                &&& final(self).devices().len() == old(self).devices().len() + 1
                &&& final(self).devices().drop_last() == old(self).devices()
                &&& final(self).devices().last().0 == hid
                &&& final(self).devices().last().1.info == info
                &&& final(self).devices().last().1.system is None
                &&& final(self).devices().last().1.users@.len() == 0
            },
    {
        proof {
            use_type_invariant(&*self);
        }
        if find_key(&self.devices, hid.as_str()).is_some() {
            return false;
        }

        let mut devices: Vec<(String, Device<I>)> = Vec::new();
        std::mem::swap(&mut devices, &mut self.devices);
        let ghost before = devices@;
        let d = Device::new(info);
        proof {
            lemma_lookup_push(before, hid, d);
        }
        devices.push((hid, d));
        proof {
            let after = devices@;
            assert forall|i: int, q: Seq<char>|
                0 <= i < after.len() && is_member(#[trigger] after[i].1, q) implies #[trigger] has_key(
                self.users@,
                q,
            ) by {
                if i < before.len() {
                    assert(after[i] == before[i]);
                }
            }
        }
        self.devices = devices;
        proof {
            assert(self.devices@.drop_last() =~= before);
        }
        true
    }

    /// Registers user `uid`, unless a user of that id is registered already.
    /// With a host id, the user joins the device known there: as its system
    /// user when `is_system`, else as one more user.
    pub fn add_user(&mut self, uid: String, user: U, is_system: bool, hid: Option<String>) -> (r:
        Result<(), UserExists>)
        requires
            hid matches Some(h) ==> has_key(old(self).devices(), h@),
        ensures
            final(self).consistent(),
            r is Err <==> has_key(old(self).users(), uid@),
            r matches Err(e) ==> {
                &&& e.uid == uid
                &&& final(self).users() == old(self).users()
                &&& final(self).devices() == old(self).devices()
            },
            r is Ok ==> {
                &&& final(self).users() == old(self).users().push((uid, user))
                &&& match hid {
                    None => final(self).devices() == old(self).devices(),
                    Some(h) => {
                        let i = key_index(old(self).devices(), h@);
                        &&& final(self).devices().len() == old(self).devices().len()
                        &&& final(self).devices()[i].0 == old(self).devices()[i].0
                        &&& joined(old(self).devices()[i].1, final(self).devices()[i].1, uid@, is_system)
                        &&& forall|j: int|
                            0 <= j < old(self).devices().len() && j != i ==> #[trigger] final(self).devices()[j]
                                == old(self).devices()[j]
                    },
                }
            },
    {
        proof {
            use_type_invariant(&*self);
        }
        if find_key(&self.users, uid.as_str()).is_some() {
            return Err(UserExists { uid });
        }
        let ghost old_users = self.users@;
        let ghost old_devices = self.devices@;
        assert(forall|j: int, q: Seq<char>|
            0 <= j < old_devices.len() && is_member(#[trigger] old_devices[j].1, q) ==> #[trigger] has_key(
                old_users,
                q,
            ));
        assert(single_slots(old_devices));
        assert(!has_key(old_users, uid@));
        let mut devices: Vec<(String, Device<I>)> = Vec::new();
        std::mem::swap(&mut devices, &mut self.devices);
        let mut users: Vec<(String, U)> = Vec::new();
        std::mem::swap(&mut users, &mut self.users);
        let ghost mut slot: int = -1;
        match hid {
            Some(h) => {
                let found = find_key(&devices, h.as_str());
                proof {
                    let k = key_index(old_devices, h@);
                    lemma_lookup_at(old_devices, k);
                    if found is Some {
                        lemma_lookup_at(old_devices, found->0 as int);
                    }
                }
                let i = found.unwrap();
                let (key, mut d) = devices.remove(i);
                let ghost old_d = d;
                if is_system {
                    d.system = Some(uid.clone());
                } else {
                    d.users.push(uid.clone());
                    proof {
                        assert(device_users(d) =~= device_users(old_d).push(uid@));
                    }
                }
                devices.insert(i, (key, d));
                proof {
                    assert(devices@ =~= old_devices.update(i as int, (key, d)));
                    assert(members_distinct(old_d));
                    assert(!is_member(old_d, uid@)) by {
                        if is_member(old_d, uid@) {
                            assert(is_member(old_devices[i as int].1, uid@));
                        }
                    }
                    lemma_join_one_slot(old_d, d, uid@, is_system);
                    slot = i as int;
                }
            },
            None => {},
        }
        let ghost new_devices = devices@;
        proof {
            lemma_lookup_push(old_users, uid, user);
            assert(slot == -1 ==> new_devices == old_devices);
            assert(slot != -1 ==> {
                &&& 0 <= slot < old_devices.len()
                &&& new_devices.len() == old_devices.len()
                &&& forall|k: int| 0 <= k < old_devices.len() && k != slot ==> new_devices[k] == old_devices[k]
                &&& new_devices[slot].0 == old_devices[slot].0
                &&& members_distinct(new_devices[slot].1)
                &&& forall|q: Seq<char>|
                    #[trigger] is_member(new_devices[slot].1, q) ==> q == uid@ || is_member(
                        old_devices[slot].1,
                        q,
                    )
            });
            assert forall|k: int| 0 <= k < new_devices.len() implies members_distinct(
                #[trigger] new_devices[k].1,
            ) by {
                if k != slot {
                    assert(new_devices[k] == old_devices[k]);
                }
            }
            assert forall|a: int, b: int, q: Seq<char>|
                0 <= a < new_devices.len() && 0 <= b < new_devices.len() && #[trigger] is_member(
                    new_devices[a].1,
                    q,
                ) && #[trigger] is_member(new_devices[b].1, q) implies a == b by {
                if a != slot {
                    assert(new_devices[a] == old_devices[a]);
                }
                if b != slot {
                    assert(new_devices[b] == old_devices[b]);
                }
                if a != b {
                    if q == uid@ {
                        if a != slot {
                            assert(is_member(old_devices[a].1, q));
                        } else {
                            assert(is_member(old_devices[b].1, q));
                        }
                    } else {
                        assert(is_member(old_devices[a].1, q));
                        assert(is_member(old_devices[b].1, q));
                    }
                }
            }
        }
        users.push((uid, user));
        self.users = users;
        proof {
            assert forall|a: int, b: int|
                #![trigger new_devices[a], new_devices[b]]
                0 <= a < new_devices.len() && 0 <= b < new_devices.len() && a != b implies new_devices[a].0@
                != new_devices[b].0@ by {
                assert(new_devices[a].0 == old_devices[a].0 && new_devices[b].0 == old_devices[b].0);
            }
            assert forall|j: int, q: Seq<char>|
                0 <= j < new_devices.len() && is_member(#[trigger] new_devices[j].1, q) implies #[trigger] has_key(
                self.users@,
                q,
            ) by {
                if q == uid@ {
                    lemma_lookup_at(self.users@, old_users.len() as int);
                } else {
                    if new_devices[j] != old_devices[j] {
                        assert(is_member(old_devices[j].1, q));
                    }
                    assert(has_key(old_users, q));
                    let w = key_index(old_users, q);
                    assert(self.users@[w] == old_users[w]);
                }
            }
        }
        self.devices = devices;
        Ok(())
    }
}

/// A user registered by `add_user` is found under its id, so registering
/// the same id again is refused.
pub proof fn lemma_added_user_is_found<U>(before: Seq<(String, U)>, uid: String, user: U)
    requires
        keys_unique(before),
        !has_key(before, uid@),
    ensures
        has_key(before.push((uid, user)), uid@),
        lookup(before.push((uid, user)), uid@) == Some(user),
{
    lemma_lookup_push(before, uid, user);
    lemma_lookup_at(before.push((uid, user)), before.len() as int);
}

/// In a user description, `is_system` must hold a boolean and every other
/// field a string; a refusal names the field, as a missing boolean exactly
/// when the field is `is_system`.
pub proof fn lemma_user_fields(name: String, v: ScriptValue, err: ConfigError)
    ensures
        name@ == "is_system"@ ==> (config_field_ok((name, v)) <==> v is Bool),
        name@ != "is_system"@ ==> (config_field_ok((name, v)) <==> v is Str),
        config_error_fits((name, v), err) <==> (err.name() == name@ && (err is NotBool <==> name@
            == "is_system"@)),
        system_flag(Some(v)) == (match v {
            ScriptValue::Bool(b) => Some(b),
            _ => None::<bool>,
        }),
{
}

} // verus!
