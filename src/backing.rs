use vstd::prelude::*;
use vstd::string::*;

use crate::strmap::{string_set, StrMap};
use crate::error::BrokerError;
use crate::ids::{hex_char, hex_digit};
use crate::text::{copy_strings, has_prefix, joined, owned, push_char, starts_with, str_eq, strings_view};

verus! {

/// An in-memory model of the Redis-protocol key-value service that the
/// scoped-credential provider manages: string keys, hashes and access-control
/// users, with the semantics of the commands the provider issues.
pub struct KeyValueServer {
    strings: StrMap<String>,
    hashes: StrMap<StrMap<String>>,
    users: StrMap<Vec<String>>,
}

/// A key rule (`~pattern`) admits `key`: a pattern ending in `*` admits the
/// keys that start with the rest of it, any other pattern the key it spells.
pub open spec fn key_rule_admits(rule: Seq<char>, key: Seq<char>) -> bool {
    &&& rule.len() >= 1
    &&& rule[0] == '~'
    &&& {
        let pattern = rule.subrange(1, rule.len() as int);
        if pattern.len() > 0 && pattern.last() == '*' {
            has_prefix(key, pattern.drop_last())
        } else {
            key == pattern
        }
    }
}

/// The rules let a client that presents `password` run commands of
/// `category` on `key`: the user is enabled, has that password and that
/// category, and one of its key rules admits the key.
pub open spec fn rules_allow(rules: Seq<Seq<char>>, password: Seq<char>, category: Seq<char>, key: Seq<char>) -> bool {
    &&& rules.contains("on"@)
    &&& rules.contains(">"@ + password)
    &&& rules.contains("+@"@ + category)
    &&& exists|i: int| 0 <= i < rules.len() && key_rule_admits(#[trigger] rules[i], key)
}

fn contains_string(items: &Vec<String>, s: &str) -> (r: bool)
    ensures
        r == strings_view(items@).contains(s@),
{
    let mut i: usize = 0;
    while i < items.len()
        invariant
            i <= items@.len(),
            forall|k: int| 0 <= k < i ==> items@[k]@ != s@,
        decreases items@.len() - i,
    {
        if str_eq(items[i].as_str(), s) {
            assert(strings_view(items@)[i as int] == s@);
            return true;
        }
        i = i + 1;
    }
    assert(!strings_view(items@).contains(s@)) by {
        if strings_view(items@).contains(s@) {
            let k = choose|k: int| 0 <= k < strings_view(items@).len() && strings_view(items@)[k] == s@;
            assert(items@[k]@ == s@);
        }
    }
    false
}

fn key_rule_admits_exec(rule: &str, key: &str) -> (r: bool)
    ensures
        r == key_rule_admits(rule@, key@),
{
    let n = rule.unicode_len();
    if n < 1 || rule.get_char(0) != '~' {
        return false;
    }
    let pattern = rule.substring_char(1, n);
    let m = n - 1;
    if m > 0 && pattern.get_char(m - 1) == '*' {
        starts_with(key, pattern.substring_char(0, m - 1))
    } else {
        str_eq(key, pattern)
    }
}

fn rules_allow_exec(rules: &Vec<String>, password: &str, category: &str, key: &str) -> (r: bool)
    ensures
        r == rules_allow(strings_view(rules@), password@, category@, key@),
{
    let pass_rule = joined(">", password);
    let category_rule = joined("+@", category);
    if !contains_string(rules, "on") || !contains_string(rules, pass_rule.as_str()) || !contains_string(rules, category_rule.as_str()) {
        return false;
    }
    let ghost rv = strings_view(rules@);
    let mut i: usize = 0;
    while i < rules.len()
        invariant
            rv == strings_view(rules@),
            i <= rules@.len(),
            rv.contains("on"@),
            rv.contains(">"@ + password@),
            rv.contains("+@"@ + category@),
            forall|k: int| 0 <= k < i ==> !key_rule_admits(#[trigger] rv[k], key@),
        decreases rules@.len() - i,
    {
        if key_rule_admits_exec(rules[i].as_str(), key) {
            assert(key_rule_admits(rv[i as int], key@));
            return true;
        }
        i = i + 1;
    }
    false
}

/// The bytes in lowercase hexadecimal, two digits each, high digit first.
pub open spec fn hex_text(bytes: Seq<u8>) -> Seq<char> {
    Seq::new(2 * bytes.len(), |p: int| if p % 2 == 0 { hex_char(bytes[p / 2] / 16) } else { hex_char(bytes[p / 2] % 16) })
}

impl KeyValueServer {
    /// All maps, the inner ones included, are well formed.
    pub closed spec fn wf(&self) -> bool {
        &&& self.strings.wf()
        &&& self.hashes.wf()
        &&& self.users.wf()
        &&& forall|h: Seq<char>| #[trigger] self.hashes.view().contains_key(h) ==> self.hashes.view()[h].wf()
    }

    /// Every key of the keyspace: string keys and hash keys.
    pub closed spec fn keys(&self) -> Set<Seq<char>> {
        self.strings.view().dom().union(self.hashes.view().dom())
    }

    /// The field names of the hash at `hash`; empty where there is none.
    pub closed spec fn fields(&self, hash: Seq<char>) -> Set<Seq<char>> {
        if self.hashes.view().contains_key(hash) {
            self.hashes.view()[hash].view().dom()
        } else {
            Set::empty()
        }
    }

    /// The value of field `field` of the hash at `hash`.
    pub closed spec fn field_value(&self, hash: Seq<char>, field: Seq<char>) -> Seq<char> {
        self.hashes.view()[hash].view()[field]@
    }

    /// The string values, by key.
    pub closed spec fn strings_map(&self) -> Map<Seq<char>, Seq<char>> {
        self.strings.view().map_values(|v: String| v@)
    }

    /// The fields and values of the hash at `hash`; `None` where there is none.
    pub closed spec fn hash_at(&self, hash: Seq<char>) -> Option<Map<Seq<char>, Seq<char>>> {
        if self.hashes.view().contains_key(hash) {
            Some(self.hashes.view()[hash].view().map_values(|v: String| v@))
        } else {
            None
        }
    }

    /// The fields and values of the hash at `hash`; empty where there is none.
    pub open spec fn hash_or_empty(&self, hash: Seq<char>) -> Map<Seq<char>, Seq<char>> {
        match self.hash_at(hash) {
            Some(m) => m,
            None => Map::empty(),
        }
    }

    /// The string value stored under `key`.
    pub closed spec fn string_value(&self, key: Seq<char>) -> Option<Seq<char>> {
        if self.strings.view().contains_key(key) {
            Some(self.strings.view()[key]@)
        } else {
            None
        }
    }

    /// Every key with a string value is a key of the keyspace.
    pub proof fn lemma_strings_are_keys(&self)
        ensures
            self.strings_map().dom().subset_of(self.keys()),
    {
    }

    /// The access-control rules of each user.
    pub closed spec fn users(&self) -> Map<Seq<char>, Seq<Seq<char>>> {
        self.users.view().map_values(|v: Vec<String>| strings_view(v@))
    }

    /// An empty server.
    pub fn new() -> (r: KeyValueServer)
        ensures
            r.wf(),
            r.keys() == Set::<Seq<char>>::empty(),
            r.users() == Map::<Seq<char>, Seq<Seq<char>>>::empty(),
            forall|h: Seq<char>| #[trigger] r.fields(h) == Set::<Seq<char>>::empty(),
    {
        let r = KeyValueServer { strings: StrMap::new(), hashes: StrMap::new(), users: StrMap::new() };
        assert(r.keys() =~= Set::<Seq<char>>::empty());
        assert(r.users() =~= Map::<Seq<char>, Seq<Seq<char>>>::empty());
        r
    }

    /// SET: stores a string value under `key`.
    pub fn set(&mut self, key: &str, value: &str)
        requires
            old(self).wf(),
        ensures
            final(self).wf(),
            final(self).keys() == old(self).keys().insert(key@),
            final(self).users() == old(self).users(),
            forall|h: Seq<char>| #[trigger] final(self).fields(h) == old(self).fields(h),
            final(self).strings_map() == old(self).strings_map().insert(key@, value@),
            forall|h: Seq<char>| #[trigger] final(self).hash_at(h) == old(self).hash_at(h),
    {
        self.strings.insert(key, owned(value));
        assert(self.keys() =~= old(self).keys().insert(key@));
    }

    /// HSET: sets field `field` of the hash at `hash` to `value`.
    pub fn hset(&mut self, hash: &str, field: &str, value: &str)
        requires
            old(self).wf(),
        ensures
            final(self).wf(),
            final(self).keys() == old(self).keys().insert(hash@),
            final(self).users() == old(self).users(),
            final(self).fields(hash@) == old(self).fields(hash@).insert(field@),
            final(self).field_value(hash@, field@) == value@,
            forall|h: Seq<char>| h != hash@ ==> #[trigger] final(self).fields(h) == old(self).fields(h),
            final(self).strings_map() == old(self).strings_map(),
            final(self).hash_at(hash@) == Some(old(self).hash_or_empty(hash@).insert(field@, value@)),
            forall|h: Seq<char>| h != hash@ ==> #[trigger] final(self).hash_at(h) == old(self).hash_at(h),
    {
        let ghost before = *self;
        let mut inner = match self.hashes.remove(hash) {
            Some(m) => m,
            None => StrMap::new(),
        };
        inner.insert(field, owned(value));
        self.hashes.insert(hash, inner);
        proof {
            assert(self.keys() =~= before.keys().insert(hash@));
            assert(self.fields(hash@) =~= before.fields(hash@).insert(field@));
            assert forall|h: Seq<char>| h != hash@ implies #[trigger] self.fields(h) == before.fields(h) by {}
        }
    }

    /// HDEL: removes field `field` from the hash at `hash`.
    pub fn hdel(&mut self, hash: &str, field: &str)
        requires
            old(self).wf(),
        ensures
            final(self).wf(),
            final(self).keys() == old(self).keys(),
            final(self).users() == old(self).users(),
            final(self).fields(hash@) == old(self).fields(hash@).remove(field@),
            forall|h: Seq<char>| h != hash@ ==> #[trigger] final(self).fields(h) == old(self).fields(h),
            final(self).strings_map() == old(self).strings_map(),
            final(self).hash_at(hash@) == (match old(self).hash_at(hash@) {
                Some(m) => Some(m.remove(field@)),
                None => None,
            }),
            forall|h: Seq<char>| h != hash@ ==> #[trigger] final(self).hash_at(h) == old(self).hash_at(h),
    {
        let ghost before = *self;
        match self.hashes.remove(hash) {
            Some(m) => {
                let mut inner = m;
                let _ = inner.remove(field);
                self.hashes.insert(hash, inner);
                proof {
                    assert(self.fields(hash@) =~= before.fields(hash@).remove(field@));
                }
            },
            None => {
                proof {
                    assert(self.hashes.view() =~= before.hashes.view());
                    assert(self.fields(hash@) =~= before.fields(hash@).remove(field@));
                }
            },
        }
        proof {
            assert forall|h: Seq<char>| h != hash@ implies #[trigger] self.fields(h) == before.fields(h) by {}
            assert(self.keys() =~= before.keys());
        }
    }

    /// HKEYS: the field names of the hash at `hash`, each once.
    pub fn hkeys(&self, hash: &str) -> (r: Vec<String>)
        requires
            self.wf(),
        ensures
            crate::strmap::distinct_strings(r@),
            string_set(r@) == self.fields(hash@),
    {
        match self.hashes.get(hash) {
            Some(m) => m.keys(),
            None => {
                let r: Vec<String> = Vec::new();
                assert(string_set(r@) =~= self.fields(hash@));
                r
            },
        }
    }

    /// KEYS with the pattern `<prefix>*`: every key that starts with `prefix`.
    pub fn keys_with_prefix(&self, prefix: &str) -> (r: Vec<String>)
        requires
            self.wf(),
        ensures
            string_set(r@) == self.keys().filter(|k: Seq<char>| has_prefix(k, prefix@)),
    {
        let mut r: Vec<String> = Vec::new();
        assert(string_set(r@) =~= Set::<Seq<char>>::empty());
        collect_with_prefix(&self.strings.keys(), prefix, &mut r);
        collect_with_prefix(&self.hashes.keys(), prefix, &mut r);
        assert(string_set(r@) =~= self.keys().filter(|k: Seq<char>| has_prefix(k, prefix@)));
        r
    }

    /// DEL: removes `key`, whatever it holds.
    pub fn del(&mut self, key: &str)
        requires
            old(self).wf(),
        ensures
            final(self).wf(),
            final(self).keys() == old(self).keys().remove(key@),
            final(self).users() == old(self).users(),
            final(self).fields(key@) == Set::<Seq<char>>::empty(),
            forall|h: Seq<char>| h != key@ ==> #[trigger] final(self).fields(h) == old(self).fields(h),
            final(self).strings_map() == old(self).strings_map().remove(key@),
            final(self).hash_at(key@) is None,
            forall|h: Seq<char>| h != key@ ==> #[trigger] final(self).hash_at(h) == old(self).hash_at(h),
    {
        let ghost before = *self;
        let _ = self.strings.remove(key);
        let _ = self.hashes.remove(key);
        proof {
            assert(self.keys() =~= before.keys().remove(key@));
            assert(self.fields(key@) =~= Set::<Seq<char>>::empty());
            assert forall|h: Seq<char>| h != key@ implies #[trigger] self.fields(h) == before.fields(h) by {}
        }
    }

    /// SET on behalf of a client authenticated as `user` with `password`:
    /// refused unless the user's rules allow the write category on `key`.
    pub fn set_as(&mut self, user: &str, password: &str, key: &str, value: &str) -> (r: Result<(), BrokerError>)
        requires
            old(self).wf(),
        ensures
            final(self).wf(),
            r is Ok <==> old(self).users().contains_key(user@) && rules_allow(old(self).users()[user@], password@, "write"@, key@),
            r is Err ==> *final(self) == *old(self) && r->Err_0 is BackendError,
            r is Ok ==> final(self).keys() == old(self).keys().insert(key@),
            final(self).users() == old(self).users(),
            forall|h: Seq<char>| #[trigger] final(self).fields(h) == old(self).fields(h),
            r is Ok ==> final(self).strings_map() == old(self).strings_map().insert(key@, value@),
            forall|h: Seq<char>| #[trigger] final(self).hash_at(h) == old(self).hash_at(h),
    {
        let allowed = match self.users.get(user) {
            Some(rules) => rules_allow_exec(rules, password, "write", key),
            None => false,
        };
        if !allowed {
            return Err(BrokerError::BackendError(owned("NOPERM this user has no permissions to access this key")));
        }
        self.set(key, value);
        Ok(())
    }

    /// GET on behalf of a client authenticated as `user` with `password`:
    /// refused unless the user's rules allow the read category on `key`.
    pub fn get_as(&self, user: &str, password: &str, key: &str) -> (r: Result<Option<String>, BrokerError>)
        requires
            self.wf(),
        ensures
            r is Ok <==> self.users().contains_key(user@) && rules_allow(self.users()[user@], password@, "read"@, key@),
            r is Err ==> r->Err_0 is BackendError,
            r matches Ok(Some(v)) ==> self.string_value(key@) == Some(v@),
            r matches Ok(None) ==> self.string_value(key@) is None,
    {
        let allowed = match self.users.get(user) {
            Some(rules) => rules_allow_exec(rules, password, "read", key),
            None => false,
        };
        if !allowed {
            return Err(BrokerError::BackendError(owned("NOPERM this user has no permissions to access this key")));
        }
        match self.strings.get(key) {
            Some(v) => Ok(Some(owned(v.as_str()))),
            None => Ok(None),
        }
    }

    /// ACL SETUSER for a user: its rule list becomes `rules`.
    pub fn acl_setuser(&mut self, name: &str, rules: Vec<String>)
        requires
            old(self).wf(),
        ensures
            final(self).wf(),
            final(self).users() == old(self).users().insert(name@, strings_view(rules@)),
            final(self).keys() == old(self).keys(),
            forall|h: Seq<char>| #[trigger] final(self).fields(h) == old(self).fields(h),
            final(self).strings_map() == old(self).strings_map(),
            forall|h: Seq<char>| #[trigger] final(self).hash_at(h) == old(self).hash_at(h),
    {
        let ghost before = self.users();
        let ghost r = rules;
        self.users.insert(name, rules);
        assert(self.users() =~= before.insert(name@, strings_view(r@)));
    }

    /// ACL DELUSER: removes the user `name`.
    pub fn acl_deluser(&mut self, name: &str)
        requires
            old(self).wf(),
        ensures
            final(self).wf(),
            final(self).users() == old(self).users().remove(name@),
            final(self).keys() == old(self).keys(),
            forall|h: Seq<char>| #[trigger] final(self).fields(h) == old(self).fields(h),
            final(self).strings_map() == old(self).strings_map(),
            forall|h: Seq<char>| #[trigger] final(self).hash_at(h) == old(self).hash_at(h),
    {
        let ghost before = self.users();
        let _ = self.users.remove(name);
        assert(self.users() =~= before.remove(name@));
    }

    /// ACL GENPASS: the password made of `random`, 256 bits drawn by the
    /// caller, as 64 lowercase hexadecimal digits.
    pub fn acl_genpass(random: &[u8; 32]) -> (r: String)
        ensures
            r@ == hex_text(random@),
    {
        let mut out = String::new();
        let mut i: usize = 0;
        while i < 32
            invariant
                i <= 32,
                random@.len() == 32,
                out@.len() == 2 * i,
                forall|k: int| 0 <= k < 2 * i ==> #[trigger] out@[k] == hex_text(random@)[k],
            decreases 32 - i,
        {
            let b = random[i];
            push_char(&mut out, hex_digit(b / 16));
            push_char(&mut out, hex_digit(b % 16));
            i = i + 1;
        }
        assert(out@ =~= hex_text(random@));
        out
    }

    /// ACL GETUSER: the rules of the user `name`.
    pub fn acl_getuser(&self, name: &str) -> (r: Option<Vec<String>>)
        requires
            self.wf(),
        ensures
            r matches Some(v) ==> self.users().contains_key(name@) && strings_view(v@) == self.users()[name@],
            r is None ==> !self.users().contains_key(name@),
    {
        match self.users.get(name) {
            Some(v) => Some(copy_strings(v)),
            None => None,
        }
    }
}

/// Appends to `out` the strings of `items` that start with `prefix`.
fn collect_with_prefix(items: &Vec<String>, prefix: &str, out: &mut Vec<String>)
    ensures
        string_set(final(out)@) == string_set(old(out)@).union(string_set(items@).filter(|k: Seq<char>| has_prefix(k, prefix@))),
{
    let ghost start = out@;
    let mut i: usize = 0;
    while i < items.len()
        invariant
            i <= items@.len(),
            forall|k: Seq<char>| #[trigger] string_set(out@).contains(k) <==> (string_set(start).contains(k) || exists|m: int| 0 <= m < i && #[trigger] items@[m]@ == k && has_prefix(k, prefix@)),
        decreases items@.len() - i,
    {
        let ghost before = out@;
        if starts_with(items[i].as_str(), prefix) {
            out.push(owned(items[i].as_str()));
        }
        proof {
            assert forall|k: Seq<char>| #[trigger] string_set(out@).contains(k) <==> (string_set(start).contains(k) || exists|m: int| 0 <= m < i + 1 && #[trigger] items@[m]@ == k && has_prefix(k, prefix@)) by {
                if string_set(out@).contains(k) {
                    let j = choose|j: int| 0 <= j < out@.len() && #[trigger] out@[j]@ == k;
                    if j < before.len() {
                        assert(before[j]@ == k);
                        assert(string_set(before).contains(k));
                    }
                }
                if string_set(start).contains(k) {
                    assert(string_set(before).contains(k));
                    let j = choose|j: int| 0 <= j < before.len() && #[trigger] before[j]@ == k;
                    assert(out@[j]@ == k);
                }
                if exists|m: int| 0 <= m < i + 1 && #[trigger] items@[m]@ == k && has_prefix(k, prefix@) {
                    let m = choose|m: int| 0 <= m < i + 1 && #[trigger] items@[m]@ == k && has_prefix(k, prefix@);
                    if m < i {
                        assert(string_set(before).contains(k));
                        let j = choose|j: int| 0 <= j < before.len() && #[trigger] before[j]@ == k;
                        assert(out@[j]@ == k);
                    } else {
                        assert(out@[out@.len() - 1]@ == k);
                    }
                }
            }
        }
        i = i + 1;
    }
    assert(string_set(out@) =~= string_set(start).union(string_set(items@).filter(|k: Seq<char>| has_prefix(k, prefix@))));
}

} // verus!
