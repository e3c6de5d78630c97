use vstd::prelude::*;

use crate::backing::{key_rule_admits, rules_allow, KeyValueServer};
use crate::credentials::{last_wins, record_view, Credential, Request};
use crate::error::BrokerError;
use crate::store::CredentialStore;
use crate::strmap::{distinct_strings, lemma_string_set_step, string_set};
use crate::text::{comma_joined, copy_strings, decimal, decimal_text, has_prefix, join_commas, joined, owned, str_eq, strings_view};
use crate::timestamp::{issued_at_text, utc_timestamp_text};

verus! {

/// The key of the hash that maps each provisioned instance to its type.
pub open spec fn instances_key() -> Seq<char> {
    "instances"@
}

/// The key prefix under which an instance's application data lives.
pub open spec fn data_prefix(instance_id: Seq<char>) -> Seq<char> {
    "instances:"@ + instance_id + ":"@
}

/// The key of the hash that records an instance's bindings.
pub open spec fn bindings_key(instance_id: Seq<char>) -> Seq<char> {
    "instances:"@ + instance_id
}

/// A scope that this provider can grant.
pub open spec fn is_valid_scope(s: Seq<char>) -> bool {
    s == "read"@ || s == "write"@
}

/// The requested scopes, as strings.
pub open spec fn scopes_view(scopes: Option<Vec<String>>) -> Option<Seq<Seq<char>>> {
    match scopes {
        Some(v) => Some(strings_view(v@)),
        None => None,
    }
}

/// The scopes granted for a request: those requested, or read and write.
pub open spec fn granted_scopes(scopes: Option<Seq<Seq<char>>>) -> Seq<Seq<char>> {
    match scopes {
        Some(s) => s,
        None => seq!["read"@, "write"@],
    }
}

/// Every scope of the list can be granted.
pub open spec fn all_scopes_valid(scopes: Seq<Seq<char>>) -> bool {
    forall|i: int| 0 <= i < scopes.len() ==> is_valid_scope(#[trigger] scopes[i])
}

/// The command-category grant for one scope.
pub open spec fn category_rule(scope: Seq<char>) -> Seq<char> {
    "+@"@ + scope
}

/// The access-control rules of a binding's user: enabled, with its password,
/// one command category per scope, and keys confined to the instance prefix.
pub open spec fn acl_rules(password: Seq<char>, scopes: Seq<Seq<char>>, key_prefix: Seq<char>) -> Seq<Seq<char>> {
    seq!["on"@, ">"@ + password] + scopes.map_values(|s: Seq<char>| category_rule(s)) + seq!["~"@ + key_prefix + "*"@]
}

/// The credential record published for a binding.
pub open spec fn binding_record(
    hostname: Seq<char>,
    port: u16,
    binding_id: Seq<char>,
    password: Seq<char>,
    instance_id: Seq<char>,
    scopes: Seq<Seq<char>>,
    issued_at: Seq<char>,
) -> Seq<(Seq<char>, Seq<char>)> {
    seq![
        ("type"@, "valkey"@),
        ("hostname"@, hostname),
        ("port"@, decimal(port as nat)),
        ("username"@, binding_id),
        ("password"@, password),
        ("key-prefix"@, data_prefix(instance_id)),
        ("instance-id"@, instance_id),
        ("binding-id"@, binding_id),
        ("scopes"@, comma_joined(scopes)),
        ("issued-at"@, issued_at),
    ]
}

/// The rules of a binding's user let a client act only with the binding's
/// password, only on keys under the instance's data prefix, and only in the
/// command categories of the granted scopes.
pub proof fn lemma_binding_user_confined(
    password: Seq<char>,
    scopes: Seq<Seq<char>>,
    instance_id: Seq<char>,
    presented: Seq<char>,
    category: Seq<char>,
    key: Seq<char>,
)
    ensures
        rules_allow(acl_rules(password, scopes, data_prefix(instance_id)), presented, category, key) ==> {
            &&& presented == password
            &&& scopes.contains(category)
            &&& has_prefix(key, data_prefix(instance_id))
        },
{
    let prefix = data_prefix(instance_id);
    let rules = acl_rules(password, scopes, prefix);
    let n = scopes.len() as int;
    reveal_strlit("on");
    reveal_strlit(">");
    reveal_strlit("+@");
    reveal_strlit("~");
    reveal_strlit("*");
    assert(rules.len() == n + 3);
    assert(rules[0] == "on"@ && rules[1] == ">"@ + password);
    assert(rules[n + 2] == "~"@ + prefix + "*"@);
    assert forall|k: int| 2 <= k < n + 2 implies #[trigger] rules[k] == "+@"@ + scopes[k - 2] by {}
    if rules_allow(rules, presented, category, key) {
        let pass = ">"@ + presented;
        let cat = "+@"@ + category;
        let pi = choose|k: int| 0 <= k < rules.len() && rules[k] == pass;
        assert(pass[0] == '>');
        if pi == 0 {
            assert(rules[0][0] == 'o');
        } else if 2 <= pi < n + 2 {
            assert(rules[pi][0] == '+');
        } else if pi == n + 2 {
            assert(rules[pi][0] == '~');
        }
        assert(pi == 1);
        assert(presented =~= pass.subrange(1, pass.len() as int));
        assert(password =~= rules[1].subrange(1, rules[1].len() as int));
        let ci = choose|k: int| 0 <= k < rules.len() && rules[k] == cat;
        assert(cat[0] == '+');
        if ci == 0 {
            assert(rules[0][0] == 'o');
        } else if ci == 1 {
            assert(rules[1][0] == '>');
        } else if ci == n + 2 {
            assert(rules[ci][0] == '~');
        }
        assert(2 <= ci < n + 2);
        assert(category =~= cat.subrange(2, cat.len() as int));
        assert(scopes[ci - 2] =~= rules[ci].subrange(2, rules[ci].len() as int));
        assert(scopes[ci - 2] == category);
        let ki = choose|k: int| 0 <= k < rules.len() && key_rule_admits(#[trigger] rules[k], key);
        if ki == 0 {
            assert(rules[0][0] == 'o');
        } else if ki == 1 {
            assert(rules[1][0] == '>');
        } else if 2 <= ki < n + 2 {
            assert(rules[ki][0] == '+');
        }
        assert(ki == n + 2);
        let rule = rules[ki];
        let pattern = rule.subrange(1, rule.len() as int);
        assert(pattern =~= prefix + "*"@);
        assert(pattern.last() == '*');
        assert(pattern.drop_last() =~= prefix);
    }
}

/// A binding that asks for the write scope alone gets exactly one category
/// grant, `+@write`, and no `+@read`; one that asks for no scopes gets both.
pub proof fn lemma_scope_grants(password: Seq<char>, instance_id: Seq<char>)
    ensures
        acl_rules(password, granted_scopes(Some(seq!["write"@])), data_prefix(instance_id))
            == seq!["on"@, ">"@ + password, "+@write"@, "~"@ + data_prefix(instance_id) + "*"@],
        !acl_rules(password, granted_scopes(Some(seq!["write"@])), data_prefix(instance_id)).contains("+@read"@),
        acl_rules(password, granted_scopes(None), data_prefix(instance_id))
            == seq!["on"@, ">"@ + password, "+@read"@, "+@write"@, "~"@ + data_prefix(instance_id) + "*"@],
{
    reveal_strlit("on");
    reveal_strlit(">");
    reveal_strlit("+@");
    reveal_strlit("~");
    reveal_strlit("+@read");
    reveal_strlit("+@write");
    reveal_strlit("read");
    reveal_strlit("write");
    let p = data_prefix(instance_id);
    assert(category_rule("write"@) =~= "+@write"@);
    assert(category_rule("read"@) =~= "+@read"@);
    let w = acl_rules(password, granted_scopes(Some(seq!["write"@])), p);
    assert(w =~= seq!["on"@, ">"@ + password, "+@write"@, "~"@ + p + "*"@]);
    let d = acl_rules(password, granted_scopes(None), p);
    assert(d =~= seq!["on"@, ">"@ + password, "+@read"@, "+@write"@, "~"@ + p + "*"@]);
    assert(!w.contains("+@read"@)) by {
        if w.contains("+@read"@) {
            let k = choose|k: int| 0 <= k < w.len() && w[k] == "+@read"@;
            if k == 0 {
                assert(w[0].len() != "+@read"@.len());
            } else if k == 1 {
                assert(w[1][0] != "+@read"@[0]);
            } else if k == 2 {
                assert(w[2].len() != "+@read"@.len());
            } else {
                assert(w[3][0] != "+@read"@[0]);
            }
        }
    }
}

/// The scoped-credential provider: each binding gets a dynamic user of the
/// key-value service whose rights are confined to its instance's keys and to
/// the categories of its granted scopes.
pub struct ValkeyService {
    pub hostname: String,
    pub port: u16,
    pub server: KeyValueServer,
}

impl ValkeyService {
    /// The server model is well formed.
    pub open spec fn wf(&self) -> bool {
        self.server.wf()
    }

    /// A provider for the service at `hostname`:`port`, whose state is `server`.
    pub fn new(hostname: &str, port: u16, server: KeyValueServer) -> (r: ValkeyService)
        ensures
            r.hostname@ == hostname@,
            r.port == port,
            r.server == server,
    {
        ValkeyService { hostname: owned(hostname), port, server }
    }

    /// The key of the hash of provisioned instances.
    pub fn instances_hash_key() -> (r: String)
        ensures
            r@ == instances_key(),
    {
        owned("instances")
    }

    /// The key prefix of an instance's data.
    pub fn instance_data_key_prefix(instance_id: &str) -> (r: String)
        ensures
            r@ == data_prefix(instance_id@),
    {
        let a = joined("instances:", instance_id);
        joined(a.as_str(), ":")
    }

    /// The key of the hash of an instance's bindings.
    pub fn instance_bindings_hash_key(instance_id: &str) -> (r: String)
        ensures
            r@ == bindings_key(instance_id@),
    {
        joined("instances:", instance_id)
    }

    /// The scopes to grant: `scopes`, or read and write where none are given.
    /// Fails with `InvalidScope` where one is neither `read` nor `write`.
    pub fn resolve_scopes(scopes: Option<Vec<String>>) -> (r: Result<Vec<String>, BrokerError>)
        ensures
            r is Ok <==> all_scopes_valid(granted_scopes(scopes_view(scopes))),
            r matches Ok(v) ==> strings_view(v@) == granted_scopes(scopes_view(scopes)),
            r is Err ==> r->Err_0 is InvalidScope,
    {
        let ghost requested = scopes_view(scopes);
        let granted = match &scopes {
            Some(v) => copy_strings(v),
            None => {
                let mut v: Vec<String> = Vec::new();
                v.push(owned("read"));
                v.push(owned("write"));
                assert(strings_view(v@) =~= seq!["read"@, "write"@]);
                v
            },
        };
        let ghost g = strings_view(granted@);
        let mut i: usize = 0;
        while i < granted.len()
            invariant
                i <= granted@.len(),
                g == strings_view(granted@),
                g == granted_scopes(requested),
                requested == scopes_view(scopes),
                forall|k: int| 0 <= k < i ==> is_valid_scope(#[trigger] g[k]),
            decreases granted@.len() - i,
        {
            let s = granted[i].as_str();
            if !str_eq(s, "read") && !str_eq(s, "write") {
                assert(!is_valid_scope(g[i as int]));
                assert(!all_scopes_valid(granted_scopes(requested)));
                return Err(BrokerError::InvalidScope(owned(s)));
            }
            i = i + 1;
        }
        Ok(granted)
    }

    /// The access-control rules for a binding's user.
    pub fn acl_rules(password: &str, scopes: &Vec<String>, key_prefix: &str) -> (r: Vec<String>)
        ensures
            strings_view(r@) == acl_rules(password@, strings_view(scopes@), key_prefix@),
    {
        let mut rules: Vec<String> = Vec::new();
        rules.push(owned("on"));
        rules.push(joined(">", password));
        let mut i: usize = 0;
        while i < scopes.len()
            invariant
                i <= scopes@.len(),
                strings_view(rules@) == seq!["on"@, ">"@ + password@] + strings_view(scopes@).subrange(0, i as int).map_values(|s: Seq<char>| category_rule(s)),
            decreases scopes@.len() - i,
        {
            let ghost prev = strings_view(rules@);
            rules.push(joined("+@", scopes[i].as_str()));
            assert(strings_view(rules@) =~= prev.push(category_rule(strings_view(scopes@)[i as int])));
            i = i + 1;
            assert(strings_view(rules@) =~= seq!["on"@, ">"@ + password@] + strings_view(scopes@).subrange(0, i as int).map_values(|s: Seq<char>| category_rule(s)));
        }
        let p = joined("~", key_prefix);
        rules.push(joined(p.as_str(), "*"));
        assert(strings_view(scopes@).subrange(0, i as int) =~= strings_view(scopes@));
        assert(strings_view(rules@) =~= acl_rules(password@, strings_view(scopes@), key_prefix@));
        rules
    }

    /// Registers `instance_id` as a provisioned instance of type `valkey`.
    /// Only that type is accepted, and neither a tier nor requests.
    pub fn provision(&mut self, instance_id: &str, type_: &str, tier: Option<String>, requests: Option<Vec<Request>>) -> (r: Result<(), BrokerError>)
        requires
            old(self).wf(),
        ensures
            final(self).wf(),
            r is Ok <==> (type_@ == "valkey"@ && tier is None && requests is None),
            r is Err ==> r->Err_0 is Unsupported && *final(self) == *old(self),
            r is Ok ==> final(self).server.fields(instances_key()) == old(self).server.fields(instances_key()).insert(instance_id@),
            r is Ok ==> final(self).server.keys() == old(self).server.keys().insert(instances_key()),
            r is Ok ==> final(self).server.users() == old(self).server.users(),
            r is Ok ==> forall|h: Seq<char>| h != instances_key() ==> #[trigger] final(self).server.fields(h) == old(self).server.fields(h),
            r is Ok ==> final(self).server.strings_map() == old(self).server.strings_map(),
            r is Ok ==> final(self).server.hash_at(instances_key()) == Some(old(self).server.hash_or_empty(instances_key()).insert(instance_id@, "valkey"@)),
            r is Ok ==> forall|h: Seq<char>| h != instances_key() ==> #[trigger] final(self).server.hash_at(h) == old(self).server.hash_at(h),
    {
        if !str_eq(type_, "valkey") {
            return Err(BrokerError::Unsupported(owned("only 'valkey' types are supported")));
        }
        if tier.is_some() {
            return Err(BrokerError::Unsupported(owned("tier is not supported")));
        }
        if requests.is_some() {
            return Err(BrokerError::Unsupported(owned("requests are not supported")));
        }
        let key = Self::instances_hash_key();
        self.server.hset(key.as_str(), instance_id, "valkey");
        Ok(())
    }

    /// Nothing of a provisioned instance can be updated: succeeds exactly
    /// when neither a tier nor requests are given.
    pub fn update(&self, instance_id: &str, tier: Option<String>, requests: Option<Vec<Request>>) -> (r: Result<(), BrokerError>)
        ensures
            r is Ok <==> (tier is None && requests is None),
            r is Err ==> r->Err_0 is Unsupported,
    {
        if tier.is_some() {
            return Err(BrokerError::Unsupported(owned("tier is not supported")));
        }
        if requests.is_some() {
            return Err(BrokerError::Unsupported(owned("requests are not supported")));
        }
        Ok(())
    }

    /// Issues a binding: grants the scopes requested (read and write where
    /// none are), creates the binding's user, confined to the instance's key
    /// prefix and to the categories of its scopes, records the binding under
    /// the instance, and then publishes the connection credentials under
    /// `binding_id`. `password` is the generated password of the new user and
    /// `issued_at` the issuance time in seconds since the Unix epoch.
    pub fn bind(
        &mut self,
        store: &mut CredentialStore,
        binding_id: &str,
        instance_id: &str,
        scopes: Option<Vec<String>>,
        password: &str,
        issued_at: i64,
    ) -> (r: Result<(), BrokerError>)
        requires
            old(self).wf(),
            old(store).wf(),
        ensures
            final(self).wf(),
            final(store).wf(),
            r is Ok <==> all_scopes_valid(granted_scopes(scopes_view(scopes))) && utc_timestamp_text(issued_at as int) is Some,
            !all_scopes_valid(granted_scopes(scopes_view(scopes))) ==> r is Err && r->Err_0 is InvalidScope,
            r is Err ==> *final(self) == *old(self) && final(store).view() == old(store).view(),
            r is Ok ==> final(store).view() == old(store).view().insert(
                binding_id@,
                last_wins(binding_record(
                    old(self).hostname@,
                    old(self).port,
                    binding_id@,
                    password@,
                    instance_id@,
                    granted_scopes(scopes_view(scopes)),
                    utc_timestamp_text(issued_at as int)->Some_0,
                )),
            ),
            r is Ok ==> final(self).server.users() == old(self).server.users().insert(
                binding_id@,
                acl_rules(password@, granted_scopes(scopes_view(scopes)), data_prefix(instance_id@)),
            ),
            r is Ok ==> final(self).server.fields(bindings_key(instance_id@)) == old(self).server.fields(bindings_key(instance_id@)).insert(binding_id@),
            r is Ok ==> forall|h: Seq<char>| h != bindings_key(instance_id@) ==> #[trigger] final(self).server.fields(h) == old(self).server.fields(h),
            r is Ok ==> final(self).server.keys() == old(self).server.keys().insert(bindings_key(instance_id@)),
            final(self).hostname == old(self).hostname,
            final(self).port == old(self).port,
            r is Ok ==> final(self).server.strings_map() == old(self).server.strings_map(),
            r is Ok ==> final(self).server.hash_at(bindings_key(instance_id@)) == Some(old(self).server.hash_or_empty(bindings_key(instance_id@)).insert(binding_id@, "valkey"@)),
            r is Ok ==> forall|h: Seq<char>| h != bindings_key(instance_id@) ==> #[trigger] final(self).server.hash_at(h) == old(self).server.hash_at(h),
    {
        let granted = Self::resolve_scopes(scopes)?;
        let issued = issued_at_text(issued_at)?;
        let key_prefix = Self::instance_data_key_prefix(instance_id);
        let mut creds: Vec<Credential> = Vec::new();
        creds.push(Credential::new("type", "valkey"));
        creds.push(Credential::new("hostname", self.hostname.as_str()));
        creds.push(Credential::new("port", decimal_text(self.port).as_str()));
        creds.push(Credential::new("username", binding_id));
        creds.push(Credential::new("password", password));
        creds.push(Credential::new("key-prefix", key_prefix.as_str()));
        creds.push(Credential::new("instance-id", instance_id));
        creds.push(Credential::new("binding-id", binding_id));
        creds.push(Credential::new("scopes", join_commas(&granted).as_str()));
        creds.push(Credential::new("issued-at", issued.as_str()));
        assert(record_view(creds@) =~= binding_record(
            self.hostname@,
            self.port,
            binding_id@,
            password@,
            instance_id@,
            strings_view(granted@),
            issued@,
        ));
        let rules = Self::acl_rules(password, &granted, key_prefix.as_str());
        self.server.acl_setuser(binding_id, rules);
        let bindings = Self::instance_bindings_hash_key(instance_id);
        self.server.hset(bindings.as_str(), binding_id, "valkey");
        store.publish(binding_id, creds);
        Ok(())
    }

    /// Revokes a binding: deletes its user, removes it from the instance's
    /// bindings and destroys its published credentials.
    pub fn unbind(&mut self, store: &mut CredentialStore, binding_id: &str, instance_id: &str) -> (r: Result<(), BrokerError>)
        requires
            old(self).wf(),
            old(store).wf(),
        ensures
            final(self).wf(),
            final(store).wf(),
            r is Ok,
            final(self).server.users() == old(self).server.users().remove(binding_id@),
            final(self).server.fields(bindings_key(instance_id@)) == old(self).server.fields(bindings_key(instance_id@)).remove(binding_id@),
            forall|h: Seq<char>| h != bindings_key(instance_id@) ==> #[trigger] final(self).server.fields(h) == old(self).server.fields(h),
            final(self).server.keys() == old(self).server.keys(),
            final(store).view() == old(store).view().remove(binding_id@),
            final(self).hostname == old(self).hostname,
            final(self).port == old(self).port,
            final(self).server.strings_map() == old(self).server.strings_map(),
            final(self).server.hash_at(bindings_key(instance_id@)) == (match old(self).server.hash_at(bindings_key(instance_id@)) {
                Some(m) => Some(m.remove(binding_id@)),
                None => None,
            }),
            forall|h: Seq<char>| h != bindings_key(instance_id@) ==> #[trigger] final(self).server.hash_at(h) == old(self).server.hash_at(h),
    {
        self.server.acl_deluser(binding_id);
        let bindings = Self::instance_bindings_hash_key(instance_id);
        self.server.hdel(bindings.as_str(), binding_id);
        store.destroy(binding_id);
        Ok(())
    }

    /// The bindings recorded for an instance, each once.
    pub fn list_bindings(&self, instance_id: &str) -> (r: Result<Vec<String>, BrokerError>)
        requires
            self.wf(),
        ensures
            r is Ok,
            r matches Ok(v) ==> distinct_strings(v@) && string_set(v@) == self.server.fields(bindings_key(instance_id@)),
    {
        let bindings = Self::instance_bindings_hash_key(instance_id);
        Ok(self.server.hkeys(bindings.as_str()))
    }

    /// Destroys an instance: revokes every remaining binding, removes the
    /// instance from the hash of instances and, unless `retain` is set,
    /// deletes every key under the instance's data prefix.
    pub fn destroy(&mut self, store: &mut CredentialStore, instance_id: &str, retain: Option<bool>) -> (r: Result<(), BrokerError>)
        requires
            old(self).wf(),
            old(store).wf(),
        ensures
            final(self).wf(),
            final(store).wf(),
            r is Ok,
            final(self).server.fields(bindings_key(instance_id@)) == Set::<Seq<char>>::empty(),
            final(self).server.fields(instances_key()) == old(self).server.fields(instances_key()).remove(instance_id@),
            final(self).server.users() == old(self).server.users().remove_keys(old(self).server.fields(bindings_key(instance_id@))),
            final(store).view() == old(store).view().remove_keys(old(self).server.fields(bindings_key(instance_id@))),
            retain == Some(true) ==> final(self).server.keys() == old(self).server.keys(),
            retain != Some(true) ==> final(self).server.keys() == old(self).server.keys().filter(|k: Seq<char>| !has_prefix(k, data_prefix(instance_id@))),
            final(self).hostname == old(self).hostname,
            final(self).port == old(self).port,
            final(self).server.hash_at(instances_key()) == (match old(self).server.hash_at(instances_key()) {
                Some(m) => Some(m.remove(instance_id@)),
                None => None,
            }),
            forall|h: Seq<char>|
                h != bindings_key(instance_id@) && h != instances_key() && (retain == Some(true) || !has_prefix(h, data_prefix(instance_id@)))
                    ==> #[trigger] final(self).server.hash_at(h) == old(self).server.hash_at(h),
            retain == Some(true) ==> final(self).server.strings_map() == old(self).server.strings_map(),
            retain != Some(true) ==> final(self).server.strings_map() == old(self).server.strings_map().restrict(
                old(self).server.strings_map().dom().filter(|k: Seq<char>| !has_prefix(k, data_prefix(instance_id@))),
            ),
    {
        let ghost s0 = self.server;
        let ghost st0 = store.view();
        let ghost bk = bindings_key(instance_id@);
        proof {
            reveal_strlit("instances");
            reveal_strlit("instances:");
            reveal_strlit(":");
        }
        let bindings = match self.list_bindings(instance_id) {
            Ok(v) => v,
            Err(e) => {
                return Err(e);
            },
        };
        let ghost mut done: Set<Seq<char>> = Set::empty();
        let mut k: usize = 0;
        while k < bindings.len()
            invariant
                self.wf(),
                store.wf(),
                k <= bindings@.len(),
                string_set(bindings@) == s0.fields(bk),
                done == string_set(bindings@.subrange(0, k as int)),
                self.server.fields(bk) == s0.fields(bk).difference(done),
                self.server.users() == s0.users().remove_keys(done),
                store.view() == st0.remove_keys(done),
                self.server.keys() == s0.keys(),
                forall|h: Seq<char>| h != bk ==> #[trigger] self.server.fields(h) == s0.fields(h),
                self.server.strings_map() == s0.strings_map(),
                forall|h: Seq<char>| h != bk ==> #[trigger] self.server.hash_at(h) == s0.hash_at(h),
                self.hostname == old(self).hostname,
                self.port == old(self).port,
                s0 == old(self).server,
                st0 == old(store).view(),
                bk == bindings_key(instance_id@),
            decreases bindings@.len() - k,
        {
            let _ = self.unbind(store, bindings[k].as_str(), instance_id);
            proof {
                let b = bindings@[k as int]@;
                let next = done.insert(b);
                assert(self.server.fields(bk) =~= s0.fields(bk).difference(next));
                assert(self.server.users() =~= s0.users().remove_keys(next));
                assert(store.view() =~= st0.remove_keys(next));
                lemma_string_set_step(bindings@, k as int);
                done = next;
            }
            k = k + 1;
        }
        proof {
            assert(bindings@.subrange(0, k as int) =~= bindings@);
            assert(self.server.fields(bk) =~= Set::<Seq<char>>::empty());
        }
        let instances = Self::instances_hash_key();
        self.server.hdel(instances.as_str(), instance_id);
        let ghost s1 = self.server;
        let keep = match retain {
            Some(b) => b,
            None => false,
        };
        if !keep {
            let prefix = Self::instance_data_key_prefix(instance_id);
            let doomed = self.server.keys_with_prefix(prefix.as_str());
            let ghost mut gone: Set<Seq<char>> = Set::empty();
            let mut j: usize = 0;
            while j < doomed.len()
                invariant
                    self.wf(),
                    j <= doomed@.len(),
                    string_set(doomed@) == s1.keys().filter(|x: Seq<char>| has_prefix(x, data_prefix(instance_id@))),
                    gone == string_set(doomed@.subrange(0, j as int)),
                    self.server.keys() == s1.keys().difference(gone),
                    self.server.users() == s1.users(),
                    forall|h: Seq<char>| !has_prefix(h, data_prefix(instance_id@)) ==> #[trigger] self.server.fields(h) == s1.fields(h),
                    self.server.strings_map() == s1.strings_map().remove_keys(gone),
                    forall|h: Seq<char>| !has_prefix(h, data_prefix(instance_id@)) ==> #[trigger] self.server.hash_at(h) == s1.hash_at(h),
                    self.hostname == old(self).hostname,
                    self.port == old(self).port,
                    prefix@ == data_prefix(instance_id@),
                decreases doomed@.len() - j,
            {
                self.server.del(doomed[j].as_str());
                proof {
                    let x = doomed@[j as int]@;
                    assert(string_set(doomed@).contains(x));
                    let next = gone.insert(x);
                    assert(self.server.keys() =~= s1.keys().difference(next));
                    assert(self.server.strings_map() =~= s1.strings_map().remove_keys(next));
                    lemma_string_set_step(doomed@, j as int);
                    gone = next;
                }
                j = j + 1;
            }
            proof {
                assert(doomed@.subrange(0, j as int) =~= doomed@);
                assert(self.server.keys() =~= s0.keys().filter(|x: Seq<char>| !has_prefix(x, data_prefix(instance_id@))));
                assert(s1.strings_map() == s0.strings_map());
                s1.lemma_strings_are_keys();
                assert(gone == s1.keys().filter(|x: Seq<char>| has_prefix(x, data_prefix(instance_id@))));
                assert(self.server.strings_map() =~= s0.strings_map().restrict(
                    s0.strings_map().dom().filter(|k: Seq<char>| !has_prefix(k, data_prefix(instance_id@))),
                ));
                assert(!has_prefix(bk, data_prefix(instance_id@)));
                assert(!has_prefix(instances_key(), data_prefix(instance_id@)));
            }
        }
        proof {
            assert(instances_key() != bk) by {
                assert(instances_key().len() != bk.len());
            }
            assert(self.server.fields(instances_key()) =~= s0.fields(instances_key()).remove(instance_id@));
        }
        Ok(())
    }
}

} // verus!
