use vstd::prelude::*;

use crate::backing::KeyValueServer;
use crate::credentials::{find_value, has_entry, last_wins, lemma_pairs_map_entry, record_value, record_view, Credential, Request};
use crate::error::BrokerError;
use crate::filesystem::{fs_binding_record, FilesystemService};
use crate::ids::{generated_binding, instance_of, is_binding_shape, is_instance_shape, uuid_text, UuidIds};
use crate::store::{record_or_empty, CredentialStore};
use crate::strmap::{distinct_keys, distinct_strings, pairs_map, string_set};
use crate::text::{has_prefix, owned, str_eq};
use crate::timestamp::utc_timestamp_text;
use crate::valkey::{acl_rules, all_scopes_valid, binding_record, bindings_key, data_prefix, granted_scopes, instances_key, scopes_view, ValkeyService};

verus! {

/// The backend providers that a service type can select.
#[derive(PartialEq, Eq, Structural, Clone, Copy, Debug)]
pub enum LifecycleType {
    Filesystem,
    Keyvalue,
}

/// The provider registered for a service type tag.
pub open spec fn service_kind(type_: Seq<char>) -> Option<LifecycleType> {
    if type_ == "filesystem"@ {
        Some(LifecycleType::Filesystem)
    } else if type_ == "valkey"@ {
        Some(LifecycleType::Keyvalue)
    } else {
        None
    }
}

/// The `type` entry of the record published under `id`.
pub open spec fn stored_type(records: Map<Seq<char>, Map<Seq<char>, Seq<char>>>, id: Seq<char>) -> Option<Seq<char>> {
    record_value(record_or_empty(records, id), "type"@)
}

/// The type record that marks a provisioned instance.
pub open spec fn type_record(type_: Seq<char>) -> Seq<(Seq<char>, Seq<char>)> {
    seq![("type"@, type_)]
}

/// The record names `instance_id` under `instance-id` and `binding_id` under `binding-id`.
pub open spec fn names_ids(record: Map<Seq<char>, Seq<char>>, instance_id: Seq<char>, binding_id: Seq<char>) -> bool {
    record_value(record, "instance-id"@) == Some(instance_id) && record_value(record, "binding-id"@) == Some(binding_id)
}

/// The records that both providers publish at bind time name the instance
/// and the binding they were issued for.
pub proof fn lemma_binding_records_name_ids(
    base: Seq<char>,
    hostname: Seq<char>,
    port: u16,
    binding_id: Seq<char>,
    password: Seq<char>,
    instance_id: Seq<char>,
    scopes: Seq<Seq<char>>,
    issued_at: Seq<char>,
)
    ensures
        names_ids(last_wins(fs_binding_record(base, binding_id, instance_id, issued_at)), instance_id, binding_id),
        names_ids(last_wins(binding_record(hostname, port, binding_id, password, instance_id, scopes, issued_at)), instance_id, binding_id),
        record_value(last_wins(fs_binding_record(base, binding_id, instance_id, issued_at)), "type"@) == Some("filesystem"@),
        record_value(last_wins(binding_record(hostname, port, binding_id, password, instance_id, scopes, issued_at)), "type"@) == Some("valkey"@),
{
    reveal_strlit("type");
    reveal_strlit("path");
    reveal_strlit("instance-id");
    reveal_strlit("binding-id");
    reveal_strlit("hostname");
    reveal_strlit("port");
    reveal_strlit("username");
    reveal_strlit("password");
    reveal_strlit("key-prefix");
    reveal_with_fuel(last_wins, 11);
    assert("type"@.len() == 4 && "path"@.len() == 4 && "instance-id"@.len() == 11 && "binding-id"@.len() == 10);
    assert("hostname"@.len() == 8 && "port"@.len() == 4 && "username"@.len() == 8 && "password"@.len() == 8);
    assert("key-prefix"@.len() == 10 && "key-prefix"@[0] == 'k' && "binding-id"@[0] == 'b');
    reveal_strlit("issued-at");
    reveal_strlit("scopes");
    assert("issued-at"@.len() == 9 && "scopes"@.len() == 6);
    let f = fs_binding_record(base, binding_id, instance_id, issued_at);
    assert(f.drop_last() =~= f.subrange(0, 4));
    assert(f.subrange(0, 4).drop_last() =~= f.subrange(0, 3));
    assert(f.subrange(0, 3).drop_last() =~= f.subrange(0, 2));
    assert(f.subrange(0, 2).drop_last() =~= f.subrange(0, 1));
    assert(f.subrange(0, 1).drop_last() =~= f.subrange(0, 0));
    let v = binding_record(hostname, port, binding_id, password, instance_id, scopes, issued_at);
    assert(v.drop_last() =~= v.subrange(0, 9));
    assert(v.subrange(0, 9).drop_last() =~= v.subrange(0, 8));
    assert(v.subrange(0, 8).drop_last() =~= v.subrange(0, 7));
    assert(v.subrange(0, 7).drop_last() =~= v.subrange(0, 6));
    assert(v.subrange(0, 6).drop_last() =~= v.subrange(0, 5));
    assert(v.subrange(0, 5).drop_last() =~= v.subrange(0, 4));
    assert(v.subrange(0, 4).drop_last() =~= v.subrange(0, 3));
    assert(v.subrange(0, 3).drop_last() =~= v.subrange(0, 2));
    assert(v.subrange(0, 2).drop_last() =~= v.subrange(0, 1));
    assert(v.subrange(0, 1).drop_last() =~= v.subrange(0, 0));
    assert("type"@ != "port"@) by {
        assert("type"@[0] != "port"@[0]);
    }
    assert("type"@ != "path"@) by {
        assert("type"@[0] != "path"@[0]);
    }
}

/// Fetching the credentials of a binding that `bind` returned yields an
/// `instance-id` entry naming the instance and a `binding-id` entry naming
/// the binding.
pub proof fn lemma_fetch_after_bind(
    after: Lifecycle,
    fetched: Seq<(Seq<char>, Seq<char>)>,
    instance_id: Seq<char>,
    binding_id: Seq<char>,
)
    requires
        after.store.view().contains_key(binding_id),
        names_ids(after.store.view()[binding_id], instance_id, binding_id),
        distinct_keys(fetched),
        pairs_map(fetched) == record_or_empty(after.store.view(), binding_id),
    ensures
        has_entry(fetched, "instance-id"@, instance_id),
        has_entry(fetched, "binding-id"@, binding_id),
{
    let i = choose|i: int| 0 <= i < fetched.len() && fetched[i].0 == "instance-id"@;
    lemma_pairs_map_entry(fetched, i);
    assert(fetched[i] == ("instance-id"@, instance_id));
    let j = choose|j: int| 0 <= j < fetched.len() && fetched[j].0 == "binding-id"@;
    lemma_pairs_map_entry(fetched, j);
    assert(fetched[j] == ("binding-id"@, binding_id));
}

/// The lifecycle router: resolves each call's service type, from its
/// argument on provision or from the stored type record otherwise, and
/// forwards the call to that type's provider.
pub struct Lifecycle {
    pub store: CredentialStore,
    pub filesystem: FilesystemService,
    pub keyvalue: ValkeyService,
}

impl Lifecycle {
    /// The store and the providers are well formed.
    pub open spec fn wf(&self) -> bool {
        self.store.wf() && self.filesystem.wf() && self.keyvalue.wf()
    }

    /// A router over an empty store, a filesystem provider under `base_path`
    /// and a key-value provider for the service at `hostname`:`port`.
    pub fn new(base_path: &str, hostname: &str, port: u16) -> (r: Lifecycle)
        ensures
            r.wf(),
            r.store.view() == Map::<Seq<char>, Map<Seq<char>, Seq<char>>>::empty(),
            r.filesystem.base() == base_path@,
            r.filesystem.instance_dirs() == Set::<Seq<char>>::empty(),
            r.keyvalue.hostname@ == hostname@,
            r.keyvalue.port == port,
            r.keyvalue.server.keys() == Set::<Seq<char>>::empty(),
    {
        Lifecycle {
            store: CredentialStore::new(),
            filesystem: FilesystemService::new(base_path),
            keyvalue: ValkeyService::new(hostname, port, KeyValueServer::new()),
        }
    }

    /// The provider registered for `type_`; `UnknownServiceType` where none is.
    pub fn get_lifecycle(type_: &str) -> (r: Result<LifecycleType, BrokerError>)
        ensures
            r is Ok <==> service_kind(type_@) is Some,
            r matches Ok(k) ==> service_kind(type_@) == Some(k),
            r is Err ==> r->Err_0 is UnknownServiceType,
    {
        if str_eq(type_, "filesystem") {
            Ok(LifecycleType::Filesystem)
        } else if str_eq(type_, "valkey") {
            Ok(LifecycleType::Keyvalue)
        } else {
            Err(BrokerError::UnknownServiceType(owned(type_)))
        }
    }

    /// The type recorded for an instance; `UnknownInstance` where its record
    /// is missing or has no `type` entry.
    pub fn get_type_for_instance_id(&self, instance_id: &str) -> (r: Result<String, BrokerError>)
        requires
            self.wf(),
        ensures
            r is Ok <==> stored_type(self.store.view(), instance_id@) is Some,
            r matches Ok(t) ==> stored_type(self.store.view(), instance_id@) == Some(t@),
            r is Err ==> r->Err_0 is UnknownInstance,
    {
        let creds = self.store.fetch(instance_id);
        match find_value(&creds, "type") {
            Some(t) => Ok(t),
            None => Err(BrokerError::UnknownInstance(owned(instance_id))),
        }
    }

    /// The type recorded in a binding's own credentials; `UnknownBinding`
    /// where they are missing or have no `type` entry.
    pub fn get_type_for_binding_id(&self, binding_id: &str) -> (r: Result<String, BrokerError>)
        requires
            self.wf(),
        ensures
            r is Ok <==> stored_type(self.store.view(), binding_id@) is Some,
            r matches Ok(t) ==> stored_type(self.store.view(), binding_id@) == Some(t@),
            r is Err ==> r->Err_0 is UnknownBinding,
    {
        let creds = self.store.fetch(binding_id);
        match find_value(&creds, "type") {
            Some(t) => Ok(t),
            None => Err(BrokerError::UnknownBinding(owned(binding_id))),
        }
    }

    /// Provisions an instance of `type_` under a new identifier generated
    /// from `random`, then records the type under that identifier. An
    /// unregistered type fails with `UnknownServiceType` before anything is
    /// generated, created or published.
    pub fn provision(&mut self, random: &[u8; 16], type_: &str, tier: Option<String>, requests: Option<Vec<Request>>) -> (r: Result<String, BrokerError>)
        requires
            old(self).wf(),
        ensures
            final(self).wf(),
            service_kind(type_@) is None ==> r is Err && r->Err_0 is UnknownServiceType && *final(self) == *old(self),
            r is Ok <==> service_kind(type_@) is Some && tier is None && requests is None,
            r is Err ==> *final(self) == *old(self),
            r matches Ok(id) ==> id@ == instance_of(uuid_text(random@)) && is_instance_shape(id@),
            r matches Ok(id) ==> final(self).store.view() == old(self).store.view().insert(id@, last_wins(type_record(type_@))),
            r matches Ok(id) ==> stored_type(final(self).store.view(), id@) == Some(type_@),
            r is Ok && service_kind(type_@) == Some(LifecycleType::Filesystem) ==> final(self).filesystem.links(r->Ok_0@) is Some
                && final(self).filesystem.instance_dirs() == old(self).filesystem.instance_dirs().insert(r->Ok_0@)
                && final(self).keyvalue == old(self).keyvalue,
            r is Ok && service_kind(type_@) == Some(LifecycleType::Keyvalue) ==> final(self).keyvalue.server.fields(instances_key()) == old(self).keyvalue.server.fields(instances_key()).insert(r->Ok_0@)
                && final(self).filesystem == old(self).filesystem,
    {
        let kind = Self::get_lifecycle(type_)?;
        let instance_id = UuidIds::generate_instance_id(random);
        match kind {
            LifecycleType::Filesystem => self.filesystem.provision(instance_id.as_str(), type_, tier, requests)?,
            LifecycleType::Keyvalue => self.keyvalue.provision(instance_id.as_str(), type_, tier, requests)?,
        }
        let mut creds: Vec<Credential> = Vec::new();
        creds.push(Credential::new("type", type_));
        assert(record_view(creds@) =~= type_record(type_@));
        self.store.publish(instance_id.as_str(), creds);
        proof {
            reveal_with_fuel(last_wins, 2);
        }
        Ok(instance_id)
    }

    /// Updates an instance through the provider of its recorded type.
    pub fn update(&self, instance_id: &str, tier: Option<String>, requests: Option<Vec<Request>>) -> (r: Result<(), BrokerError>)
        requires
            self.wf(),
        ensures
            stored_type(self.store.view(), instance_id@) is None ==> r is Err && r->Err_0 is UnknownInstance,
            (stored_type(self.store.view(), instance_id@) matches Some(t) && service_kind(t) is None) ==> r is Err && r->Err_0 is UnknownServiceType,
            r is Ok <==> (stored_type(self.store.view(), instance_id@) matches Some(t) && service_kind(t) is Some) && tier is None && requests is None,
    {
        let type_ = self.get_type_for_instance_id(instance_id)?;
        match Self::get_lifecycle(type_.as_str())? {
            LifecycleType::Filesystem => self.filesystem.update(instance_id, tier, requests),
            LifecycleType::Keyvalue => self.keyvalue.update(instance_id, tier, requests),
        }
    }

    /// Destroys an instance: resolves its type, removes its type record, then
    /// has its provider destroy it. The record stays removed where the
    /// provider then fails.
    pub fn destroy(&mut self, instance_id: &str, retain: Option<bool>) -> (r: Result<(), BrokerError>)
        requires
            old(self).wf(),
        ensures
            final(self).wf(),
            stored_type(old(self).store.view(), instance_id@) is None ==> r is Err && r->Err_0 is UnknownInstance && *final(self) == *old(self),
            (stored_type(old(self).store.view(), instance_id@) matches Some(t) && service_kind(t) is None) ==> r is Err && r->Err_0 is UnknownServiceType && *final(self) == *old(self),
            (stored_type(old(self).store.view(), instance_id@) matches Some(t) && service_kind(t) == Some(LifecycleType::Filesystem)) ==> {
                &&& (r is Ok <==> old(self).filesystem.can_destroy(instance_id@))
                &&& (old(self).filesystem.destroy_blocked(instance_id@) ==> r is Err && r->Err_0 is DirectoryNotEmpty)
                &&& final(self).store.view() == old(self).store.view().remove(instance_id@)
                &&& (r is Ok ==> final(self).filesystem.links(instance_id@) is None)
                &&& (r is Ok && retain != Some(true) ==> final(self).filesystem.instance_dirs() == old(self).filesystem.instance_dirs().remove(instance_id@))
                &&& (r is Ok && retain == Some(true) ==> final(self).filesystem.instance_dirs() == old(self).filesystem.instance_dirs())
                &&& (r is Err ==> final(self).filesystem == old(self).filesystem)
                &&& (forall|i: Seq<char>| i != instance_id@ ==> #[trigger] final(self).filesystem.links(i) == old(self).filesystem.links(i))
                &&& final(self).keyvalue == old(self).keyvalue
            },
            (stored_type(old(self).store.view(), instance_id@) matches Some(t) && service_kind(t) == Some(LifecycleType::Keyvalue)) ==> {
                &&& r is Ok
                &&& final(self).store.view() == old(self).store.view().remove(instance_id@).remove_keys(old(self).keyvalue.server.fields(bindings_key(instance_id@)))
                &&& final(self).keyvalue.server.fields(bindings_key(instance_id@)) == Set::<Seq<char>>::empty()
                &&& final(self).keyvalue.server.fields(instances_key()) == old(self).keyvalue.server.fields(instances_key()).remove(instance_id@)
                &&& final(self).keyvalue.server.users() == old(self).keyvalue.server.users().remove_keys(old(self).keyvalue.server.fields(bindings_key(instance_id@)))
                &&& (retain != Some(true) ==> final(self).keyvalue.server.keys() == old(self).keyvalue.server.keys().filter(|k: Seq<char>| !has_prefix(k, data_prefix(instance_id@))))
                &&& (retain == Some(true) ==> final(self).keyvalue.server.keys() == old(self).keyvalue.server.keys())
                &&& (retain == Some(true) ==> final(self).keyvalue.server.strings_map() == old(self).keyvalue.server.strings_map())
                &&& (retain != Some(true) ==> final(self).keyvalue.server.strings_map() == old(self).keyvalue.server.strings_map().restrict(
                    old(self).keyvalue.server.strings_map().dom().filter(|k: Seq<char>| !has_prefix(k, data_prefix(instance_id@)))))
                &&& (forall|h: Seq<char>|
                    h != bindings_key(instance_id@) && h != instances_key() && (retain == Some(true) || !has_prefix(h, data_prefix(instance_id@)))
                        ==> #[trigger] final(self).keyvalue.server.hash_at(h) == old(self).keyvalue.server.hash_at(h))
                &&& final(self).filesystem == old(self).filesystem
            },
    {
        let type_ = self.get_type_for_instance_id(instance_id)?;
        let kind = Self::get_lifecycle(type_.as_str())?;
        self.store.destroy(instance_id);
        match kind {
            LifecycleType::Filesystem => self.filesystem.destroy(instance_id, retain),
            LifecycleType::Keyvalue => self.keyvalue.destroy(&mut self.store, instance_id, retain),
        }
    }

    /// Binds to an instance: resolves its recorded type, generates a binding
    /// identifier for it from `random`, and has the provider issue the
    /// binding. `password` is the generated password that a key-value binding
    /// gets; `issued_at` the issuance time in seconds since the Unix epoch.
    pub fn bind(
        &mut self,
        random: &[u8; 16],
        instance_id: &str,
        scopes: Option<Vec<String>>,
        password: &str,
        issued_at: i64,
    ) -> (r: Result<String, BrokerError>)
        requires
            old(self).wf(),
        ensures
            final(self).wf(),
            stored_type(old(self).store.view(), instance_id@) is None ==> r is Err && r->Err_0 is UnknownInstance,
            (stored_type(old(self).store.view(), instance_id@) matches Some(t) && service_kind(t) is None) ==> r is Err && r->Err_0 is UnknownServiceType,
            (stored_type(old(self).store.view(), instance_id@) matches Some(t) && service_kind(t) is Some && !is_instance_shape(instance_id@)) ==> r is Err && r->Err_0 is InvalidFormat,
            r is Err ==> final(self).store.view() == old(self).store.view() && final(self).filesystem == old(self).filesystem && final(self).keyvalue == old(self).keyvalue,
            r is Ok <==> (stored_type(old(self).store.view(), instance_id@) matches Some(t) && is_instance_shape(instance_id@) && (
                (service_kind(t) == Some(LifecycleType::Filesystem) && scopes is None && utc_timestamp_text(issued_at as int) is Some
                    && (old(self).filesystem.links(instance_id@) matches Some(s) && !s.contains(generated_binding(instance_id@, random@))))
                || (service_kind(t) == Some(LifecycleType::Keyvalue) && all_scopes_valid(granted_scopes(scopes_view(scopes))) && utc_timestamp_text(issued_at as int) is Some))),
            r matches Ok(b) ==> b@ == generated_binding(instance_id@, random@),
            r matches Ok(b) ==> is_binding_shape(b@) && instance_of(b@) == instance_id@,
            r matches Ok(b) ==> final(self).store.view().contains_key(b@) && names_ids(final(self).store.view()[b@], instance_id@, b@),
            r matches Ok(b) ==> stored_type(final(self).store.view(), b@) == stored_type(old(self).store.view(), instance_id@),
            r matches Ok(b) ==> final(self).store.view().remove(b@) == old(self).store.view().remove(b@),
            r is Ok && service_kind(stored_type(old(self).store.view(), instance_id@)->Some_0) == Some(LifecycleType::Filesystem) ==>
                final(self).filesystem.links(instance_id@) == Some(old(self).filesystem.links(instance_id@)->Some_0.insert(r->Ok_0@))
                && final(self).keyvalue == old(self).keyvalue,
            r is Ok && service_kind(stored_type(old(self).store.view(), instance_id@)->Some_0) == Some(LifecycleType::Keyvalue) ==>
                final(self).keyvalue.server.users() == old(self).keyvalue.server.users().insert(
                    r->Ok_0@,
                    acl_rules(password@, granted_scopes(scopes_view(scopes)), data_prefix(instance_id@)),
                )
                && final(self).keyvalue.server.fields(bindings_key(instance_id@)) == old(self).keyvalue.server.fields(bindings_key(instance_id@)).insert(r->Ok_0@)
                && final(self).filesystem == old(self).filesystem,
    {
        let type_ = self.get_type_for_instance_id(instance_id)?;
        let kind = Self::get_lifecycle(type_.as_str())?;
        let binding_id = UuidIds::generate_binding_id(instance_id, random)?;
        let ghost before = *self;
        match kind {
            LifecycleType::Filesystem => {
                self.filesystem.bind(&mut self.store, binding_id.as_str(), instance_id, scopes, issued_at)?;
                proof {
                    lemma_binding_records_name_ids(
                        before.filesystem.base(), Seq::empty(), 0, binding_id@, Seq::empty(), instance_id@, Seq::empty(),
                        utc_timestamp_text(issued_at as int)->Some_0,
                    );
                }
            },
            LifecycleType::Keyvalue => {
                self.keyvalue.bind(&mut self.store, binding_id.as_str(), instance_id, scopes, password, issued_at)?;
                proof {
                    lemma_binding_records_name_ids(
                        Seq::empty(), before.keyvalue.hostname@, before.keyvalue.port, binding_id@, password@, instance_id@,
                        granted_scopes(scopes_view(scopes)), utc_timestamp_text(issued_at as int)->Some_0,
                    );
                }
            },
        }
        proof {
            assert(self.store.view().remove(binding_id@) =~= before.store.view().remove(binding_id@));
        }
        Ok(binding_id)
    }

    /// Revokes a binding through the provider of the type recorded in the
    /// binding's own credentials; its instance is the one its identifier encodes.
    pub fn unbind(&mut self, binding_id: &str) -> (r: Result<(), BrokerError>)
        requires
            old(self).wf(),
        ensures
            final(self).wf(),
            stored_type(old(self).store.view(), binding_id@) is None ==> r is Err && r->Err_0 is UnknownBinding && *final(self) == *old(self),
            (stored_type(old(self).store.view(), binding_id@) matches Some(t) && service_kind(t) is None) ==> r is Err && r->Err_0 is UnknownServiceType && *final(self) == *old(self),
            (stored_type(old(self).store.view(), binding_id@) matches Some(t) && service_kind(t) is Some && !is_binding_shape(binding_id@)) ==> r is Err
                && (r->Err_0 is InvalidFormat || r->Err_0 is AmbiguousId) && *final(self) == *old(self),
            r is Ok <==> (stored_type(old(self).store.view(), binding_id@) matches Some(t) && is_binding_shape(binding_id@) && (
                service_kind(t) == Some(LifecycleType::Keyvalue)
                || (service_kind(t) == Some(LifecycleType::Filesystem)
                    && (old(self).filesystem.links(instance_of(binding_id@)) matches Some(s) && s.contains(binding_id@))))),
            r is Ok ==> final(self).store.view() == old(self).store.view().remove(binding_id@),
            r is Ok && service_kind(stored_type(old(self).store.view(), binding_id@)->Some_0) == Some(LifecycleType::Filesystem) ==>
                final(self).filesystem.links(instance_of(binding_id@)) == Some(old(self).filesystem.links(instance_of(binding_id@))->Some_0.remove(binding_id@))
                && final(self).keyvalue == old(self).keyvalue,
            r is Ok && service_kind(stored_type(old(self).store.view(), binding_id@)->Some_0) == Some(LifecycleType::Keyvalue) ==>
                final(self).keyvalue.server.users() == old(self).keyvalue.server.users().remove(binding_id@)
                && final(self).keyvalue.server.fields(bindings_key(instance_of(binding_id@))) == old(self).keyvalue.server.fields(bindings_key(instance_of(binding_id@))).remove(binding_id@)
                && final(self).filesystem == old(self).filesystem,
    {
        let type_ = self.get_type_for_binding_id(binding_id)?;
        let kind = Self::get_lifecycle(type_.as_str())?;
        let instance_id = UuidIds::lookup_instance_id(binding_id)?;
        match kind {
            LifecycleType::Filesystem => self.filesystem.unbind(&mut self.store, binding_id, instance_id.as_str()),
            LifecycleType::Keyvalue => self.keyvalue.unbind(&mut self.store, binding_id, instance_id.as_str()),
        }
    }

    /// The bindings of an instance, each once, as its recorded type's provider lists them.
    pub fn list_bindings(&self, instance_id: &str) -> (r: Result<Vec<String>, BrokerError>)
        requires
            self.wf(),
        ensures
            stored_type(self.store.view(), instance_id@) is None ==> r is Err && r->Err_0 is UnknownInstance,
            (stored_type(self.store.view(), instance_id@) matches Some(t) && service_kind(t) is None) ==> r is Err && r->Err_0 is UnknownServiceType,
            r is Ok <==> (stored_type(self.store.view(), instance_id@) matches Some(t) && (
                service_kind(t) == Some(LifecycleType::Keyvalue)
                || (service_kind(t) == Some(LifecycleType::Filesystem) && self.filesystem.links(instance_id@) is Some))),
            r matches Ok(v) ==> distinct_strings(v@),
            r is Ok && service_kind(stored_type(self.store.view(), instance_id@)->Some_0) == Some(LifecycleType::Filesystem) ==>
                string_set(r->Ok_0@) == self.filesystem.links(instance_id@)->Some_0,
            r is Ok && service_kind(stored_type(self.store.view(), instance_id@)->Some_0) == Some(LifecycleType::Keyvalue) ==>
                string_set(r->Ok_0@) == self.keyvalue.server.fields(bindings_key(instance_id@)),
    {
        let type_ = self.get_type_for_instance_id(instance_id)?;
        match Self::get_lifecycle(type_.as_str())? {
            LifecycleType::Filesystem => self.filesystem.list_bindings(instance_id),
            LifecycleType::Keyvalue => self.keyvalue.list_bindings(instance_id),
        }
    }
}

} // verus!
