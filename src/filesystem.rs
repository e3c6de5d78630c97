use vstd::prelude::*;

use crate::credentials::{last_wins, record_view, Credential, Request};
use crate::error::BrokerError;
use crate::store::CredentialStore;
use crate::strmap::{distinct_strings, string_set, StrMap};
use crate::text::{joined, owned, str_eq};
use crate::timestamp::{issued_at_text, utc_timestamp_text};

verus! {

/// The directory of an instance under the base path.
pub open spec fn instance_path(base: Seq<char>, instance_id: Seq<char>) -> Seq<char> {
    base + "/instances/"@ + instance_id
}

/// The link of a binding, inside its instance's bindings directory.
pub open spec fn binding_path(base: Seq<char>, instance_id: Seq<char>, binding_id: Seq<char>) -> Seq<char> {
    instance_path(base, instance_id) + "/bindings/"@ + binding_id
}

/// The credential record published for a binding of a directory.
pub open spec fn fs_binding_record(
    base: Seq<char>,
    binding_id: Seq<char>,
    instance_id: Seq<char>,
    issued_at: Seq<char>,
) -> Seq<(Seq<char>, Seq<char>)> {
    seq![
        ("type"@, "filesystem"@),
        ("path"@, binding_path(base, instance_id, binding_id)),
        ("instance-id"@, instance_id),
        ("binding-id"@, binding_id),
        ("issued-at"@, issued_at),
    ]
}

/// The directory-structured provider. Each instance is a directory holding
/// a `data` directory (the resource) and a `bindings` directory with one link
/// per active binding; the model records, per instance directory, the links
/// of its bindings directory, or `None` once that directory is removed.
pub struct FilesystemService {
    base_path: String,
    instances: StrMap<Option<StrMap<bool>>>,
}

impl FilesystemService {
    /// All maps, the inner ones included, are well formed.
    pub closed spec fn wf(&self) -> bool {
        &&& self.instances.wf()
        &&& forall|i: Seq<char>| #[trigger] self.instances.view().contains_key(i) ==> (self.instances.view()[i] matches Some(m) ==> m.wf())
    }

    /// The directory under which instances live.
    pub closed spec fn base(&self) -> Seq<char> {
        self.base_path@
    }

    /// The instance directories that exist.
    pub closed spec fn instance_dirs(&self) -> Set<Seq<char>> {
        self.instances.view().dom()
    }

    /// The links in an instance's bindings directory; `None` where that
    /// directory does not exist.
    pub closed spec fn links(&self, instance_id: Seq<char>) -> Option<Set<Seq<char>>> {
        if self.instances.view().contains_key(instance_id) {
            match self.instances.view()[instance_id] {
                Some(m) => Some(m.view().dom()),
                None => None,
            }
        } else {
            None
        }
    }

    /// Removing the bindings directory would fail because links remain.
    pub open spec fn destroy_blocked(&self, instance_id: Seq<char>) -> bool {
        self.links(instance_id) matches Some(s) && s != Set::<Seq<char>>::empty()
    }

    /// The bindings directory exists and is empty.
    pub open spec fn can_destroy(&self, instance_id: Seq<char>) -> bool {
        self.links(instance_id) == Some(Set::<Seq<char>>::empty())
    }

    /// A provider whose directories live under `base_path`, with none yet.
    pub fn new(base_path: &str) -> (r: FilesystemService)
        ensures
            r.wf(),
            r.base() == base_path@,
            r.instance_dirs() == Set::<Seq<char>>::empty(),
            forall|i: Seq<char>| #[trigger] r.links(i) is None,
    {
        let r = FilesystemService { base_path: owned(base_path), instances: StrMap::new() };
        assert(r.instance_dirs() =~= Set::<Seq<char>>::empty());
        r
    }

    /// The directory of an instance.
    pub fn get_instance_path(&self, instance_id: &str) -> (r: String)
        ensures
            r@ == instance_path(self.base(), instance_id@),
    {
        let a = joined(self.base_path.as_str(), "/instances/");
        joined(a.as_str(), instance_id)
    }

    /// The link of a binding.
    pub fn get_binding_path(&self, instance_id: &str, binding_id: &str) -> (r: String)
        ensures
            r@ == binding_path(self.base(), instance_id@, binding_id@),
    {
        let a = self.get_instance_path(instance_id);
        let b = joined(a.as_str(), "/bindings/");
        joined(b.as_str(), binding_id)
    }

    /// Creates the instance's `data` and `bindings` directories, keeping any
    /// that exist. Only the type `filesystem` is accepted, and neither a tier
    /// nor requests.
    pub fn provision(&mut self, instance_id: &str, type_: &str, tier: Option<String>, requests: Option<Vec<Request>>) -> (r: Result<(), BrokerError>)
        requires
            old(self).wf(),
        ensures
            final(self).wf(),
            final(self).base() == old(self).base(),
            r is Ok <==> (type_@ == "filesystem"@ && tier is None && requests is None),
            r is Err ==> r->Err_0 is Unsupported && *final(self) == *old(self),
            r is Ok ==> final(self).instance_dirs() == old(self).instance_dirs().insert(instance_id@),
            r is Ok ==> final(self).links(instance_id@) == Some(
                match old(self).links(instance_id@) {
                    Some(s) => s,
                    None => Set::<Seq<char>>::empty(),
                },
            ),
            r is Ok ==> forall|i: Seq<char>| i != instance_id@ ==> #[trigger] final(self).links(i) == old(self).links(i),
    {
        if !str_eq(type_, "filesystem") {
            return Err(BrokerError::Unsupported(owned("only 'filesystem' types are supported")));
        }
        if tier.is_some() {
            return Err(BrokerError::Unsupported(owned("tier is not supported")));
        }
        if requests.is_some() {
            return Err(BrokerError::Unsupported(owned("requests are not supported")));
        }
        let ghost before = *self;
        let links = match self.instances.remove(instance_id) {
            Some(Some(m)) => m,
            _ => StrMap::new(),
        };
        self.instances.insert(instance_id, Some(links));
        proof {
            assert(self.instance_dirs() =~= before.instance_dirs().insert(instance_id@));
            assert forall|i: Seq<char>| i != instance_id@ implies #[trigger] self.links(i) == before.links(i) by {}
        }
        Ok(())
    }

    /// Nothing of a provisioned instance can be updated: succeeds exactly
    /// when neither a tier nor requests are given.
    pub fn update(&self, instance_id: &str, tier: Option<String>, requests: Option<Vec<Request>>) -> (r: Result<(), BrokerError>)
        ensures
            r is Ok <==> (tier is None && requests is None),
            r is Err ==> r->Err_0 is Unsupported,
    {
        if tier.is_some() {
            return Err(BrokerError::Unsupported(owned("tier is not supported")));
        }
        if requests.is_some() {
            return Err(BrokerError::Unsupported(owned("requests are not supported")));
        }
        Ok(())
    }

    /// Removes the bindings directory, which fails with `DirectoryNotEmpty`
    /// while any binding link remains; then, unless `retain` is set, removes
    /// the instance directory with its data.
    pub fn destroy(&mut self, instance_id: &str, retain: Option<bool>) -> (r: Result<(), BrokerError>)
        requires
            old(self).wf(),
        ensures
            final(self).wf(),
            final(self).base() == old(self).base(),
            r is Ok <==> old(self).can_destroy(instance_id@),
            old(self).destroy_blocked(instance_id@) ==> r is Err && r->Err_0 is DirectoryNotEmpty,
            r is Err && !old(self).destroy_blocked(instance_id@) ==> r->Err_0 is BackendError,
            r is Err ==> *final(self) == *old(self),
            r is Ok ==> final(self).links(instance_id@) is None,
            r is Ok && retain == Some(true) ==> final(self).instance_dirs() == old(self).instance_dirs(),
            r is Ok && retain != Some(true) ==> final(self).instance_dirs() == old(self).instance_dirs().remove(instance_id@),
            forall|i: Seq<char>| i != instance_id@ ==> #[trigger] final(self).links(i) == old(self).links(i),
    {
        let ghost before = *self;
        match self.instances.get(instance_id) {
            Some(Some(m)) => {
                if !m.is_empty() {
                    return Err(BrokerError::DirectoryNotEmpty(self.get_instance_path(instance_id)));
                }
            },
            _ => {
                return Err(BrokerError::BackendError(owned("bindings directory not found")));
            },
        }
        let _ = self.instances.remove(instance_id);
        let keep = match retain {
            Some(b) => b,
            None => false,
        };
        if keep {
            self.instances.insert(instance_id, None);
            proof {
                assert(self.instance_dirs() =~= before.instance_dirs());
            }
        } else {
            proof {
                assert(self.instance_dirs() =~= before.instance_dirs().remove(instance_id@));
            }
        }
        proof {
            assert forall|i: Seq<char>| i != instance_id@ implies #[trigger] self.links(i) == before.links(i) by {}
        }
        Ok(())
    }

    /// Issues a binding: links it into the instance's bindings directory and
    /// publishes its path and identifiers under `binding_id`. Scopes are not
    /// supported; `issued_at` is the issuance time in seconds since the Unix epoch.
    pub fn bind(
        &mut self,
        store: &mut CredentialStore,
        binding_id: &str,
        instance_id: &str,
        scopes: Option<Vec<String>>,
        issued_at: i64,
    ) -> (r: Result<(), BrokerError>)
        requires
            old(self).wf(),
            old(store).wf(),
        ensures
            final(self).wf(),
            final(store).wf(),
            final(self).base() == old(self).base(),
            r is Ok <==> scopes is None && utc_timestamp_text(issued_at as int) is Some
                && (old(self).links(instance_id@) matches Some(s) && !s.contains(binding_id@)),
            scopes is Some ==> r is Err && r->Err_0 is Unsupported,
            r is Err ==> *final(self) == *old(self) && final(store).view() == old(store).view(),
            r is Ok ==> final(self).links(instance_id@) == Some(old(self).links(instance_id@)->Some_0.insert(binding_id@)),
            r is Ok ==> final(self).instance_dirs() == old(self).instance_dirs(),
            r is Ok ==> forall|i: Seq<char>| i != instance_id@ ==> #[trigger] final(self).links(i) == old(self).links(i),
            r is Ok ==> final(store).view() == old(store).view().insert(
                binding_id@,
                last_wins(fs_binding_record(old(self).base(), binding_id@, instance_id@, utc_timestamp_text(issued_at as int)->Some_0)),
            ),
    {
        if scopes.is_some() {
            return Err(BrokerError::Unsupported(owned("scopes are not supported")));
        }
        let issued = issued_at_text(issued_at)?;
        let path = self.get_binding_path(instance_id, binding_id);
        let ghost before = *self;
        let mut links = match self.instances.get(instance_id) {
            Some(Some(m)) => {
                if m.contains(binding_id) {
                    return Err(BrokerError::BackendError(owned("binding link already exists")));
                }
                match self.instances.remove(instance_id) {
                    Some(Some(m)) => m,
                    _ => StrMap::new(),
                }
            },
            _ => {
                return Err(BrokerError::BackendError(owned("bindings directory not found")));
            },
        };
        links.insert(binding_id, true);
        self.instances.insert(instance_id, Some(links));
        proof {
            assert(self.instance_dirs() =~= before.instance_dirs());
            assert forall|i: Seq<char>| i != instance_id@ implies #[trigger] self.links(i) == before.links(i) by {}
        }
        let mut creds: Vec<Credential> = Vec::new();
        creds.push(Credential::new("type", "filesystem"));
        creds.push(Credential::new("path", path.as_str()));
        creds.push(Credential::new("instance-id", instance_id));
        creds.push(Credential::new("binding-id", binding_id));
        creds.push(Credential::new("issued-at", issued.as_str()));
        assert(record_view(creds@) =~= fs_binding_record(self.base(), binding_id@, instance_id@, issued@));
        store.publish(binding_id, creds);
        Ok(())
    }

    /// Revokes a binding: destroys its published credentials, then removes
    /// its link, which fails where there is none.
    pub fn unbind(&mut self, store: &mut CredentialStore, binding_id: &str, instance_id: &str) -> (r: Result<(), BrokerError>)
        requires
            old(self).wf(),
            old(store).wf(),
        ensures
            final(self).wf(),
            final(store).wf(),
            final(self).base() == old(self).base(),
            final(store).view() == old(store).view().remove(binding_id@),
            r is Ok <==> (old(self).links(instance_id@) matches Some(s) && s.contains(binding_id@)),
            r is Err ==> *final(self) == *old(self) && r->Err_0 is BackendError,
            r is Ok ==> final(self).links(instance_id@) == Some(old(self).links(instance_id@)->Some_0.remove(binding_id@)),
            r is Ok ==> final(self).instance_dirs() == old(self).instance_dirs(),
            forall|i: Seq<char>| i != instance_id@ ==> #[trigger] final(self).links(i) == old(self).links(i),
    {
        store.destroy(binding_id);
        let ghost before = *self;
        let present = match self.instances.get(instance_id) {
            Some(Some(m)) => m.contains(binding_id),
            _ => false,
        };
        if !present {
            return Err(BrokerError::BackendError(owned("binding link not found")));
        }
        let mut links = match self.instances.remove(instance_id) {
            Some(Some(m)) => m,
            _ => StrMap::new(),
        };
        let _ = links.remove(binding_id);
        self.instances.insert(instance_id, Some(links));
        proof {
            assert(self.instance_dirs() =~= before.instance_dirs());
            assert forall|i: Seq<char>| i != instance_id@ implies #[trigger] self.links(i) == before.links(i) by {}
        }
        Ok(())
    }

    /// The bindings linked in an instance's bindings directory, each once;
    /// fails where that directory does not exist.
    pub fn list_bindings(&self, instance_id: &str) -> (r: Result<Vec<String>, BrokerError>)
        requires
            self.wf(),
        ensures
            r is Ok <==> self.links(instance_id@) is Some,
            r matches Ok(v) ==> distinct_strings(v@) && string_set(v@) == self.links(instance_id@)->Some_0,
            r is Err ==> r->Err_0 is BackendError,
    {
        match self.instances.get(instance_id) {
            Some(Some(m)) => Ok(m.keys()),
            _ => Err(BrokerError::BackendError(owned("bindings directory not found"))),
        }
    }
}

/// An instance cannot be destroyed while a binding link remains, and can be
/// once its only binding has been unbound.
pub proof fn lemma_destroy_waits_for_unbind(before: FilesystemService, after: FilesystemService, instance_id: Seq<char>, binding_id: Seq<char>)
    requires
        before.links(instance_id) == Some(set![binding_id]),
        after.links(instance_id) == Some(before.links(instance_id)->Some_0.remove(binding_id)),
    ensures
        before.destroy_blocked(instance_id),
        !before.can_destroy(instance_id),
        after.can_destroy(instance_id),
{
    assert(set![binding_id].contains(binding_id));
    assert(set![binding_id].remove(binding_id) =~= Set::<Seq<char>>::empty());
}

} // verus!
