use vstd::prelude::*;

use crate::credentials::{find_value, record_value, record_view};
use crate::error::BrokerError;
use crate::store::{record_or_empty, CredentialStore};
use crate::strmap::{distinct_keys, pairs_map, pairs_view};
use crate::text::owned;

verus! {

/// Configuration values read from the credentials published for a binding:
/// a component configured with a `binding-id` sees that binding's
/// credentials as its configuration.
pub struct CredentialConfig {}

impl CredentialConfig {
    /// All entries of the credentials of the configured binding, as pairs,
    /// each key once. Fails where no binding is configured.
    pub fn get_all(binding_id: Option<&str>, store: &CredentialStore) -> (r: Result<Vec<(String, String)>, BrokerError>)
        requires
            store.wf(),
        ensures
            r is Ok <==> binding_id is Some,
            r is Err ==> r->Err_0 is BackendError,
            r matches Ok(v) ==> distinct_keys(pairs_view(v@)) && pairs_map(pairs_view(v@)) == record_or_empty(store.view(), binding_id->Some_0@),
    {
        let id = match binding_id {
            Some(id) => id,
            None => {
                return Err(BrokerError::BackendError(owned("config must contain 'binding-id'")));
            },
        };
        let creds = store.fetch(id);
        let ghost rec = record_view(creds@);
        let mut out: Vec<(String, String)> = Vec::new();
        let mut i: usize = 0;
        while i < creds.len()
            invariant
                rec == record_view(creds@),
                i <= creds@.len(),
                out@.len() == i,
                forall|k: int| 0 <= k < i ==> (#[trigger] out@[k].0@, out@[k].1@) == rec[k],
            decreases creds@.len() - i,
        {
            out.push((owned(creds[i].key.as_str()), owned(creds[i].value.as_str())));
            i = i + 1;
        }
        assert(pairs_view(out@) =~= rec);
        Ok(out)
    }

    /// The value of `key` in the credentials of the configured binding.
    /// Fails where no binding is configured.
    pub fn get(key: &str, binding_id: Option<&str>, store: &CredentialStore) -> (r: Result<Option<String>, BrokerError>)
        requires
            store.wf(),
        ensures
            r is Ok <==> binding_id is Some,
            r is Err ==> r->Err_0 is BackendError,
            r matches Ok(Some(v)) ==> record_value(record_or_empty(store.view(), binding_id->Some_0@), key@) == Some(v@),
            r matches Ok(None) ==> record_value(record_or_empty(store.view(), binding_id->Some_0@), key@) is None,
    {
        let id = match binding_id {
            Some(id) => id,
            None => {
                return Err(BrokerError::BackendError(owned("config must contain 'binding-id'")));
            },
        };
        let creds = store.fetch(id);
        Ok(find_value(&creds, key))
    }
}

} // verus!
