//! The boundary through which the full device id, activation code and offline
//! token enter and leave the client.

use vstd::prelude::*;

use crate::text::{byte_len, has_control, spec_byte_len, spec_has_control};

verus! {

/// The largest token, in bytes, that a store accepts.
pub const MAX_SECRET_BYTES: usize = 16384;

#[derive(Clone, Debug, PartialEq, Eq)]
pub struct ActivationSecrets {
    pub device_id: String,
    pub activate_code: String,
    pub token: Option<String>,
}

#[derive(Debug, Clone, Copy, PartialEq, Eq, Structural)]
pub enum ActivationSecretError {
    Unavailable,
    Invalid,
    Operation,
}

/// The abstract value of a set of secrets: its three fields as character sequences.
pub open spec fn secrets_view(s: ActivationSecrets) -> (Seq<char>, Seq<char>, Option<Seq<char>>) {
    (
        s.device_id@,
        s.activate_code@,
        match s.token {
            Some(t) => Some(t@),
            None => None,
        },
    )
}

/// A secret field is non-empty, at most `max_bytes` long in UTF-8 and free of control characters.
pub open spec fn spec_secret_field_ok(value: Seq<char>, max_bytes: nat) -> bool {
    value.len() > 0 && spec_byte_len(value) <= max_bytes && !spec_has_control(value)
}

/// A set of secrets is storable when each field passes its bound.
pub open spec fn spec_secrets_valid(s: ActivationSecrets) -> bool {
    &&& spec_secret_field_ok(s.device_id@, 256)
    &&& spec_secret_field_ok(s.activate_code@, 512)
    &&& match s.token {
        Some(t) => spec_secret_field_ok(t@, MAX_SECRET_BYTES as nat),
        None => true,
    }
}

pub fn validate_secret_field(value: &str, max_bytes: usize) -> (r: Result<(), ActivationSecretError>)
    ensures
        r is Ok <==> (value@.len() > 0 && spec_byte_len(value@) as usize <= max_bytes
            && !spec_has_control(value@)),
        r is Err ==> r == Err::<(), ActivationSecretError>(ActivationSecretError::Invalid),
{
    if value.unicode_len() == 0 || byte_len(value) > max_bytes || has_control(value) {
        return Err(ActivationSecretError::Invalid);
    }
    Ok(())
}

impl ActivationSecrets {
    /// Whether every field is within its bound; byte lengths are read through `str::len`.
    pub open spec fn valid(&self) -> bool {
        &&& self.device_id@.len() > 0 && spec_byte_len(self.device_id@) as usize <= 256
            && !spec_has_control(self.device_id@)
        &&& self.activate_code@.len() > 0 && spec_byte_len(self.activate_code@) as usize <= 512
            && !spec_has_control(self.activate_code@)
        &&& match self.token {
            Some(t) => t@.len() > 0 && spec_byte_len(t@) as usize <= MAX_SECRET_BYTES
                && !spec_has_control(t@),
            None => true,
        }
    }

    pub fn validate(&self) -> (r: Result<(), ActivationSecretError>)
        ensures
            r is Ok <==> self.valid(),
            r is Err ==> r == Err::<(), ActivationSecretError>(ActivationSecretError::Invalid),
    {
        validate_secret_field(self.device_id.as_str(), 256)?;
        validate_secret_field(self.activate_code.as_str(), 512)?;
        match &self.token {
            Some(token) => validate_secret_field(token.as_str(), MAX_SECRET_BYTES),
            None => Ok(()),
        }
    }
}

/// Whether two sets of secrets hold the same values.
pub fn same_secrets(a: &ActivationSecrets, b: &ActivationSecrets) -> (r: bool)
    ensures
        r == (secrets_view(*a) == secrets_view(*b)),
{
    let token_same = match (&a.token, &b.token) {
        (Some(x), Some(y)) => crate::text::str_eq(x.as_str(), y.as_str()),
        (None, None) => true,
        _ => false,
    };
    crate::text::str_eq(a.device_id.as_str(), b.device_id.as_str()) && crate::text::str_eq(
        a.activate_code.as_str(),
        b.activate_code.as_str(),
    ) && token_same
}

/// A place that keeps at most one set of secrets.
pub trait ActivationSecretStore {
    /// The secrets held now, by value.
    spec fn stored(&self) -> Option<(Seq<char>, Seq<char>, Option<Seq<char>>)>;

    fn load(&self) -> (r: Result<Option<ActivationSecrets>, ActivationSecretError>)
        ensures
            r matches Ok(v) ==> match v {
                Some(s) => self.stored() == Some(secrets_view(s)) && s.valid(),
                None => self.stored() is None,
            },
    ;

    fn store(&mut self, secrets: &ActivationSecrets) -> (r: Result<(), ActivationSecretError>)
        ensures
            !secrets.valid() ==> r == Err::<(), ActivationSecretError>(ActivationSecretError::Invalid),
            r is Ok ==> secrets.valid() && final(self).stored() == Some(secrets_view(*secrets)),
            r is Err ==> final(self).stored() == old(self).stored(),
    ;

    fn delete(&mut self) -> (r: Result<(), ActivationSecretError>)
        ensures
            r is Ok ==> final(self).stored() is None,
            r is Err ==> final(self).stored() == old(self).stored(),
    ;
}

/// An in-memory store whose operations can be made to fail on demand.
#[derive(Default)]
pub struct MemoryActivationSecretStore {
    value: Option<ActivationSecrets>,
    failing_load: bool,
    failing_store: bool,
    failing_delete: bool,
}

/// The abstract state of a memory store.
pub struct MemoryStoreModel {
    pub value: Option<(Seq<char>, Seq<char>, Option<Seq<char>>)>,
    pub fail_load: bool,
    pub fail_store: bool,
    pub fail_delete: bool,
}

/// What `load` answers in a given state.
pub open spec fn spec_memory_load(m: MemoryStoreModel) -> Result<
    Option<(Seq<char>, Seq<char>, Option<Seq<char>>)>,
    ActivationSecretError,
> {
    if m.fail_load {
        Err(ActivationSecretError::Operation)
    } else {
        Ok(m.value)
    }
}

/// The state after `store(secrets)`, and its answer.
pub open spec fn spec_memory_store(m: MemoryStoreModel, secrets: ActivationSecrets) -> (
    MemoryStoreModel,
    Result<(), ActivationSecretError>,
) {
    if !secrets.valid() {
        (m, Err(ActivationSecretError::Invalid))
    } else if m.fail_store {
        (m, Err(ActivationSecretError::Operation))
    } else {
        (MemoryStoreModel { value: Some(secrets_view(secrets)), ..m }, Ok(()))
    }
}

/// The state after `delete()`, and its answer.
pub open spec fn spec_memory_delete(m: MemoryStoreModel) -> (
    MemoryStoreModel,
    Result<(), ActivationSecretError>,
) {
    if m.fail_delete {
        (m, Err(ActivationSecretError::Operation))
    } else {
        (MemoryStoreModel { value: None, ..m }, Ok(()))
    }
}

impl MemoryActivationSecretStore {
    pub closed spec fn model(&self) -> MemoryStoreModel {
        MemoryStoreModel {
            value: match self.value {
                Some(s) => Some(secrets_view(s)),
                None => None,
            },
            fail_load: self.failing_load,
            fail_store: self.failing_store,
            fail_delete: self.failing_delete,
        }
    }

    #[verifier::type_invariant]
    spec fn well_formed(&self) -> bool {
        match self.value {
            Some(s) => s.valid(),
            None => true,
        }
    }

    pub fn new() -> (r: Self)
        ensures
            r.model() == (MemoryStoreModel {
                value: None,
                fail_load: false,
                fail_store: false,
                fail_delete: false,
            }),
    {
        MemoryActivationSecretStore {
            value: None,
            failing_load: false,
            failing_store: false,
            failing_delete: false,
        }
    }

    pub fn fail_load(&mut self, value: bool)
        ensures
            final(self).model() == (MemoryStoreModel { fail_load: value, ..old(self).model() }),
    {
        proof {
            use_type_invariant(&*self);
        }
        self.failing_load = value;
    }

    pub fn fail_store(&mut self, value: bool)
        ensures
            final(self).model() == (MemoryStoreModel { fail_store: value, ..old(self).model() }),
    {
        proof {
            use_type_invariant(&*self);
        }
        self.failing_store = value;
    }

    pub fn fail_delete(&mut self, value: bool)
        ensures
            final(self).model() == (MemoryStoreModel { fail_delete: value, ..old(self).model() }),
    {
        proof {
            use_type_invariant(&*self);
        }
        self.failing_delete = value;
    }

    /// What `load` answers, read against the model.
    pub fn load_secrets(&self) -> (r: Result<Option<ActivationSecrets>, ActivationSecretError>)
        ensures
            match (r, spec_memory_load(self.model())) {
                (Ok(Some(s)), Ok(Some(v))) => secrets_view(s) == v && s.valid(),
                (Ok(None), Ok(None)) => true,
                (Err(e), Err(f)) => e == f,
                _ => false,
            },
    {
        proof {
            use_type_invariant(self);
        }
        if self.failing_load {
            return Err(ActivationSecretError::Operation);
        }
        match &self.value {
            Some(value) => Ok(Some(value.duplicate())),
            None => Ok(None),
        }
    }

    /// What `store` does, read against the model.
    pub fn store_secrets(&mut self, secrets: &ActivationSecrets) -> (r: Result<(), ActivationSecretError>)
        ensures
            final(self).model() == spec_memory_store(old(self).model(), *secrets).0,
            r == spec_memory_store(old(self).model(), *secrets).1,
    {
        proof {
            use_type_invariant(&*self);
        }
        secrets.validate()?;
        if self.failing_store {
            return Err(ActivationSecretError::Operation);
        }
        self.value = Some(secrets.duplicate());
        Ok(())
    }

    /// What `delete` does, read against the model.
    pub fn delete_secrets(&mut self) -> (r: Result<(), ActivationSecretError>)
        ensures
            final(self).model() == spec_memory_delete(old(self).model()).0,
            r == spec_memory_delete(old(self).model()).1,
    {
        if self.failing_delete {
            return Err(ActivationSecretError::Operation);
        }
        self.value = None;
        Ok(())
    }
}

impl ActivationSecretStore for MemoryActivationSecretStore {
    open spec fn stored(&self) -> Option<(Seq<char>, Seq<char>, Option<Seq<char>>)> {
        self.model().value
    }

    fn load(&self) -> (r: Result<Option<ActivationSecrets>, ActivationSecretError>)
        ensures
            match (r, spec_memory_load(self.model())) {
                (Ok(Some(s)), Ok(Some(v))) => secrets_view(s) == v && s.valid(),
                (Ok(None), Ok(None)) => true,
                (Err(e), Err(f)) => e == f,
                _ => false,
            },
    {
        self.load_secrets()
    }

    fn store(&mut self, secrets: &ActivationSecrets) -> (r: Result<(), ActivationSecretError>)
        ensures
            final(self).model() == spec_memory_store(old(self).model(), *secrets).0,
            r == spec_memory_store(old(self).model(), *secrets).1,
    {
        self.store_secrets(secrets)
    }

    fn delete(&mut self) -> (r: Result<(), ActivationSecretError>)
        ensures
            final(self).model() == spec_memory_delete(old(self).model()).0,
            r == spec_memory_delete(old(self).model()).1,
    {
        self.delete_secrets()
    }
}

impl ActivationSecrets {
    /// A copy holding the same values.
    pub fn duplicate(&self) -> (r: ActivationSecrets)
        ensures
            r == *self,
    {
        ActivationSecrets {
            device_id: self.device_id.clone(),
            activate_code: self.activate_code.clone(),
            token: match &self.token {
                Some(t) => Some(t.clone()),
                None => None,
            },
        }
    }
}

/// Storing valid secrets in a store that is not failing makes a later load
/// that is not failing give them back.
pub proof fn lemma_memory_store_then_load(m: MemoryStoreModel, secrets: ActivationSecrets)
    requires
        secrets.valid(),
        !m.fail_store,
        !m.fail_load,
    ensures
        spec_memory_store(m, secrets).1 is Ok,
        spec_memory_load(spec_memory_store(m, secrets).0) == Ok::<
            Option<(Seq<char>, Seq<char>, Option<Seq<char>>)>,
            ActivationSecretError,
        >(Some(secrets_view(secrets))),
{
}

/// A failed store never loses the secrets held before it.
pub proof fn lemma_memory_failed_store_keeps_value(m: MemoryStoreModel, secrets: ActivationSecrets)
    requires
        spec_memory_store(m, secrets).1 is Err,
    ensures
        spec_memory_store(m, secrets).0 == m,
{
}

/// Deleting is idempotent: a second successful delete changes nothing.
pub proof fn lemma_memory_delete_idempotent(m: MemoryStoreModel)
    requires
        !m.fail_delete,
    ensures
        spec_memory_delete(spec_memory_delete(m).0) == spec_memory_delete(m),
{
}

} // verus!
