//! The local onion service: how it is chosen and what the engine needs of
//! it.
//!
//! Creating or adopting the service over the Tor control port, and keeping
//! its key on disk, belong to the surrounding program; the engine consumes
//! only the service's name, identity and signing key, carried here.

use vstd::prelude::*;

verus! {

use crate::identity::ServiceId;

/// Which kind of onion service to run.
#[derive(Debug)]
pub enum OnionType {
    /// A fresh service that lives only as long as this process.
    Transient,
    /// A named service whose key persists; `create` asks for a new one.
    Persistent { name: String, create: bool },
}

impl OnionType {
    /// A fresh transient service.
    pub fn new_transient() -> (r: OnionType)
        ensures
            r is Transient,
    {
        OnionType::Transient
    }

    /// A persistent service to be newly created under `name`.
    pub fn new_persistent(name: &str) -> (r: OnionType)
        ensures
            r matches OnionType::Persistent { name: n, create } && n@ == name@ && create,
    {
        OnionType::Persistent { name: String::from_str(name), create: true }
    }

    /// An already existing persistent service under `name`.
    pub fn existing_persistent(name: &str) -> (r: OnionType)
        ensures
            r matches OnionType::Persistent { name: n, create } && n@ == name@ && !create,
    {
        OnionType::Persistent { name: String::from_str(name), create: false }
    }
}

impl Clone for OnionType {
    fn clone(&self) -> (r: Self)
        ensures
            match self {
                OnionType::Transient => r is Transient,
                OnionType::Persistent { name, create } => r matches OnionType::Persistent {
                    name: n,
                    create: c,
                } && n@ == name@ && c == create,
            },
    {
        match self {
            OnionType::Transient => OnionType::Transient,
            OnionType::Persistent { name, create } => OnionType::Persistent {
                name: name.clone(),
                create: *create,
            },
        }
    }
}

/// What the engine needs of the local onion service: its name, its
/// identity, and its 64-byte expanded Ed25519 signing key.
#[derive(Debug)]
pub struct OnionService {
    name: String,
    service_id: ServiceId,
    signing_key: Vec<u8>,
}

impl OnionService {
    /// The service's name.
    pub closed spec fn name_view(&self) -> Seq<char> {
        self.name@
    }

    /// The service's identity text.
    pub closed spec fn id_view(&self) -> Seq<char> {
        self.service_id@
    }

    /// The signing key's bytes.
    pub closed spec fn key(&self) -> Seq<u8> {
        self.signing_key@
    }

    /// The service's invariant: a 64-byte signing key.
    pub open spec fn wf(&self) -> bool {
        self.key().len() == 64
    }

    /// Bundles a service's name, identity and signing key.
    pub fn new(name: &str, service_id: ServiceId, signing_key: Vec<u8>) -> (r: OnionService)
        requires
            signing_key@.len() == 64,
        ensures
            r.wf(),
            r.name_view() == name@,
            r.id_view() == service_id@,
            r.key() == signing_key@,
    {
        OnionService { name: String::from_str(name), service_id, signing_key }
    }

    /// The service's name.
    pub fn name(&self) -> (r: &String)
        ensures
            r@ == self.name_view(),
    {
        &self.name
    }

    /// The service's identity.
    pub fn service_id(&self) -> (r: ServiceId)
        ensures
            r@ == self.id_view(),
    {
        self.service_id.clone()
    }

    /// A copy of the signing key's bytes.
    pub fn signing_key(&self) -> (r: Vec<u8>)
        ensures
            r@ == self.key(),
    {
        self.signing_key.clone()
    }
}

} // verus!
