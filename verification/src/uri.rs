//! The address and its three components, with the views that contracts speak of.
//!
//! An address names an entity (a service or an application), optionally the authority (the
//! deployment) that it runs on, and optionally one of its resources. Names come from the long
//! form, numbers from the micro form; a resolved address carries both.

use vstd::prelude::*;

verus! {

/// The binary address of an authority.
#[derive(Debug, Clone, PartialEq, Eq)]
pub enum AuthorityAddress {
    /// An IP address: four bytes for version 4, sixteen for version 6.
    Ip(Vec<u8>),
    /// An identifier of the authority's own choosing.
    Id(Vec<u8>),
}

/// Where an entity is deployed. An address without authority is local.
#[derive(Debug, Clone, PartialEq, Eq)]
pub struct UAuthority {
    pub name: Option<String>,
    pub address: Option<AuthorityAddress>,
}

/// A service or an application. A major version of zero is not an absent one.
#[derive(Debug, Clone, PartialEq, Eq)]
pub struct UEntity {
    pub name: String,
    pub id: Option<u32>,
    pub version_major: Option<u32>,
}

/// A topic or a method of an entity.
#[derive(Debug, Clone, PartialEq, Eq)]
pub struct UResource {
    pub name: String,
    pub instance: Option<String>,
    pub message: Option<String>,
    pub id: Option<u32>,
}

/// An address.
#[derive(Debug, Clone, PartialEq, Eq)]
pub struct UUri {
    pub authority: Option<UAuthority>,
    pub entity: Option<UEntity>,
    pub resource: Option<UResource>,
}

/// An authority's address as contracts see it.
pub enum AddressView {
    Ip(Seq<u8>),
    Id(Seq<u8>),
}

/// An authority as contracts see it.
pub struct AuthorityView {
    pub name: Option<Seq<char>>,
    pub address: Option<AddressView>,
}

/// An entity as contracts see it.
pub struct EntityView {
    pub name: Seq<char>,
    pub id: Option<u32>,
    pub version_major: Option<u32>,
}

/// A resource as contracts see it.
pub struct ResourceView {
    pub name: Seq<char>,
    pub instance: Option<Seq<char>>,
    pub message: Option<Seq<char>>,
    pub id: Option<u32>,
}

/// An address as contracts see it.
pub struct UriView {
    pub authority: Option<AuthorityView>,
    pub entity: Option<EntityView>,
    pub resource: Option<ResourceView>,
}

/// The characters of an optional string.
pub open spec fn text_view(text: Option<String>) -> Option<Seq<char>> {
    match text {
        Some(s) => Some(s@),
        None => None,
    }
}

impl View for AuthorityAddress {
    type V = AddressView;

    open spec fn view(&self) -> AddressView {
        match *self {
            AuthorityAddress::Ip(bytes) => AddressView::Ip(bytes@),
            AuthorityAddress::Id(bytes) => AddressView::Id(bytes@),
        }
    }
}

impl View for UAuthority {
    type V = AuthorityView;

    open spec fn view(&self) -> AuthorityView {
        AuthorityView {
            name: text_view(self.name),
            address: match self.address {
                Some(a) => Some(a@),
                None => None,
            },
        }
    }
}

impl View for UEntity {
    type V = EntityView;

    open spec fn view(&self) -> EntityView {
        EntityView { name: self.name@, id: self.id, version_major: self.version_major }
    }
}

impl View for UResource {
    type V = ResourceView;

    open spec fn view(&self) -> ResourceView {
        ResourceView {
            name: self.name@,
            instance: text_view(self.instance),
            message: text_view(self.message),
            id: self.id,
        }
    }
}

impl View for UUri {
    type V = UriView;

    open spec fn view(&self) -> UriView {
        UriView {
            authority: match self.authority {
                Some(a) => Some(a@),
                None => None,
            },
            entity: match self.entity {
                Some(e) => Some(e@),
                None => None,
            },
            resource: match self.resource {
                Some(r) => Some(r@),
                None => None,
            },
        }
    }
}

impl AuthorityView {
    /// An authority that has a name and nothing else.
    pub open spec fn named(name: Seq<char>) -> AuthorityView {
        AuthorityView { name: Some(name), address: None }
    }

    /// The authority has a name that is not empty, and an address.
    pub open spec fn is_resolved(self) -> bool {
        &&& self.name matches Some(name) && name.len() > 0
        &&& self.address is Some
    }
}

impl EntityView {
    /// The entity has a name that is not empty, and an id.
    pub open spec fn is_resolved(self) -> bool {
        self.name.len() > 0 && self.id is Some
    }
}

impl ResourceView {
    /// The resource has a name that is not empty, and an id.
    pub open spec fn is_resolved(self) -> bool {
        self.name.len() > 0 && self.id is Some
    }
}

impl UriView {
    /// The address without any component.
    pub open spec fn empty() -> UriView {
        UriView { authority: None, entity: None, resource: None }
    }

    /// There is no authority, no entity and no resource.
    pub open spec fn is_empty(self) -> bool {
        self.authority is None && self.entity is None && self.resource is None
    }

    /// There is an authority: the address is that of another deployment.
    pub open spec fn is_remote(self) -> bool {
        self.authority is Some
    }

    /// Each component that is there has both its name and its number.
    pub open spec fn is_resolved(self) -> bool {
        &&& self.authority matches Some(a) ==> a.is_resolved()
        &&& self.entity matches Some(e) ==> e.is_resolved()
        &&& self.resource matches Some(r) ==> r.is_resolved()
    }
}

impl Default for UAuthority {
    fn default() -> (a: UAuthority)
        ensures
            a@ == (AuthorityView { name: None, address: None }),
    {
        UAuthority { name: None, address: None }
    }
}

impl Default for UEntity {
    fn default() -> (e: UEntity)
        ensures
            e@ == (EntityView { name: Seq::empty(), id: None, version_major: None }),
    {
        UEntity { name: String::new(), id: None, version_major: None }
    }
}

impl Default for UResource {
    fn default() -> (r: UResource)
        ensures
            r@ == (ResourceView { name: Seq::empty(), instance: None, message: None, id: None }),
    {
        UResource { name: String::new(), instance: None, message: None, id: None }
    }
}

impl Default for UUri {
    fn default() -> (u: UUri)
        ensures
            u@ == UriView::empty(),
    {
        UUri { authority: None, entity: None, resource: None }
    }
}

/// The predicates on addresses that serializing and resolving go by.
pub struct UriValidator;

impl UriValidator {
    /// Whether the address has no authority, no entity and no resource.
    pub fn is_empty(uri: &UUri) -> (b: bool)
        ensures
            b == uri@.is_empty(),
    {
        uri.authority.is_none() && uri.entity.is_none() && uri.resource.is_none()
    }

    /// Whether the address names another deployment.
    pub fn is_remote(uri: &UUri) -> (b: bool)
        ensures
            b == uri@.is_remote(),
    {
        uri.authority.is_some()
    }

    /// Whether each component that is there has both its name and its number.
    pub fn is_resolved(uri: &UUri) -> (b: bool)
        ensures
            b == uri@.is_resolved(),
    {
        let authority_ok = match &uri.authority {
            Some(a) => {
                let named = match &a.name {
                    Some(name) => !name.as_str().is_empty(),
                    None => false,
                };
                named && a.address.is_some()
            },
            None => true,
        };
        let entity_ok = match &uri.entity {
            Some(e) => !e.name.as_str().is_empty() && e.id.is_some(),
            None => true,
        };
        let resource_ok = match &uri.resource {
            Some(r) => !r.name.as_str().is_empty() && r.id.is_some(),
            None => true,
        };
        authority_ok && entity_ok && resource_ok
    }
}

} // verus!
