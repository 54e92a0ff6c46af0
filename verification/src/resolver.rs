//! Resolving an address from its long form and its micro form.
//!
//! The long form has the names, the micro form has the numbers. The resolved address takes
//! authority and entity from the micro form and gives them the names of the long form, and
//! takes the resource from the long form and gives it the id of the micro form.

use crate::error::{failure, failure_with, ErrorKind, ErrorView, SerializationError};
use crate::micro::{decode_micro, encode_micro, MicroUriSerializer};
use crate::parser::{parse_long_form, result_view};
use crate::serializer::long_form;
use crate::uri::{
    AuthorityView, EntityView, ResourceView, UAuthority, UEntity, UResource, UUri, UriValidator,
    UriView,
};
use vstd::prelude::*;

verus! {

/// The authority of the micro form, under the name that the long form gives, if it gives
/// one.
pub open spec fn merge_authority(
    micro: AuthorityView,
    long: Option<AuthorityView>,
) -> AuthorityView {
    match long {
        Some(AuthorityView { name: Some(name), .. }) => AuthorityView { name: Some(name), ..micro },
        _ => micro,
    }
}

/// The entity of the micro form, under the name that the long form gives, if it has an
/// entity.
pub open spec fn merge_entity(micro: EntityView, long: Option<EntityView>) -> EntityView {
    match long {
        Some(entity) => EntityView { name: entity.name, ..micro },
        None => micro,
    }
}

/// The resource of the long form, with the id that the micro form gives, if it has a
/// resource.
pub open spec fn merge_resource(long: ResourceView, micro: Option<ResourceView>) -> ResourceView {
    match micro {
        Some(resource) => ResourceView { id: resource.id, ..long },
        None => long,
    }
}

/// The three components merged, whether or not the result is resolved.
pub open spec fn merged(long: UriView, micro: UriView) -> UriView
    recommends
        micro.authority is Some,
        micro.entity is Some,
        long.resource is Some,
{
    UriView {
        authority: Some(merge_authority(micro.authority->0, long.authority)),
        entity: Some(merge_entity(micro.entity->0, long.entity)),
        resource: Some(merge_resource(long.resource->0, micro.resource)),
    }
}

/// The resolved address of a long and a micro form that were read, or why there is none:
/// the micro form lacks authority or entity, the long form lacks a resource, or what was
/// merged is not resolved. The last error quotes the long form of what was merged.
pub open spec fn resolve(long: UriView, micro: UriView) -> Result<UriView, ErrorView> {
    if micro.authority is None {
        Err(failure(ErrorKind::MicroMissingAuthority))
    } else if micro.entity is None {
        Err(failure(ErrorKind::MicroMissingEntity))
    } else if long.resource is None {
        Err(failure(ErrorKind::LongMissingResource))
    } else if merged(long, micro).is_resolved() {
        Ok(merged(long, micro))
    } else {
        Err(failure_with(ErrorKind::UnresolvableAddress, long_form(merged(long, micro))))
    }
}

/// The resolved address of a long form and a micro form, or why there is none: either is
/// empty, either cannot be read, or `resolve` fails on what was read.
pub open spec fn build_resolved(long_uri: Seq<char>, micro_uri: Seq<u8>) -> Result<
    UriView,
    ErrorView,
> {
    if long_uri.len() == 0 {
        Err(failure(ErrorKind::EmptyLongForm))
    } else if micro_uri.len() == 0 {
        Err(failure(ErrorKind::EmptyMicroForm))
    } else {
        match parse_long_form(long_uri) {
            Err(e) => Err(e),
            Ok(long) => match decode_micro(micro_uri) {
                Err(e) => Err(failure(ErrorKind::Codec(e))),
                Ok(micro) => resolve(long, micro),
            },
        }
    }
}

/// The authority of the micro form under the name of the long form.
fn merged_authority(micro: UAuthority, long: Option<UAuthority>) -> (a: UAuthority)
    ensures
        a@ == merge_authority(
            micro@,
            match long {
                Some(l) => Some(l@),
                None => None,
            },
        ),
{
    match long {
        Some(UAuthority { name: Some(name), .. }) => UAuthority {
            name: Some(name),
            address: micro.address,
        },
        _ => micro,
    }
}

/// The entity of the micro form under the name of the long form.
fn merged_entity(micro: UEntity, long: Option<UEntity>) -> (e: UEntity)
    ensures
        e@ == merge_entity(
            micro@,
            match long {
                Some(l) => Some(l@),
                None => None,
            },
        ),
{
    match long {
        Some(entity) => UEntity {
            name: entity.name,
            id: micro.id,
            version_major: micro.version_major,
        },
        None => micro,
    }
}

/// The resource of the long form with the id of the micro form.
fn merged_resource(long: UResource, micro: Option<UResource>) -> (r: UResource)
    ensures
        r@ == merge_resource(
            long@,
            match micro {
                Some(m) => Some(m@),
                None => None,
            },
        ),
{
    match micro {
        Some(resource) => UResource {
            name: long.name,
            instance: long.instance,
            message: long.message,
            id: resource.id,
        },
        None => long,
    }
}

impl UUri {
    /// Reads an address from its micro form.
    ///
    /// The address is the one that `decode_micro` gives; where that fails, the error is of
    /// the kind `Codec` and holds the reason.
    pub fn from_micro_bytes(bytes: &[u8]) -> (r: Result<UUri, SerializationError>)
        ensures
            match decode_micro(bytes@) {
                Ok(uri) => r matches Ok(u) && u@ == uri,
                Err(e) => r matches Err(x) && x@ == failure(ErrorKind::Codec(e)),
            },
    {
        match MicroUriSerializer::deserialize(bytes) {
            Ok(uri) => Ok(uri),
            Err(e) => Err(SerializationError::of_kind(ErrorKind::Codec(e))),
        }
    }

    /// Writes the micro form of the address.
    ///
    /// The bytes are those that `encode_micro` gives; where that fails, the error is of the
    /// kind `Codec` and holds the reason.
    pub fn to_micro_bytes(&self) -> (r: Result<Vec<u8>, SerializationError>)
        ensures
            match encode_micro(self@) {
                Ok(bytes) => r matches Ok(b) && b@ == bytes,
                Err(e) => r matches Err(x) && x@ == failure(ErrorKind::Codec(e)),
            },
    {
        match MicroUriSerializer::serialize(self) {
            Ok(bytes) => Ok(bytes),
            Err(e) => Err(SerializationError::of_kind(ErrorKind::Codec(e))),
        }
    }

    /// Merges an address read from a long form with one read from a micro form.
    ///
    /// Names come from `long`, numbers from `micro`. The result is what `resolve` gives for
    /// the two: the merged address where it is resolved, and else the error.
    pub fn resolve(long: UUri, micro: UUri) -> (r: Result<UUri, SerializationError>)
        ensures
            result_view(r) == resolve(long@, micro@),
            long@.resource is None ==> r is Err,
    {
        let authority = match micro.authority {
            Some(a) => a,
            None => {
                return Err(SerializationError::of_kind(ErrorKind::MicroMissingAuthority));
            },
        };
        let entity = match micro.entity {
            Some(e) => e,
            None => {
                return Err(SerializationError::of_kind(ErrorKind::MicroMissingEntity));
            },
        };
        let resource = match long.resource {
            Some(r) => r,
            None => {
                return Err(SerializationError::of_kind(ErrorKind::LongMissingResource));
            },
        };
        let uri = UUri {
            authority: Some(merged_authority(authority, long.authority)),
            entity: Some(merged_entity(entity, long.entity)),
            resource: Some(merged_resource(resource, micro.resource)),
        };
        assert(uri@ == merged(long@, micro@));
        if UriValidator::is_resolved(&uri) {
            Ok(uri)
        } else {
            match uri.to_uri_string() {
                Ok(text) => Err(
                    SerializationError::with_detail(ErrorKind::UnresolvableAddress, text.as_str()),
                ),
                Err(e) => Err(e),
            }
        }
    }

    /// Builds the resolved address of a long form and a micro form of it.
    ///
    /// Fails where either is empty, where either cannot be read, where the long form names
    /// no resource, and where the merged address is not resolved; the result is what
    /// `build_resolved` gives for the two.
    pub fn build_resolved(long_uri: &str, micro_uri: &[u8]) -> (r: Result<
        UUri,
        SerializationError,
    >)
        ensures
            result_view(r) == build_resolved(long_uri@, micro_uri@),
            long_uri@.len() == 0 || micro_uri@.len() == 0 ==> r is Err,
    {
        if long_uri.is_empty() {
            return Err(SerializationError::of_kind(ErrorKind::EmptyLongForm));
        }
        if micro_uri.len() == 0 {
            return Err(SerializationError::of_kind(ErrorKind::EmptyMicroForm));
        }
        let long = match UUri::from_str(long_uri) {
            Ok(uri) => uri,
            Err(e) => {
                return Err(e);
            },
        };
        let micro = match UUri::from_micro_bytes(micro_uri) {
            Ok(uri) => uri,
            Err(e) => {
                return Err(e);
            },
        };
        UUri::resolve(long, micro)
    }
}

} // verus!
