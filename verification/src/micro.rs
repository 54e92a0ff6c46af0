//! The micro form: an address as a few bytes, with numbers in place of names.
//!
//! | bytes | content                                                        |
//! |-------|----------------------------------------------------------------|
//! | 0     | version of the format, `1`                                     |
//! | 1     | kind of authority address: `1` IPv4, `2` IPv6, `3` identifier  |
//! | 2, 3  | id of the resource, high byte first                            |
//! | 4, 5  | id of the entity, high byte first                              |
//! | 6     | major version of the entity                                    |
//! | 7     | not used; written as `0`, ignored when read                    |
//! | 8..   | the address: 4 bytes, 16 bytes, or a length byte and 1 to 255 bytes of identifier |
//!
//! The micro form always has an authority, an entity and a resource, and never a name.

use crate::error::CodecError;
use crate::uri::{
    AddressView, AuthorityAddress, AuthorityView, EntityView, ResourceView, UAuthority, UEntity,
    UResource, UUri, UriView,
};
use vstd::prelude::*;

verus! {

/// The version of the format that is written and read.
pub const MICRO_VERSION: u8 = 1;

/// The number of bytes before the authority address.
pub const HEADER_LENGTH: usize = 8;

/// The kind of address that is an IP address of four bytes.
pub const KIND_IPV4: u8 = 1;

/// The kind of address that is an IP address of sixteen bytes.
pub const KIND_IPV6: u8 = 2;

/// The kind of address that is an identifier.
pub const KIND_ID: u8 = 3;

/// The number that two bytes write, high byte first.
pub open spec fn be16(high: u8, low: u8) -> u32 {
    (high as u32 * 256 + low as u32) as u32
}

/// The kind byte of an address and the bytes that follow the header for it, or `None` for
/// an address that the micro form cannot hold.
pub open spec fn address_bytes(address: AddressView) -> Option<(u8, Seq<u8>)> {
    match address {
        AddressView::Ip(ip) => if ip.len() == 4 {
            Some((KIND_IPV4, ip))
        } else if ip.len() == 16 {
            Some((KIND_IPV6, ip))
        } else {
            None
        },
        AddressView::Id(id) => if 1 <= id.len() <= 255 {
            Some((KIND_ID, seq![id.len() as u8] + id))
        } else {
            None
        },
    }
}

/// The address that the bytes after the header write, for the kind in the header.
pub open spec fn decode_address(kind: u8, body: Seq<u8>) -> Result<AddressView, CodecError> {
    if kind == KIND_IPV4 {
        if body.len() == 4 {
            Ok(AddressView::Ip(body))
        } else {
            Err(CodecError::LengthMismatch)
        }
    } else if kind == KIND_IPV6 {
        if body.len() == 16 {
            Ok(AddressView::Ip(body))
        } else {
            Err(CodecError::LengthMismatch)
        }
    } else if kind == KIND_ID {
        if body.len() >= 2 && body[0] as int == body.len() - 1 {
            Ok(AddressView::Id(body.skip(1)))
        } else {
            Err(CodecError::LengthMismatch)
        }
    } else {
        Err(CodecError::UnknownAddressKind)
    }
}

/// The address that a micro form writes, or why the bytes are none.
pub open spec fn decode_micro(bytes: Seq<u8>) -> Result<UriView, CodecError> {
    if bytes.len() < HEADER_LENGTH {
        Err(CodecError::TooShort)
    } else if bytes[0] != MICRO_VERSION {
        Err(CodecError::UnsupportedVersion)
    } else {
        match decode_address(bytes[1], bytes.skip(HEADER_LENGTH as int)) {
            Err(e) => Err(e),
            Ok(address) => Ok(
                UriView {
                    authority: Some(AuthorityView { name: None, address: Some(address) }),
                    entity: Some(
                        EntityView {
                            name: Seq::empty(),
                            id: Some(be16(bytes[4], bytes[5])),
                            version_major: Some(bytes[6] as u32),
                        },
                    ),
                    resource: Some(
                        ResourceView {
                            name: Seq::empty(),
                            instance: None,
                            message: None,
                            id: Some(be16(bytes[2], bytes[3])),
                        },
                    ),
                },
            ),
        }
    }
}

/// Whether the address has all that the micro form carries, each number small enough for
/// its place.
pub open spec fn is_micro_form(uri: UriView) -> bool {
    &&& uri.authority is Some
    &&& uri.authority->0.address is Some
    &&& address_bytes(uri.authority->0.address->0) is Some
    &&& uri.entity is Some
    &&& uri.entity->0.id is Some
    &&& uri.entity->0.id->0 <= 0xFFFF
    &&& uri.entity->0.version_major is Some
    &&& uri.entity->0.version_major->0 <= 0xFF
    &&& uri.resource is Some
    &&& uri.resource->0.id is Some
    &&& uri.resource->0.id->0 <= 0xFFFF
}

/// The micro form of an address, or an error where the address has none.
pub open spec fn encode_micro(uri: UriView) -> Result<Seq<u8>, CodecError> {
    if is_micro_form(uri) {
        let (kind, body) = address_bytes(uri.authority->0.address->0)->0;
        let entity = uri.entity->0.id->0;
        let resource = uri.resource->0.id->0;
        Ok(
            seq![
                MICRO_VERSION,
                kind,
                (resource / 256) as u8,
                (resource % 256) as u8,
                (entity / 256) as u8,
                (entity % 256) as u8,
                uri.entity->0.version_major->0 as u8,
                0u8,
            ] + body,
        )
    } else {
        Err(CodecError::NotMicroForm)
    }
}

/// What the micro form keeps of an address: the numbers, without the names.
pub open spec fn numbers_of(uri: UriView) -> UriView {
    UriView {
        authority: match uri.authority {
            Some(a) => Some(AuthorityView { name: None, address: a.address }),
            None => None,
        },
        entity: match uri.entity {
            Some(e) => Some(EntityView { name: Seq::empty(), ..e }),
            None => None,
        },
        resource: match uri.resource {
            Some(r) => Some(
                ResourceView { name: Seq::empty(), instance: None, message: None, id: r.id },
            ),
            None => None,
        },
    }
}

/// Reading what was written gives the numbers of the address back.
pub proof fn lemma_decode_of_encoded(uri: UriView)
    requires
        is_micro_form(uri),
    ensures
        encode_micro(uri) matches Ok(bytes) && decode_micro(bytes) == Ok::<UriView, CodecError>(
            numbers_of(uri),
        ),
{
    let bytes = encode_micro(uri)->Ok_0;
    let address = uri.authority->0.address->0;
    let (kind, body) = address_bytes(address)->0;
    assert(bytes.skip(HEADER_LENGTH as int) =~= body);
    match address {
        AddressView::Ip(ip) => {},
        AddressView::Id(id) => {
            assert(body.skip(1) =~= id);
        },
    }
    let entity = uri.entity->0.id->0;
    let resource = uri.resource->0.id->0;
    assert(be16((entity / 256) as u8, (entity % 256) as u8) == entity);
    assert(be16((resource / 256) as u8, (resource % 256) as u8) == resource);
}

/// An address that was read has a micro form, and reading that gives the same address.
pub proof fn lemma_encode_of_decoded(bytes: Seq<u8>)
    requires
        decode_micro(bytes) is Ok,
    ensures
        is_micro_form(decode_micro(bytes)->Ok_0),
        encode_micro(decode_micro(bytes)->Ok_0) == Ok::<Seq<u8>, CodecError>(bytes.update(7, 0u8)),
        decode_micro(bytes.update(7, 0u8)) == decode_micro(bytes),
{
    let uri = decode_micro(bytes)->Ok_0;
    let body = bytes.skip(HEADER_LENGTH as int);
    let address = uri.authority->0.address->0;
    if bytes[1] == KIND_ID {
        assert(seq![body.skip(1).len() as u8] + body.skip(1) =~= body);
    }
    let entity = be16(bytes[4], bytes[5]);
    let resource = be16(bytes[2], bytes[3]);
    assert((entity / 256) as u8 == bytes[4] && (entity % 256) as u8 == bytes[5]);
    assert((resource / 256) as u8 == bytes[2] && (resource % 256) as u8 == bytes[3]);
    assert(encode_micro(uri)->Ok_0 =~= bytes.update(7, 0u8));
    assert(bytes.update(7, 0u8).skip(HEADER_LENGTH as int) =~= body);
}

/// The bytes of `bytes` from `from` on.
fn tail_of(bytes: &[u8], from: usize) -> (tail: Vec<u8>)
    requires
        from <= bytes.len(),
    ensures
        tail@ == bytes@.skip(from as int),
{
    let mut tail: Vec<u8> = Vec::new();
    let mut i: usize = from;
    while i < bytes.len()
        invariant
            from <= i <= bytes.len(),
            tail@ == bytes@.subrange(from as int, i as int),
        decreases bytes.len() - i,
    {
        tail.push(bytes[i]);
        i += 1;
    }
    assert(tail@ =~= bytes@.skip(from as int));
    tail
}

/// Appends `bytes` to `out`.
fn extend(out: &mut Vec<u8>, bytes: &Vec<u8>)
    ensures
        final(out)@ == old(out)@ + bytes@,
{
    let mut i: usize = 0;
    while i < bytes.len()
        invariant
            i <= bytes.len(),
            out@ == old(out)@ + bytes@.take(i as int),
        decreases bytes.len() - i,
    {
        out.push(bytes[i]);
        i += 1;
        assert(out@ =~= old(out)@ + bytes@.take(i as int));
    }
    assert(bytes@.take(i as int) =~= bytes@);
}

/// Reads and writes the micro form.
pub struct MicroUriSerializer;

impl MicroUriSerializer {
    /// Reads an address from its micro form.
    ///
    /// The result is what `decode_micro` gives for the bytes: an address with authority,
    /// entity and resource, each with its number and without a name; or the reason why the
    /// bytes are no micro form.
    pub fn deserialize(bytes: &[u8]) -> (r: Result<UUri, CodecError>)
        ensures
            match decode_micro(bytes@) {
                Ok(uri) => r matches Ok(u) && u@ == uri,
                Err(e) => r == Err::<UUri, CodecError>(e),
            },
    {
        if bytes.len() < HEADER_LENGTH {
            return Err(CodecError::TooShort);
        }
        if bytes[0] != MICRO_VERSION {
            return Err(CodecError::UnsupportedVersion);
        }
        let kind = bytes[1];
        let body_length: usize = bytes.len() - HEADER_LENGTH;
        let address = if kind == KIND_IPV4 {
            if body_length != 4 {
                return Err(CodecError::LengthMismatch);
            }
            AuthorityAddress::Ip(tail_of(bytes, HEADER_LENGTH))
        } else if kind == KIND_IPV6 {
            if body_length != 16 {
                return Err(CodecError::LengthMismatch);
            }
            AuthorityAddress::Ip(tail_of(bytes, HEADER_LENGTH))
        } else if kind == KIND_ID {
            if body_length < 2 || bytes[HEADER_LENGTH] as usize != body_length - 1 {
                return Err(CodecError::LengthMismatch);
            }
            assert(bytes@.skip(HEADER_LENGTH as int).skip(1) =~= bytes@.skip(
                HEADER_LENGTH as int + 1,
            ));
            AuthorityAddress::Id(tail_of(bytes, HEADER_LENGTH + 1))
        } else {
            return Err(CodecError::UnknownAddressKind);
        };
        let resource_id: u32 = bytes[2] as u32 * 256 + bytes[3] as u32;
        let entity_id: u32 = bytes[4] as u32 * 256 + bytes[5] as u32;
        Ok(
            UUri {
                authority: Some(UAuthority { name: None, address: Some(address) }),
                entity: Some(
                    UEntity {
                        name: String::new(),
                        id: Some(entity_id),
                        version_major: Some(bytes[6] as u32),
                    },
                ),
                resource: Some(
                    UResource {
                        name: String::new(),
                        instance: None,
                        message: None,
                        id: Some(resource_id),
                    },
                ),
            },
        )
    }

    /// Writes the micro form of an address.
    ///
    /// Succeeds for the addresses that `is_micro_form` describes, with the bytes that
    /// `encode_micro` gives, and fails with `NotMicroForm` for every other.
    pub fn serialize(uri: &UUri) -> (r: Result<Vec<u8>, CodecError>)
        ensures
            match encode_micro(uri@) {
                Ok(bytes) => r matches Ok(b) && b@ == bytes,
                Err(e) => r == Err::<Vec<u8>, CodecError>(e),
            },
    {
        let (kind, address): (u8, &Vec<u8>) = match &uri.authority {
            Some(UAuthority { address: Some(AuthorityAddress::Ip(ip)), .. }) => {
                if ip.len() == 4 {
                    (KIND_IPV4, ip)
                } else if ip.len() == 16 {
                    (KIND_IPV6, ip)
                } else {
                    return Err(CodecError::NotMicroForm);
                }
            },
            Some(UAuthority { address: Some(AuthorityAddress::Id(id)), .. }) => {
                if 1 <= id.len() && id.len() <= 255 {
                    (KIND_ID, id)
                } else {
                    return Err(CodecError::NotMicroForm);
                }
            },
            _ => {
                return Err(CodecError::NotMicroForm);
            },
        };
        let (entity_id, version): (u32, u32) = match &uri.entity {
            Some(UEntity { id: Some(id), version_major: Some(version), .. }) => (*id, *version),
            _ => {
                return Err(CodecError::NotMicroForm);
            },
        };
        let resource_id: u32 = match &uri.resource {
            Some(UResource { id: Some(id), .. }) => *id,
            _ => {
                return Err(CodecError::NotMicroForm);
            },
        };
        if entity_id > 0xFFFF || version > 0xFF || resource_id > 0xFFFF {
            return Err(CodecError::NotMicroForm);
        }
        let mut out: Vec<u8> = Vec::new();
        out.push(MICRO_VERSION);
        out.push(kind);
        out.push((resource_id / 256) as u8);
        out.push((resource_id % 256) as u8);
        out.push((entity_id / 256) as u8);
        out.push((entity_id % 256) as u8);
        out.push(version as u8);
        out.push(0);
        if kind == KIND_ID {
            out.push(address.len() as u8);
        }
        extend(&mut out, address);
        assert(out@ =~= encode_micro(uri@)->Ok_0);
        Ok(out)
    }
}

} // verus!
