//! Reading the long form: text to address.
//!
//! A local address is `/entity/version/resource`, a remote one
//! `//authority/entity/version/resource`. What follows the entity may be left out, and so
//! may the version between two slashes. A scheme in front, up to the first `:`, is dropped.

use crate::decimal::{parse_decimal_u32, parse_u32};
use crate::error::{failure, failure_with, ErrorKind, ErrorView, SerializationError};
use crate::resource::parse_resource;
use crate::text::{
    after_first, chars_of, drop_trailing_empty, find_char, first_index, has_char, is_blank,
    lemma_first_index, pattern_split, split, string_of, text_is_blank, views,
};
use crate::uri::{AuthorityView, EntityView, UAuthority, UEntity, UResource, UUri, UriView};
use vstd::prelude::*;

verus! {

/// The text as it is split: without its scheme where there is a `:`, and else with each
/// backslash turned into a slash.
pub open spec fn without_scheme(text: Seq<char>) -> Seq<char> {
    if has_char(text, ':') {
        after_first(text, ':')
    } else {
        Seq::new(
            text.len(),
            |i: int|
                if text[i] == '\\' {
                    '/'
                } else {
                    text[i]
                },
        )
    }
}

/// Whether the text starts with two slashes, as a remote address does.
pub open spec fn starts_remote(text: Seq<char>) -> bool {
    text.len() >= 2 && text[0] == '/' && text[1] == '/'
}

/// The major version that a segment writes: none where the segment is empty, and an error
/// that quotes the segment where it is no unsigned 32-bit integer.
pub open spec fn parse_version(segment: Seq<char>) -> Result<Option<u32>, ErrorView> {
    if segment.len() == 0 {
        Ok(None)
    } else {
        match parse_u32(segment) {
            Some(version) => Ok(Some(version)),
            None => Err(failure_with(ErrorKind::InvalidVersion, segment)),
        }
    }
}

/// The address whose entity is named by segment `at`, with the version in the segment after
/// it and the resource in the one after that, as far as there are segments.
pub open spec fn parse_from_entity(
    authority: Option<AuthorityView>,
    segments: Seq<Seq<char>>,
    at: int,
) -> Result<UriView, ErrorView> {
    let version = if segments.len() > at + 1 {
        segments[at + 1]
    } else {
        Seq::empty()
    };
    match parse_version(version) {
        Err(e) => Err(e),
        Ok(version_major) => Ok(
            UriView {
                authority,
                entity: Some(EntityView { name: segments[at], id: None, version_major }),
                resource: if segments.len() > at + 2 {
                    Some(parse_resource(segments[at + 2]))
                } else {
                    None
                },
            },
        ),
    }
}

/// The address that a long form writes, or why it writes none.
pub open spec fn parse_long_form(text: Seq<char>) -> Result<UriView, ErrorView> {
    if text.len() == 0 {
        Err(failure(ErrorKind::EmptyInput))
    } else {
        let stripped = without_scheme(text);
        let segments = pattern_split(stripped, '/');
        if segments.len() < 2 {
            Err(failure(ErrorKind::MissingEntityOrResource))
        } else if !starts_remote(stripped) {
            parse_from_entity(None, segments, 1)
        } else if segments.len() > 2 && is_blank(segments[2]) {
            Err(failure(ErrorKind::MissingAuthority))
        } else {
            let authority = if segments.len() > 2 {
                Some(AuthorityView::named(segments[2]))
            } else {
                None
            };
            if segments.len() > 3 {
                parse_from_entity(authority, segments, 3)
            } else {
                Ok(UriView { authority, entity: None, resource: None })
            }
        }
    }
}

/// An address or an error as contracts see it.
pub open spec fn result_view(r: Result<UUri, SerializationError>) -> Result<UriView, ErrorView> {
    match r {
        Ok(uri) => Ok(uri@),
        Err(e) => Err(e@),
    }
}

/// The characters of `uri` without the scheme, or with slashes for backslashes.
fn stripped_chars(uri: &str) -> (stripped: Vec<char>)
    ensures
        stripped@ == without_scheme(uri@),
{
    let v = chars_of(uri);
    let colon = find_char(&v, 0, ':');
    assert(v@.skip(0) =~= v@);
    let mut stripped: Vec<char> = Vec::new();
    if colon < v.len() {
        let mut i: usize = colon + 1;
        while i < v.len()
            invariant
                colon < i <= v.len(),
                stripped@ == v@.subrange(colon + 1, i as int),
            decreases v.len() - i,
        {
            stripped.push(v[i]);
            i += 1;
        }
        assert(stripped@ =~= v@.skip(colon + 1));
    } else {
        let mut i: usize = 0;
        while i < v.len()
            invariant
                i <= v.len(),
                stripped@ == without_scheme(v@).take(i as int),
                !has_char(v@, ':'),
            decreases v.len() - i,
        {
            let c = v[i];
            stripped.push(
                if c == '\\' {
                    '/'
                } else {
                    c
                },
            );
            i += 1;
            assert(stripped@ =~= without_scheme(v@).take(i as int));
        }
        assert(stripped@ =~= without_scheme(v@));
    }
    stripped
}

/// The pieces of `v` between the occurrences of `sep`, without the empty pieces at the end.
fn split_segments(v: &Vec<char>, sep: char) -> (parts: Vec<String>)
    ensures
        views(parts@) == pattern_split(v@, sep),
{
    let mut parts: Vec<String> = Vec::new();
    let mut start: usize = 0;
    assert(v@.skip(0) =~= v@);
    assert(views(parts@) + split(v@, sep) =~= split(v@, sep));
    loop
        invariant_except_break
            start <= v.len(),
            split(v@, sep) == views(parts@) + split(v@.skip(start as int), sep),
        ensures
            views(parts@) == split(v@, sep),
        decreases v.len() - start,
    {
        let end = find_char(v, start, sep);
        let piece = string_of(v, start, end);
        proof {
            let rest = v@.skip(start as int);
            lemma_first_index(rest, sep);
            assert(rest.take(end - start) =~= v@.subrange(start as int, end as int));
            assert(views(parts@.push(piece)) =~= views(parts@).push(piece@));
            if end < v.len() {
                assert(rest.skip(end - start + 1) =~= v@.skip(end + 1));
                assert(split(v@, sep) =~= views(parts@).push(piece@) + split(
                    v@.skip(end + 1),
                    sep,
                ));
            } else {
                assert(rest.take(end - start) =~= rest);
                assert(split(v@, sep) =~= views(parts@).push(piece@));
            }
        }
        parts.push(piece);
        if end == v.len() {
            break ;
        }
        start = end + 1;
    }
    while parts.len() > 0 && parts[parts.len() - 1].as_str().is_empty()
        invariant
            drop_trailing_empty(views(parts@)) == pattern_split(v@, sep),
        decreases parts.len(),
    {
        proof {
            assert(views(parts@).last() == parts@.last()@);
            assert(views(parts@.drop_last()) =~= views(parts@).drop_last());
        }
        parts.pop();
    }
    proof {
        if parts.len() > 0 {
            assert(views(parts@).last() == parts@.last()@);
        }
    }
    parts
}

/// The major version that a segment writes.
fn version_of(segment: &str) -> (r: Result<Option<u32>, SerializationError>)
    ensures
        match parse_version(segment@) {
            Ok(version) => r == Ok::<Option<u32>, SerializationError>(version),
            Err(e) => r matches Err(x) && x@ == e,
        },
{
    if segment.is_empty() {
        Ok(None)
    } else {
        match parse_decimal_u32(segment) {
            Some(version) => Ok(Some(version)),
            None => Err(SerializationError::with_detail(ErrorKind::InvalidVersion, segment)),
        }
    }
}

/// The address whose entity is named by segment `at`.
fn from_entity(authority: Option<UAuthority>, parts: &Vec<String>, at: usize) -> (r: Result<
    UUri,
    SerializationError,
>)
    requires
        at < parts.len(),
        at <= 3,
    ensures
        result_view(r) == parse_from_entity(
            match authority {
                Some(a) => Some(a@),
                None => None,
            },
            views(parts@),
            at as int,
        ),
{
    let version = if parts.len() > at + 1 {
        version_of(parts[at + 1].as_str())
    } else {
        Ok(None)
    };
    match version {
        Err(e) => Err(e),
        Ok(version_major) => {
            let resource = if parts.len() > at + 2 {
                Some(UResource::parse(parts[at + 2].as_str()))
            } else {
                None
            };
            let entity = UEntity { name: parts[at].clone(), id: None, version_major };
            Ok(UUri { authority, entity: Some(entity), resource })
        },
    }
}

impl UUri {
    /// The pieces of `input` between the occurrences of `pattern`, without the empty pieces
    /// at the end.
    pub fn pattern_split(input: &str, pattern: char) -> (parts: Vec<String>)
        ensures
            views(parts@) == pattern_split(input@, pattern),
    {
        let v = chars_of(input);
        split_segments(&v, pattern)
    }

    /// Reads an address from its long form.
    ///
    /// The result is the address that `parse_long_form` gives for the text, or the error that
    /// it gives: for an empty text, for one with fewer than two segments, for a remote one
    /// with a blank authority, and for a version that is no unsigned 32-bit integer.
    pub fn from_str(uri: &str) -> (r: Result<UUri, SerializationError>)
        ensures
            result_view(r) == parse_long_form(uri@),
    {
        if uri.is_empty() {
            return Err(SerializationError::of_kind(ErrorKind::EmptyInput));
        }
        let stripped = stripped_chars(uri);
        let is_local = !(stripped.len() >= 2 && stripped[0] == '/' && stripped[1] == '/');
        let parts = split_segments(&stripped, '/');
        if parts.len() < 2 {
            return Err(SerializationError::of_kind(ErrorKind::MissingEntityOrResource));
        }
        if is_local {
            return from_entity(None, &parts, 1);
        }
        if parts.len() > 2 && text_is_blank(parts[2].as_str()) {
            return Err(SerializationError::of_kind(ErrorKind::MissingAuthority));
        }
        let authority = if parts.len() > 2 {
            Some(UAuthority { name: Some(parts[2].clone()), address: None })
        } else {
            None
        };
        if parts.len() > 3 {
            from_entity(authority, &parts, 3)
        } else {
            Ok(UUri { authority, entity: None, resource: None })
        }
    }
}

} // verus!
