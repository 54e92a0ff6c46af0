//! What holds between reading and writing the long form, and of resolving.

use crate::decimal::{
    decimal_value, is_canonical_decimal, is_digit, lemma_canonical_decimal_text,
};
use crate::error::ErrorView;
use crate::parser::{parse_from_entity, parse_long_form, starts_remote, without_scheme};
use crate::resolver::resolve;
use crate::resource::lemma_resource_text_of_parsed;
use crate::serializer::{
    authority_part, entity_part, long_form_parts, resource_part, serialize_long_form,
    strip_trailing_slashes,
};
use crate::text::{
    first_index, has_char, is_blank, is_trimmed, join, lemma_first_index,
    lemma_first_index_unique, lemma_trim_of_trimmed, pattern_split, split,
};
use crate::uri::{AuthorityView, UriView};
use vstd::prelude::*;

verus! {

/// Whether a segment writes a version as the serializer does: not at all, or as the shortest
/// decimal text of an unsigned 32-bit integer.
pub open spec fn is_canonical_version(segment: Seq<char>) -> bool {
    segment.len() == 0 || (is_canonical_decimal(segment) && decimal_value(segment) <= u32::MAX)
}

/// Whether the segments from `at` on are an entity as the serializer writes it: a name
/// without white space around it, then a canonical version, then a resource, and no more.
pub open spec fn is_canonical_from_entity(segments: Seq<Seq<char>>, at: int) -> bool {
    &&& at < segments.len() <= at + 3
    &&& is_trimmed(segments[at])
    &&& segments.len() > at + 1 ==> is_canonical_version(segments[at + 1])
}

/// Whether `text` is a long form as the serializer writes it.
///
/// It has no scheme and no backslash, it starts with a slash and does not end in one, and
/// between its slashes stand the segments of a local address (entity, version, resource) or,
/// after two slashes, those of a remote one (an authority that is not blank, then entity,
/// version, resource), each entity and version written canonically.
pub open spec fn is_canonical_long_form(text: Seq<char>) -> bool {
    let segments = split(text, '/');
    &&& !has_char(text, ':')
    &&& !has_char(text, '\\')
    &&& text.len() > 0
    &&& text[0] == '/'
    &&& text.last() != '/'
    &&& if starts_remote(text) {
        &&& segments.len() >= 3
        &&& !is_blank(segments[2])
        &&& segments.len() > 3 ==> is_canonical_from_entity(segments, 3)
    } else {
        is_canonical_from_entity(segments, 1)
    }
}

/// The pieces of a text, joined by the separator, are the text.
pub proof fn lemma_join_of_split(text: Seq<char>, sep: char)
    ensures
        join(split(text, sep), sep) == text,
    decreases text.len(),
{
    lemma_first_index(text, sep);
    let i = first_index(text, sep);
    if i < text.len() {
        let rest = text.skip(i + 1);
        lemma_join_of_split(rest, sep);
        let parts = split(text, sep);
        assert(parts.drop_first() =~= split(rest, sep));
        assert(parts[0] == text.take(i));
        assert(split(rest, sep).len() >= 1) by {
            lemma_split_is_not_empty(rest, sep);
        }
        assert(join(parts, sep) == text.take(i).push(sep) + rest);
        assert(text.take(i).push(sep) + rest =~= text);
    } else {
        assert(split(text, sep) =~= seq![text]);
    }
}

/// A text has at least one piece.
pub proof fn lemma_split_is_not_empty(text: Seq<char>, sep: char)
    ensures
        split(text, sep).len() >= 1,
    decreases text.len(),
{
    lemma_first_index(text, sep);
    let i = first_index(text, sep);
    if i < text.len() {
        lemma_split_is_not_empty(text.skip(i + 1), sep);
    }
}

/// The last piece of a text that does not end in the separator is not empty.
pub proof fn lemma_split_last_is_not_empty(text: Seq<char>, sep: char)
    requires
        text.len() > 0,
        text.last() != sep,
    ensures
        split(text, sep).len() >= 1,
        split(text, sep).last().len() > 0,
    decreases text.len(),
{
    lemma_first_index(text, sep);
    let i = first_index(text, sep);
    if i < text.len() {
        let rest = text.skip(i + 1);
        assert(rest.len() > 0);
        assert(rest.last() == text.last());
        lemma_split_last_is_not_empty(rest, sep);
        assert(split(text, sep).last() == split(rest, sep).last());
    }
}

/// A text without colon and backslash is split as it stands.
pub proof fn lemma_without_scheme_is_identity(text: Seq<char>)
    requires
        !has_char(text, ':'),
        !has_char(text, '\\'),
    ensures
        without_scheme(text) == text,
{
    lemma_first_index(text, '\\');
    assert(without_scheme(text) =~= text);
}

/// Taking the slashes at the end away leaves a text that does not end in one as it is, also
/// after one more slash.
pub proof fn lemma_strip_of_unslashed(text: Seq<char>)
    requires
        text.len() > 0,
        text.last() != '/',
    ensures
        strip_trailing_slashes(text) == text,
        strip_trailing_slashes(text.push('/')) == text,
{
    assert(text.push('/').drop_last() =~= text);
}

/// Joining two runs of pieces: the first run joined, a separator, the second run joined.
pub proof fn lemma_join_of_runs(a: Seq<Seq<char>>, b: Seq<Seq<char>>, sep: char)
    requires
        a.len() > 0,
        b.len() > 0,
    ensures
        join(a + b, sep) == join(a, sep).push(sep) + join(b, sep),
    decreases a.len(),
{
    let all = a + b;
    assert(all[0] == a[0]);
    if a.len() == 1 {
        assert(all.drop_first() =~= b);
    } else {
        lemma_join_of_runs(a.drop_first(), b, sep);
        assert(all.drop_first() =~= a.drop_first() + b);
        assert(a[0].push(sep) + (join(a.drop_first(), sep).push(sep) + join(b, sep)) =~= (a[0].push(
            sep,
        ) + join(a.drop_first(), sep)).push(sep) + join(b, sep));
    }
}

/// The segments of an entity that is written canonically are read as an entity, and what
/// is read is written as those segments, with a slash after them where only the name is
/// there.
pub proof fn lemma_round_trip_from_entity(
    authority: Option<AuthorityView>,
    segments: Seq<Seq<char>>,
    at: int,
)
    requires
        0 <= at,
        is_canonical_from_entity(segments, at),
        segments.last().len() > 0,
    ensures
        parse_from_entity(authority, segments, at) matches Ok(uri) && uri.authority == authority
            && uri.entity is Some && entity_part(uri.entity->0) + resource_part(uri.resource)
            == join(segments.skip(at), '/') + if segments.len() == at + 1 {
            seq!['/']
        } else {
            Seq::empty()
        },
{
    let tail = segments.skip(at);
    let name = segments[at];
    assert(tail[0] == name);
    lemma_trim_of_trimmed(name);
    reveal_with_fuel(join, 4);
    if segments.len() == at + 1 {
        let uri = parse_from_entity(authority, segments, at)->Ok_0;
        assert(entity_part(uri.entity->0) + resource_part(uri.resource) =~= join(tail, '/')
            + seq!['/']);
    } else {
        let version = segments[at + 1];
        assert(tail[1] == version);
        assert(tail.drop_first()[0] == version);
        if version.len() > 0 {
            lemma_canonical_decimal_text(version);
            assert(is_digit(version[0]));
        }
        let uri = parse_from_entity(authority, segments, at)->Ok_0;
        if segments.len() == at + 2 {
            assert(entity_part(uri.entity->0) + resource_part(uri.resource) =~= join(tail, '/'));
        } else {
            let resource = segments[at + 2];
            assert(tail[2] == resource);
            assert(tail.drop_first().drop_first()[0] == resource);
            lemma_resource_text_of_parsed(resource);
            assert(entity_part(uri.entity->0) + resource_part(uri.resource) =~= join(tail, '/'));
        }
    }
}

/// A canonical long form is split as it stands, its first segment is empty, and so is its
/// second where it starts with two slashes.
pub proof fn lemma_canonical_segments(text: Seq<char>)
    requires
        is_canonical_long_form(text),
    ensures
        without_scheme(text) == text,
        pattern_split(text, '/') == split(text, '/'),
        join(split(text, '/'), '/') == text,
        split(text, '/').len() >= 2,
        split(text, '/').last().len() > 0,
        split(text, '/')[0].len() == 0,
        starts_remote(text) ==> split(text, '/')[1].len() == 0,
{
    lemma_without_scheme_is_identity(text);
    lemma_split_last_is_not_empty(text, '/');
    lemma_join_of_split(text, '/');
    lemma_first_index_unique(text, '/', 0);
    if starts_remote(text) {
        let rest = text.skip(1);
        lemma_first_index_unique(rest, '/', 0);
        assert(split(text, '/')[1] == split(rest, '/')[0]);
    }
}

/// Round trip: the long form of the address that a canonical long form writes is that long
/// form.
pub proof fn lemma_round_trip(text: Seq<char>)
    requires
        is_canonical_long_form(text),
    ensures
        parse_long_form(text) matches Ok(uri) && serialize_long_form(uri) == Ok::<
            Seq<char>,
            ErrorView,
        >(text),
{
    let segments = split(text, '/');
    lemma_canonical_segments(text);
    lemma_strip_of_unslashed(text);
    let empty = Seq::<char>::empty();
    assert(segments[0] =~= empty);
    if starts_remote(text) {
        assert(segments[1] =~= empty);
        let head = segments.take(3);
        let authority = AuthorityView::named(segments[2]);
        assert(join(head, '/') =~= authority_part(authority)) by {
            reveal_with_fuel(join, 4);
            assert(head[0] == empty && head[1] == empty && head[2] == segments[2]);
            assert(head.drop_first()[0] == empty);
            assert(head.drop_first().drop_first()[0] == segments[2]);
        }
        if segments.len() == 3 {
            assert(head =~= segments);
            let uri = parse_long_form(text)->Ok_0;
            assert(long_form_parts(uri) =~= text.push('/'));
        } else {
            let tail = segments.skip(3);
            assert(head + tail =~= segments);
            lemma_join_of_runs(head, tail, '/');
            lemma_round_trip_from_entity(Some(authority), segments, 3);
            let uri = parse_long_form(text)->Ok_0;
            let written = entity_part(uri.entity->0) + resource_part(uri.resource);
            assert(long_form_parts(uri) =~= authority_part(authority).push('/') + written);
            if segments.len() == 4 {
                assert(long_form_parts(uri) =~= text.push('/'));
            } else {
                assert(long_form_parts(uri) =~= text);
            }
        }
    } else {
        let head = segments.take(1);
        let tail = segments.skip(1);
        assert(join(head, '/') =~= empty) by {
            assert(head[0] == empty);
        }
        assert(head + tail =~= segments);
        lemma_join_of_runs(head, tail, '/');
        lemma_round_trip_from_entity(None, segments, 1);
        let uri = parse_long_form(text)->Ok_0;
        let written = entity_part(uri.entity->0) + resource_part(uri.resource);
        assert(long_form_parts(uri) =~= empty.push('/') + written);
        if segments.len() == 2 {
            assert(long_form_parts(uri) =~= text.push('/'));
        } else {
            assert(long_form_parts(uri) =~= text);
        }
    }
}

/// A scheme in front of a long form changes nothing: the text after the first colon is read
/// as if it stood alone, where it is not empty and holds neither colon nor backslash.
pub proof fn lemma_scheme_is_dropped(scheme: Seq<char>, rest: Seq<char>)
    requires
        !has_char(scheme, ':'),
        rest.len() > 0,
        !has_char(rest, ':'),
        !has_char(rest, '\\'),
    ensures
        parse_long_form(scheme.push(':') + rest) == parse_long_form(rest),
{
    let text = scheme.push(':') + rest;
    lemma_first_index(scheme, ':');
    lemma_first_index_unique(text, ':', scheme.len() as int);
    assert(text.skip(scheme.len() as int + 1) =~= rest);
    lemma_without_scheme_is_identity(rest);
}

/// Resolving prefers the names of the long form and the numbers of the micro form: what is
/// resolved has the address, the entity id and the version of the micro form, the names of
/// authority and entity where the long form has them, the resource of the long form, and the
/// resource id of the micro form where that has a resource.
pub proof fn lemma_resolve_takes_names_and_numbers(long: UriView, micro: UriView)
    requires
        resolve(long, micro) is Ok,
    ensures
        ({
            let uri = resolve(long, micro)->Ok_0;
            &&& uri.is_resolved()
            &&& uri.authority is Some && uri.entity is Some && uri.resource is Some
            &&& micro.authority is Some && micro.entity is Some && long.resource is Some
            &&& uri.authority->0.address == micro.authority->0.address
            &&& long.authority is Some && long.authority->0.name is Some ==> uri.authority->0.name
                == long.authority->0.name
            &&& uri.entity->0.id == micro.entity->0.id
            &&& uri.entity->0.version_major == micro.entity->0.version_major
            &&& long.entity is Some ==> uri.entity->0.name == long.entity->0.name
            &&& uri.resource->0.name == long.resource->0.name
            &&& uri.resource->0.instance == long.resource->0.instance
            &&& uri.resource->0.message == long.resource->0.message
            &&& micro.resource is Some ==> uri.resource->0.id == micro.resource->0.id
        }),
{
}

/// Resolving fails where the long form names no resource.
pub proof fn lemma_resolve_needs_resource(long: UriView, micro: UriView)
    requires
        long.resource is None,
    ensures
        resolve(long, micro) is Err,
{
}

} // verus!
