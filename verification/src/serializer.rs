//! Writing the long form: address to text.
//!
//! The parts are written one after the other, each with its slashes, and the slashes that
//! are then left at the end are taken away. That last step is done by the crate `regex`.

use crate::decimal::{decimal_text, push_decimal};
use crate::error::{failure, ErrorKind, ErrorView, SerializationError};
use crate::resource::resource_text;
use crate::text::{trim, trimmed};
use crate::uri::{
    AuthorityView, EntityView, ResourceView, UAuthority, UEntity, UUri, UriValidator, UriView,
};
use regex::Regex;
use vstd::prelude::*;
use vstd::string::StringExecFns;

verus! {

/// The authority as the long form writes it: two slashes and the name, if there is one.
pub open spec fn authority_part(authority: AuthorityView) -> Seq<char> {
    seq!['/', '/'] + match authority.name {
        Some(name) => name,
        None => Seq::empty(),
    }
}

/// The entity as the long form writes it: the name without white space around it, a slash,
/// and the major version in decimal, if there is one.
pub open spec fn entity_part(entity: EntityView) -> Seq<char> {
    trim(entity.name).push('/') + match entity.version_major {
        Some(version) => decimal_text(version as nat),
        None => Seq::empty(),
    }
}

/// The resource as the long form writes it: a slash and the segment of the resource, or
/// nothing where there is no resource.
pub open spec fn resource_part(resource: Option<ResourceView>) -> Seq<char> {
    match resource {
        Some(r) => seq!['/'] + resource_text(r),
        None => Seq::empty(),
    }
}

/// `text` without the slashes at its end.
pub open spec fn strip_trailing_slashes(text: Seq<char>) -> Seq<char>
    decreases text.len(),
{
    if text.len() > 0 && text.last() == '/' {
        strip_trailing_slashes(text.drop_last())
    } else {
        text
    }
}

/// The parts of the address one after the other, before the slashes at the end are taken
/// away.
pub open spec fn long_form_parts(uri: UriView) -> Seq<char> {
    match uri.authority {
        Some(a) => authority_part(a),
        None => Seq::empty(),
    }.push('/') + match uri.entity {
        Some(e) => entity_part(e),
        None => Seq::empty(),
    } + resource_part(uri.resource)
}

/// The long form of an address.
pub open spec fn long_form(uri: UriView) -> Seq<char> {
    strip_trailing_slashes(long_form_parts(uri))
}

/// The long form of an address that is not empty, and an error for the empty one.
pub open spec fn serialize_long_form(uri: UriView) -> Result<Seq<char>, ErrorView> {
    if uri.is_empty() {
        Err(failure(ErrorKind::EmptyAddress))
    } else {
        Ok(long_form(uri))
    }
}

/// What is left when the slashes at the end are taken away does not end in a slash.
pub proof fn lemma_stripped_has_no_trailing_slash(text: Seq<char>)
    ensures
        strip_trailing_slashes(text).len() > 0 ==> strip_trailing_slashes(text).last() != '/',
    decreases text.len(),
{
    if text.len() > 0 && text.last() == '/' {
        lemma_stripped_has_no_trailing_slash(text.drop_last());
    }
}

/// Taking the slashes at the end away twice is the same as doing it once.
pub proof fn lemma_strip_is_idempotent(text: Seq<char>)
    ensures
        strip_trailing_slashes(strip_trailing_slashes(text)) == strip_trailing_slashes(text),
{
    lemma_stripped_has_no_trailing_slash(text);
}

/// The long form of an address never ends in a slash.
pub proof fn lemma_long_form_has_no_trailing_slash(uri: UriView)
    ensures
        long_form(uri).len() > 0 ==> long_form(uri).last() != '/',
{
    lemma_stripped_has_no_trailing_slash(long_form_parts(uri));
}

/// Calls `Regex::new` and `Regex::replace_all` of the crate `regex`: every match of
/// `pattern` in `text` is replaced by `replacement`.
///
/// The contract covers the one use that the library makes of it. The pattern `/+$` matches
/// one or more slashes that reach the end of the text, the longest such run, so there is at
/// most one match; with the empty replacement the result is the text without the slashes at
/// its end, and the text itself where it does not end in a slash. The pattern compiles, so
/// the `unwrap` does not panic. Assumed, not proved.
#[verifier::external_body]
fn replace_all(pattern: &str, text: &str, replacement: &str) -> (out: String)
    requires
        pattern@ == "/+$"@,
        replacement@.len() == 0,
    ensures
        out@ == strip_trailing_slashes(text@),
{
    Regex::new(pattern).unwrap().replace_all(text, replacement).into_owned()
}

impl UUri {
    /// The authority as the long form writes it.
    pub fn build_authority_part_of_uri(authority: &UAuthority) -> (part: String)
        ensures
            part@ == authority_part(authority@),
    {
        let mut output = String::new();
        output.push('/');
        output.push('/');
        assert(output@ =~= seq!['/', '/']);
        if let Some(name) = &authority.name {
            output.append(name.as_str());
        }
        output
    }

    /// The entity as the long form writes it.
    pub fn build_entity_part_of_uri(entity: &UEntity) -> (part: String)
        ensures
            part@ == entity_part(entity@),
    {
        let mut output = trimmed(entity.name.as_str());
        output.push('/');
        if let Some(version) = entity.version_major {
            push_decimal(&mut output, version);
        }
        output
    }

    /// The resource of the address as the long form writes it.
    pub fn build_resource_part_of_uri(uri: &UUri) -> (part: String)
        ensures
            part@ == resource_part(uri@.resource),
    {
        let mut output = String::new();
        if let Some(resource) = &uri.resource {
            output.push('/');
            output.append(resource.name.as_str());
            if let Some(instance) = &resource.instance {
                output.push('.');
                output.append(instance.as_str());
            }
            if let Some(message) = &resource.message {
                output.push('#');
                output.append(message.as_str());
            }
            assert(output@ =~= resource_part(uri@.resource));
        }
        output
    }

    /// Writes the long form of the address.
    ///
    /// Fails for the empty address, and for no other. The text never ends in a slash.
    pub fn to_uri_string(&self) -> (r: Result<String, SerializationError>)
        ensures
            match serialize_long_form(self@) {
                Ok(text) => r matches Ok(s) && s@ == text,
                Err(e) => r matches Err(x) && x@ == e,
            },
            r is Err <==> self@.is_empty(),
            r matches Ok(s) ==> s@.len() > 0 ==> s@.last() != '/',
    {
        if UriValidator::is_empty(self) {
            return Err(SerializationError::of_kind(ErrorKind::EmptyAddress));
        }
        let mut output = String::new();
        if let Some(authority) = &self.authority {
            output.append(Self::build_authority_part_of_uri(authority).as_str());
        }
        output.push('/');
        if let Some(entity) = &self.entity {
            output.append(Self::build_entity_part_of_uri(entity).as_str());
        }
        output.append(Self::build_resource_part_of_uri(self).as_str());
        proof {
            assert(output@ =~= long_form_parts(self@));
            lemma_long_form_has_no_trailing_slash(self@);
            reveal_strlit("");
        }
        Ok(replace_all("/+$", output.as_str(), ""))
    }
}

} // verus!
