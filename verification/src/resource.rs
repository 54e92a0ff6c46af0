//! The resource segment of the long form: `name`, then `.` and an instance, then `#` and a
//! message, the last two optional and independent of each other.

use crate::text::{
    after_first, before_first, chars_of, find_char, first_index, has_char, lemma_first_index,
    lemma_first_index_unique, string_of,
};
use crate::uri::{ResourceView, UResource};
use vstd::prelude::*;

verus! {

/// The resource that a segment names. The first `#` ends name and instance, and all that
/// follows it is the message; before it, the first `.` ends the name, and all that follows
/// is the instance. The long form carries no id.
pub open spec fn parse_resource(segment: Seq<char>) -> ResourceView {
    let head = before_first(segment, '#');
    ResourceView {
        name: before_first(head, '.'),
        instance: if has_char(head, '.') {
            Some(after_first(head, '.'))
        } else {
            None
        },
        message: if has_char(segment, '#') {
            Some(after_first(segment, '#'))
        } else {
            None
        },
        id: None,
    }
}

/// The segment that names a resource.
pub open spec fn resource_text(r: ResourceView) -> Seq<char> {
    r.name + match r.instance {
        Some(instance) => seq!['.'] + instance,
        None => Seq::empty(),
    } + match r.message {
        Some(message) => seq!['#'] + message,
        None => Seq::empty(),
    }
}

/// A segment is the text of the resource that it names.
pub proof fn lemma_resource_text_of_parsed(segment: Seq<char>)
    ensures
        resource_text(parse_resource(segment)) == segment,
{
    lemma_first_index(segment, '#');
    let head = before_first(segment, '#');
    lemma_first_index(head, '.');
    let r = parse_resource(segment);
    let name_and_instance = r.name + match r.instance {
        Some(instance) => seq!['.'] + instance,
        None => Seq::empty(),
    };
    assert(name_and_instance =~= head);
    assert(resource_text(r) =~= segment);
}

/// Parsing the text of a resource gives the resource back, without its id, where the name
/// holds neither `.` nor `#` and the instance holds no `#`.
pub proof fn lemma_parse_of_resource_text(r: ResourceView)
    requires
        !has_char(r.name, '.'),
        !has_char(r.name, '#'),
        r.instance matches Some(instance) ==> !has_char(instance, '#'),
    ensures
        parse_resource(resource_text(r)) == (ResourceView { id: None, ..r }),
{
    let head = r.name + match r.instance {
        Some(instance) => seq!['.'] + instance,
        None => Seq::empty(),
    };
    let segment = resource_text(r);
    lemma_first_index(r.name, '.');
    lemma_first_index(r.name, '#');
    if let Some(instance) = r.instance {
        lemma_first_index(instance, '#');
    }
    assert forall|j: int| 0 <= j < head.len() implies segment[j] != '#' by {
        if j >= r.name.len() + 1 {
            assert(segment[j] == r.instance->0[j - r.name.len() - 1]);
        }
    }
    lemma_first_index_unique(segment, '#', head.len() as int);
    assert(before_first(segment, '#') =~= head);
    lemma_first_index_unique(head, '.', r.name.len() as int);
    assert(before_first(head, '.') =~= r.name);
    let p = parse_resource(segment);
    match r.instance {
        Some(instance) => {
            assert(after_first(head, '.') =~= instance);
        },
        None => {},
    }
    match r.message {
        Some(message) => {
            assert(after_first(segment, '#') =~= message);
        },
        None => {},
    }
}

impl UResource {
    /// The resource that a segment of the long form names.
    pub fn parse(segment: &str) -> (r: UResource)
        ensures
            r@ == parse_resource(segment@),
    {
        let v = chars_of(segment);
        let hash = find_char(&v, 0, '#');
        let dot_or_end = find_char(&v, 0, '.');
        let dot: usize = if dot_or_end < hash {
            dot_or_end
        } else {
            hash
        };
        proof {
            assert(v@.skip(0) =~= v@);
            let head = before_first(v@, '#');
            lemma_first_index(v@, '#');
            lemma_first_index(v@, '.');
            assert(head =~= v@.subrange(0, hash as int));
            lemma_first_index_unique(head, '.', dot as int);
            assert(before_first(head, '.') =~= v@.subrange(0, dot as int));
            if dot < hash {
                assert(after_first(head, '.') =~= v@.subrange(dot + 1, hash as int));
            }
            if hash < v.len() {
                assert(after_first(v@, '#') =~= v@.subrange(hash + 1, v.len() as int));
            }
        }
        let name = string_of(&v, 0, dot);
        let instance = if dot < hash {
            Some(string_of(&v, dot + 1, hash))
        } else {
            None
        };
        let message = if hash < v.len() {
            Some(string_of(&v, hash + 1, v.len()))
        } else {
            None
        };
        UResource { name, instance, message, id: None }
    }
}

} // verus!
