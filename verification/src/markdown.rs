//! What writing a meeting's markdown produces: the kind of artifact and
//! where it went.

use vstd::prelude::*;

verus! {

/// The kind of artifact a recording became.
#[derive(Debug, Clone, Copy, PartialEq, Eq, Structural)]
pub enum ContentType {
    Meeting,
    Memo,
    Dictation,
}

/// The outcome of writing one artifact: its path, title, word count and
/// kind.
#[derive(Debug, Clone)]
pub struct WriteResult {
    pub path: String,
    pub title: String,
    pub word_count: usize,
    pub content_type: ContentType,
}

/// The lower-case name of a content type, as event logs record it.
pub open spec fn content_type_name(ct: ContentType) -> Seq<char> {
    match ct {
        ContentType::Meeting => seq!['m', 'e', 'e', 't', 'i', 'n', 'g'],
        ContentType::Memo => seq!['m', 'e', 'm', 'o'],
        ContentType::Dictation => seq!['d', 'i', 'c', 't', 'a', 't', 'i', 'o', 'n'],
    }
}

/// `content_type_name(ct)` as a `String`.
pub fn content_type_label(ct: ContentType) -> (r: String)
    ensures
        r@ == content_type_name(ct),
{
    let r = match ct {
        ContentType::Meeting => String::from_str("meeting"),
        ContentType::Memo => String::from_str("memo"),
        ContentType::Dictation => String::from_str("dictation"),
    };
    proof {
        reveal_strlit("meeting");
        reveal_strlit("memo");
        reveal_strlit("dictation");
    }
    r
}

} // verus!
