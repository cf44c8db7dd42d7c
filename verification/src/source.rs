//! The media source: a local path or a URI.

use vstd::prelude::*;
use vstd::string::StrSliceExecFns;
use crate::unit::SourceKind;

verus! {

/// Whether a character is a letter of the basic Latin alphabet.
pub open spec fn is_scheme_start(c: char) -> bool {
    ('a' <= c && c <= 'z') || ('A' <= c && c <= 'Z')
}

/// Whether a character may stand in the scheme of a URI: a letter, a digit,
/// `+`, `-` or `.`.
pub open spec fn is_scheme_char(c: char) -> bool {
    ('a' <= c && c <= 'z') || ('A' <= c && c <= 'Z') || ('0' <= c && c <= '9') || c == '+' || c
        == '-' || c == '.'
}

/// Whether the scheme separator `://` begins at index `at` of `text`, after
/// at least one character.
pub open spec fn separator_at(text: Seq<char>, at: int) -> bool {
    &&& 0 < at
    &&& at + 2 < text.len()
    &&& text[at] == ':'
    &&& text[at + 1] == '/'
    &&& text[at + 2] == '/'
}

/// Whether the text names its source by a URI: a scheme, then `://`. The
/// scheme begins with a letter and holds nothing but letters, digits, `+`,
/// `-` and `.`; a path with `://` somewhere in it has no scheme.
pub open spec fn has_scheme(text: Seq<char>) -> bool {
    exists|at: int|
        separator_at(text, at) && is_scheme_start(text[0]) && forall|i: int|
            0 <= i < at ==> is_scheme_char(#[trigger] text[i])
}

/// The kind of source that a text names.
pub open spec fn kind_of(text: Seq<char>) -> SourceKind {
    if has_scheme(text) {
        SourceKind::Network
    } else {
        SourceKind::Local
    }
}

fn scheme_start(c: char) -> (r: bool)
    ensures
        r == is_scheme_start(c),
{
    ('a' <= c && c <= 'z') || ('A' <= c && c <= 'Z')
}

fn scheme_char(c: char) -> (r: bool)
    ensures
        r == is_scheme_char(c),
{
    ('a' <= c && c <= 'z') || ('A' <= c && c <= 'Z') || ('0' <= c && c <= '9') || c == '+' || c
        == '-' || c == '.'
}

/// Tells a URI from a local path.
pub fn classify_source(text: &str) -> (kind: SourceKind)
    ensures
        kind == kind_of(text@),
{
    let len = text.unicode_len();
    if len < 4 || !scheme_start(text.get_char(0)) {
        assert(!has_scheme(text@));
        return SourceKind::Local;
    }
    let mut at: usize = 1;
    while at < len - 2
        invariant
            1 <= at,
            len >= 4,
            len == text@.len(),
            is_scheme_start(text@[0]),
            forall|i: int| 0 <= i < at ==> is_scheme_char(#[trigger] text@[i]),
        decreases len - at,
    {
        let c = text.get_char(at);
        if !scheme_char(c) {
            let found = c == ':' && text.get_char(at + 1) == '/' && text.get_char(at + 2) == '/';
            proof {
                if found {
                    assert(separator_at(text@, at as int));
                } else {
                    assert forall|k: int|
                        !(separator_at(text@, k) && forall|i: int|
                            0 <= i < k ==> is_scheme_char(#[trigger] text@[i])) by {
                        if separator_at(text@, k) && k != at {
                            if k < at {
                                assert(is_scheme_char(text@[k]));
                            } else {
                                assert(!is_scheme_char(text@[at as int]));
                            }
                        }
                    }
                }
            }
            return if found {
                SourceKind::Network
            } else {
                SourceKind::Local
            };
        }
        at = at + 1;
    }
    proof {
        assert forall|k: int|
            !(separator_at(text@, k) && forall|i: int|
                0 <= i < k ==> is_scheme_char(#[trigger] text@[i])) by {
            if separator_at(text@, k) {
                assert(k < at);
                assert(is_scheme_char(text@[k]));
            }
        }
    }
    SourceKind::Local
}

} // verus!
