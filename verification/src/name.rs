//! Namespace-qualified names: a class is named by a sequence of segments,
//! written with a backslash between neighbours.

use crate::text::{
    copy_from, join, lemma_join_split, lemma_split_join, lemma_split_nonempty,
    lemma_split_pieces_clean, split, split_at_char,
};
use vstd::prelude::*;

verus! {

/// The character that stands between the segments of a written name.
pub const SEPARATOR: char = '\\';

/// The separator as a text of one character.
pub open spec fn separator() -> Seq<char> {
    seq![SEPARATOR]
}

/// The written form of a sequence of segments.
pub open spec fn rendering(segments: Seq<Seq<char>>) -> Seq<char> {
    join(segments, separator())
}

/// The segments that a written name is made of.
pub open spec fn segments_of(text: Seq<char>) -> Seq<Seq<char>> {
    split(text, SEPARATOR)
}

/// Whether a sequence of segments is the segments of some written name: there
/// is at least one segment, and none holds the separator.
pub open spec fn canonical(segments: Seq<Seq<char>>) -> bool {
    &&& segments.len() >= 1
    &&& forall|i: int| 0 <= i < segments.len() ==> !(#[trigger] segments[i]).contains(SEPARATOR)
}

/// Reading and writing undo each other: the segments of a written name are
/// canonical and write the same text again, and canonical segments are the
/// segments of what they write.
pub proof fn lemma_written_form_round_trip(text: Seq<char>, segments: Seq<Seq<char>>)
    ensures
        canonical(segments_of(text)),
        rendering(segments_of(text)) == text,
        canonical(segments) ==> segments_of(rendering(segments)) == segments,
{
    lemma_split_nonempty(text, SEPARATOR);
    lemma_split_pieces_clean(text, SEPARATOR);
    lemma_join_split(text, SEPARATOR);
    if canonical(segments) {
        lemma_split_join(segments, SEPARATOR);
    }
}

/// A written form stands for one name only: canonical names that are written
/// alike are the same name.
pub proof fn lemma_written_form_identifies_name(a: Seq<Seq<char>>, b: Seq<Seq<char>>)
    requires
        canonical(a),
        canonical(b),
        rendering(a) == rendering(b),
    ensures
        a == b,
{
    lemma_split_join(a, SEPARATOR);
    lemma_split_join(b, SEPARATOR);
}

/// A namespace-qualified name. Its view is the sequence of its segments; it
/// has at least one, and none of them holds the separator.
#[derive(Debug)]
pub struct QualifiedName {
    text: String,
    segments: Vec<String>,
}

impl View for QualifiedName {
    type V = Seq<Seq<char>>;

    closed spec fn view(&self) -> Seq<Seq<char>> {
        self.segments.deep_view()
    }
}

impl QualifiedName {
    #[verifier::type_invariant]
    spec fn segments_match_text(&self) -> bool {
        self.segments.deep_view() == segments_of(self.text@)
    }

    /// Reads a written name: the text is cut at each separator.
    pub fn parse(text: &str) -> (name: Self)
        ensures
            name@ == segments_of(text@),
            canonical(name@),
    {
        proof {
            lemma_written_form_round_trip(text@, Seq::empty());
        }
        let segments = split_at_char(text, SEPARATOR);
        QualifiedName { text: text.to_owned(), segments }
    }

    /// The written form of the name.
    pub fn as_str(&self) -> (text: &str)
        ensures
            text@ == rendering(self@),
            self@ == segments_of(text@),
            canonical(self@),
    {
        proof {
            use_type_invariant(self);
            lemma_written_form_round_trip(self.text@, Seq::empty());
        }
        self.text.as_str()
    }

    /// The segments of the name, first to last.
    pub fn segments(&self) -> (segments: &Vec<String>)
        ensures
            segments.deep_view() == self@,
            segments.len() >= 1,
    {
        proof {
            use_type_invariant(self);
            lemma_split_nonempty(self.text@, SEPARATOR);
        }
        &self.segments
    }
}

impl Clone for QualifiedName {
    fn clone(&self) -> (copy: Self)
        ensures
            copy@ == self@,
    {
        proof {
            use_type_invariant(self);
        }
        let segments = copy_from(&self.segments, 0);
        assert(self.segments.deep_view().skip(0) =~= self.segments.deep_view());
        QualifiedName { text: self.text.clone(), segments }
    }
}

} // verus!
