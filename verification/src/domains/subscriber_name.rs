use unicode_segmentation::UnicodeSegmentation;
use vstd::prelude::*;

verus! {

/// The longest name accepted, in grapheme clusters.
pub const MAX_NAME_GRAPHEMES: usize = 256;

/// The number of extended grapheme clusters of `text`, as the crate
/// `unicode_segmentation` splits it.
pub uninterp spec fn grapheme_count(text: Seq<char>) -> nat;

/// Whether `c` has the Unicode property `White_Space`, as `char::is_whitespace` tells it.
pub uninterp spec fn char_is_whitespace(c: char) -> bool;

/// Calls `UnicodeSegmentation::graphemes` for extended clusters and counts what
/// the iterator yields. Trusted: the count depends on the text alone.
#[verifier::external_body]
fn count_graphemes(text: &str) -> (count: usize)
    ensures
        count == grapheme_count(text@),
{
    text.graphemes(true).count()
}

/// Calls `char::is_whitespace`. Trusted: the answer depends on the character
/// alone, and the space, the line feed and the no-break space are white
/// space.
#[verifier::external_body]
fn is_whitespace(c: char) -> (white: bool)
    ensures
        white == char_is_whitespace(c),
        (c == ' ' || c == '\n' || c == '\u{a0}') ==> white,
{
    c.is_whitespace()
}

/// A text is blank when it holds nothing but white space; the empty text is blank.
pub open spec fn is_blank(text: Seq<char>) -> bool {
    forall|i: int| 0 <= i < text.len() ==> char_is_whitespace(#[trigger] text[i])
}

/// The characters no name may hold.
pub open spec fn is_forbidden(c: char) -> bool {
    c == '/' || c == '(' || c == ')' || c == '"' || c == '<' || c == '>' || c == '\\' || c == '{'
        || c == '}'
}

/// The text holds a forbidden character.
pub open spec fn has_forbidden(text: Seq<char>) -> bool {
    exists|i: int| 0 <= i < text.len() && is_forbidden(#[trigger] text[i])
}

/// A name is valid when it is not blank, has at most 256 grapheme clusters and
/// holds no forbidden character.
pub open spec fn name_is_valid(text: Seq<char>) -> bool {
    &&& !is_blank(text)
    &&& grapheme_count(text) <= MAX_NAME_GRAPHEMES
    &&& !has_forbidden(text)
}

/// What is reported for a name that is refused.
pub open spec fn invalid_name_message(text: Seq<char>) -> Seq<char> {
    text + " is not a valid subscriber name"@
}

fn forbidden(c: char) -> (f: bool)
    ensures
        f == is_forbidden(c),
{
    c == '/' || c == '(' || c == ')' || c == '"' || c == '<' || c == '>' || c == '\\' || c == '{'
        || c == '}'
}

/// A text of spaces, line feeds and no-break spaces only; the empty text is one.
pub open spec fn is_plain_blank(text: Seq<char>) -> bool {
    forall|i: int|
        0 <= i < text.len() ==> (#[trigger] text[i]) == ' ' || text[i] == '\n' || text[i]
            == '\u{a0}'
}

fn blank(text: &str) -> (b: bool)
    ensures
        b == is_blank(text@),
        is_plain_blank(text@) ==> b,
{
    let mut all = true;
    for c in it: text.chars()
        invariant
            it.seq() == text@,
            all == (forall|j: int| 0 <= j < it.index() ==> char_is_whitespace(#[trigger] text@[j])),
            (forall|j: int|
                0 <= j < it.index() ==> (#[trigger] text@[j]) == ' ' || text@[j] == '\n'
                    || text@[j] == '\u{a0}') ==> all,
    {
        if !is_whitespace(c) {
            all = false;
        }
    }
    all
}

fn holds_forbidden(text: &str) -> (found: bool)
    ensures
        found == has_forbidden(text@),
{
    let mut found = false;
    for c in it: text.chars()
        invariant
            it.seq() == text@,
            found == (exists|j: int| 0 <= j < it.index() && is_forbidden(#[trigger] text@[j])),
    {
        if forbidden(c) {
            found = true;
        }
    }
    found
}

/// The name of a subscriber: a text that passed `parse`.
#[derive(Debug)]
pub struct SubscriberName(String);

impl View for SubscriberName {
    type V = Seq<char>;

    closed spec fn view(&self) -> Seq<char> {
        self.0@
    }
}

impl SubscriberName {
    #[verifier::type_invariant]
    closed spec fn valid(self) -> bool {
        name_is_valid(self.0@)
    }

    /// Accepts `name` unchanged when it is valid, and otherwise reports it
    /// in a message.
    pub fn parse(name: String) -> (parsed: Result<SubscriberName, String>)
        ensures
            match parsed {
                Ok(subscriber_name) => name_is_valid(name@) && subscriber_name@ == name@,
                Err(message) => !name_is_valid(name@) && message@ == invalid_name_message(name@),
            },
            is_plain_blank(name@) || has_forbidden(name@) ==> parsed is Err,
    {
        let is_empty_string = blank(name.as_str());
        let is_too_long = count_graphemes(name.as_str()) > MAX_NAME_GRAPHEMES;
        let forbidden_char_present = holds_forbidden(name.as_str());
        if is_empty_string || is_too_long || forbidden_char_present {
            Err(name.concat(" is not a valid subscriber name"))
        } else {
            Ok(SubscriberName(name))
        }
    }

    /// The name as text. Every name in existence is valid.
    pub fn as_ref(&self) -> (text: &str)
        ensures
            text@ == self@,
            name_is_valid(text@),
    {
        proof {
            use_type_invariant(self);
        }
        self.0.as_str()
    }
}

} // verus!
