//! Request and response model types shared by the handlers, and the
//! normalisation of the search text they receive.

use vstd::prelude::*;
use vstd::string::StrSliceExecFns;

verus! {

/// The kind of chart breakdown a request asks for: what stands on the x-axis.
#[derive(Clone, Copy, Debug, PartialEq, Eq, Structural)]
pub enum BreakdownType {
    Party,
    Gender,
    Province,
    Speaker,
}

/// The error returned when a piece of text names no breakdown type.
#[derive(Clone, Copy, Debug, PartialEq, Eq, Structural)]
pub struct BreakdownTypeParseError;

/// Maps an upper-case ASCII letter to its lower-case form and leaves every
/// other character unchanged.
pub open spec fn lower_char(c: char) -> char {
    if 65 <= c as u32 && c as u32 <= 90 {
        (c as u32 + 32) as char
    } else {
        c
    }
}

/// The text with every upper-case ASCII letter lowered.
pub open spec fn lower_seq(s: Seq<char>) -> Seq<char> {
    Seq::new(s.len(), |i: int| lower_char(s[i]))
}

/// The canonical name of a breakdown type.
pub open spec fn spec_name(breakdown_type: BreakdownType) -> Seq<char> {
    match breakdown_type {
        BreakdownType::Party => "party"@,
        BreakdownType::Gender => "gender"@,
        BreakdownType::Province => "province"@,
        BreakdownType::Speaker => "speaker"@,
    }
}

/// Which breakdown type a piece of text names, ignoring ASCII case; an
/// error if it names none.
pub open spec fn spec_parse(s: Seq<char>) -> Result<BreakdownType, BreakdownTypeParseError> {
    if lower_seq(s) == "party"@ {
        Ok(BreakdownType::Party)
    } else if lower_seq(s) == "gender"@ {
        Ok(BreakdownType::Gender)
    } else if lower_seq(s) == "province"@ {
        Ok(BreakdownType::Province)
    } else if lower_seq(s) == "speaker"@ {
        Ok(BreakdownType::Speaker)
    } else {
        Err(BreakdownTypeParseError)
    }
}

/// Returns the lower-case form of an ASCII letter, and any other character
/// unchanged.
fn to_ascii_lower(c: char) -> (low: char)
    ensures
        low == lower_char(c),
{
    let code = c as u32;
    if 65 <= code && code <= 90 {
        ((code + 32) as u8) as char
    } else {
        c
    }
}

/// Compares the text, lowered letter by letter, against an expected word.
fn eq_lowered(text: &str, word: &str) -> (equal: bool)
    ensures
        equal == (lower_seq(text@) == word@),
{
    let text_len = text.unicode_len();
    let word_len = word.unicode_len();
    if text_len != word_len {
        assert(lower_seq(text@).len() != word@.len());
        return false;
    }
    let mut i: usize = 0;
    while i < text_len
        invariant
            i <= text_len,
            text_len == text@.len(),
            text_len == word@.len(),
            forall|j: int| 0 <= j < i ==> lower_char(text@[j]) == word@[j],
        decreases text_len - i,
    {
        let lowered = to_ascii_lower(text.get_char(i));
        if lowered != word.get_char(i) {
            assert(lower_seq(text@)[i as int] != word@[i as int]);
            return false;
        }
        i += 1;
    }
    proof {
        assert(lower_seq(text@) =~= word@);
    }
    true
}

impl BreakdownType {
    /// Parses the text as the name of a breakdown type, ignoring ASCII case:
    /// exactly the four canonical names are accepted.
    pub fn parse(text: &str) -> (result: Result<BreakdownType, BreakdownTypeParseError>)
        ensures
            result == spec_parse(text@),
    {
        if eq_lowered(text, "party") {
            Ok(BreakdownType::Party)
        } else if eq_lowered(text, "gender") {
            Ok(BreakdownType::Gender)
        } else if eq_lowered(text, "province") {
            Ok(BreakdownType::Province)
        } else if eq_lowered(text, "speaker") {
            Ok(BreakdownType::Speaker)
        } else {
            Err(BreakdownTypeParseError)
        }
    }

    /// Returns the canonical lower-case name of this breakdown type.
    pub fn as_str(&self) -> (name: &'static str)
        ensures
            name@ == spec_name(*self),
    {
        match self {
            BreakdownType::Party => "party",
            BreakdownType::Gender => "gender",
            BreakdownType::Province => "province",
            BreakdownType::Speaker => "speaker",
        }
    }
}

/// Law: the canonical name of every breakdown type parses back to exactly
/// that type.
pub proof fn lemma_name_round_trip(breakdown_type: BreakdownType)
    ensures
        spec_parse(spec_name(breakdown_type)) == Ok::<BreakdownType, BreakdownTypeParseError>(
            breakdown_type,
        ),
{
    reveal_strlit("party");
    reveal_strlit("gender");
    reveal_strlit("province");
    reveal_strlit("speaker");
    assert(lower_seq("party"@) =~= "party"@);
    assert(lower_seq("gender"@) =~= "gender"@);
    assert(lower_seq("province"@) =~= "province"@);
    assert(lower_seq("speaker"@) =~= "speaker"@);
    assert(lower_seq("gender"@) != "party"@);
    assert(lower_seq("province"@) != "party"@);
    assert(lower_seq("province"@) != "gender"@);
    assert(lower_seq("speaker"@) != "party"@);
    assert(lower_seq("speaker"@) != "gender"@);
    assert(lower_seq("speaker"@) != "province"@);
}

impl core::str::FromStr for BreakdownType {
    type Err = BreakdownTypeParseError;

    fn from_str(text: &str) -> Result<BreakdownType, BreakdownTypeParseError> {
        BreakdownType::parse(text)
    }
}

/// Whether a character may stay in a search term once lowered: lower-case
/// ASCII letters, ASCII digits, the space and the hyphen.
pub open spec fn kept_char(c: char) -> bool {
    ||| 97 <= c as u32 <= 122
    ||| 48 <= c as u32 <= 57
    ||| c == ' '
    ||| c == '-'
}

/// A search text as the database layer must receive it: every ASCII letter
/// lowered, and every character that is not then an ASCII letter, an ASCII
/// digit, a space or a hyphen dropped.
pub open spec fn sanitized(s: Seq<char>) -> Seq<char>
    decreases s.len(),
{
    if s.len() == 0 {
        Seq::empty()
    } else if kept_char(lower_char(s.last())) {
        sanitized(s.drop_last()).push(lower_char(s.last()))
    } else {
        sanitized(s.drop_last())
    }
}

/// Relies on String::push: appends the one character to the end of the
/// string.
#[verifier::external_body]
fn push_char(text: &mut String, c: char)
    ensures
        final(text)@ == old(text)@.push(c),
{
    text.push(c);
}

/// Normalises a search term the way every request handler must before the
/// term reaches the database layer: ASCII letters are lowered, and anything
/// but ASCII letters, digits, spaces and hyphens is dropped.
pub fn sanitize_search(text: &str) -> (clean: String)
    ensures
        clean@ == sanitized(text@),
{
    let length = text.unicode_len();
    let mut clean = String::new();
    let mut i: usize = 0;
    while i < length
        invariant
            i <= length,
            length == text@.len(),
            clean@ == sanitized(text@.subrange(0, i as int)),
        decreases length - i,
    {
        let lowered = to_ascii_lower(text.get_char(i));
        let code = lowered as u32;
        if (97 <= code && code <= 122) || (48 <= code && code <= 57) || code == 32 || code == 45 {
            push_char(&mut clean, lowered);
        }
        proof {
            assert(text@.subrange(0, i as int + 1).drop_last() =~= text@.subrange(0, i as int));
            assert(text@.subrange(0, i as int + 1).last() == text@[i as int]);
        }
        i += 1;
    }
    proof {
        assert(text@.subrange(0, length as int) =~= text@);
    }
    clean
}

/// A response representing a speaker.
#[derive(Clone, Debug, PartialEq)]
pub struct SpeakerResponse {
    pub id: i32,
    pub first_name: String,
    pub last_name: String,
}

/// A row returned from a SQL query, representing a speaker.
pub type SpeakerRow = (i32, String, String);

impl From<SpeakerRow> for SpeakerResponse {
    /// Repacks a bare speaker row into the named response shape.
    fn from(row: SpeakerRow) -> (response: SpeakerResponse) {
        SpeakerResponse { id: row.0, first_name: row.1, last_name: row.2 }
    }
}

impl vstd::std_specs::convert::FromSpecImpl<SpeakerRow> for SpeakerResponse {
    open spec fn obeys_from_spec() -> bool {
        true
    }

    open spec fn from_spec(row: SpeakerRow) -> SpeakerResponse {
        SpeakerResponse { id: row.0, first_name: row.1, last_name: row.2 }
    }
}

/// An overlay selection: which set of speeches the speech overlay looks at.
#[derive(Clone, Debug, PartialEq)]
pub struct OverlaySelection {
    pub breakdown_type: BreakdownType,
    pub id: i32,
    pub heading: String,
}

} // verus!
