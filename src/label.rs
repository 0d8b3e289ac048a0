//! Labels name a benchmark and the directory its results are stored in, so
//! they must be usable as a file name.
use vstd::prelude::*;
use vstd::string::StrSliceExecFns;

verus! {

/// The label used when none is given, or when the given one is unusable.
pub const ANONYMOUS: &'static str = "anonymous";

/// Why a label was refused.
#[derive(Debug, Clone, Copy, PartialEq, Eq)]
pub enum LabelProblem {
    /// The label holds a path separator, a character that file systems
    /// refuse, or an ASCII control character; this is the first such one.
    IllegalCharacter(char),
    /// The label ends with a dot.
    EndsWithDot,
    /// The label ends with a space.
    EndsWithSpace,
}

/// The verdict on a label.
#[derive(Debug, Clone, Copy, PartialEq, Eq)]
pub enum LabelValidationResult {
    Valid,
    Invalid(LabelProblem),
}

/// Characters that may not stand in a label: path separators, characters
/// that common file systems refuse, and the ASCII control characters.
pub open spec fn is_illegal_char(c: char) -> bool {
    c == '/' || c == ':' || c == '<' || c == '>' || c == '"' || c == '\\' || c == '|' || c == '?'
        || c == '*' || (c as u32) < 32
}

/// The first illegal character of `s` at or after position `i`.
pub open spec fn first_illegal(s: Seq<char>, i: int) -> Option<char>
    decreases s.len() - i,
{
    if i < 0 || i >= s.len() {
        None
    } else if is_illegal_char(s[i]) {
        Some(s[i])
    } else {
        first_illegal(s, i + 1)
    }
}

/// The verdict on the label `s`.
pub open spec fn label_verdict(s: Seq<char>) -> LabelValidationResult {
    match first_illegal(s, 0) {
        Some(c) => LabelValidationResult::Invalid(LabelProblem::IllegalCharacter(c)),
        None => if s.len() > 0 && s.last() == '.' {
            LabelValidationResult::Invalid(LabelProblem::EndsWithDot)
        } else if s.len() > 0 && s.last() == ' ' {
            LabelValidationResult::Invalid(LabelProblem::EndsWithSpace)
        } else {
            LabelValidationResult::Valid
        },
    }
}

/// A label is usable when it holds no illegal character and does not end
/// with a dot or a space.
pub open spec fn label_is_valid(s: Seq<char>) -> bool {
    &&& forall|i: int| 0 <= i < s.len() ==> !is_illegal_char(#[trigger] s[i])
    &&& !(s.len() > 0 && (s.last() == '.' || s.last() == ' '))
}

proof fn lemma_first_illegal_none(s: Seq<char>, i: int)
    requires
        0 <= i <= s.len(),
    ensures
        first_illegal(s, i) is None <==> forall|j: int| i <= j < s.len() ==> !is_illegal_char(
            #[trigger] s[j],
        ),
    decreases s.len() - i,
{
    if i < s.len() {
        lemma_first_illegal_none(s, i + 1);
    }
}

/// The verdict is `Valid` exactly for usable labels.
pub proof fn lemma_verdict_valid(s: Seq<char>)
    ensures
        (label_verdict(s) == LabelValidationResult::Valid) <==> label_is_valid(s),
{
    lemma_first_illegal_none(s, 0);
}

fn is_illegal(c: char) -> (r: bool)
    ensures
        r == is_illegal_char(c),
{
    c == '/' || c == ':' || c == '<' || c == '>' || c == '"' || c == '\\' || c == '|' || c == '?'
        || c == '*' || (c as u32) < 32
}

/// Checks that a label can name a directory.
pub fn validate_label(label: &str) -> (r: LabelValidationResult)
    ensures
        r == label_verdict(label@),
{
    let len = label.unicode_len();
    let mut i: usize = 0;
    while i < len
        invariant
            len == label@.len(),
            i <= len,
            first_illegal(label@, 0) == first_illegal(label@, i as int),
        decreases len - i,
    {
        let c = label.get_char(i);
        if is_illegal(c) {
            return LabelValidationResult::Invalid(LabelProblem::IllegalCharacter(c));
        }
        i = i + 1;
    }
    if len > 0 {
        let last = label.get_char(len - 1);
        if last == '.' {
            return LabelValidationResult::Invalid(LabelProblem::EndsWithDot);
        }
        if last == ' ' {
            return LabelValidationResult::Invalid(LabelProblem::EndsWithSpace);
        }
    }
    LabelValidationResult::Valid
}

/// The label itself when it is usable, else the anonymous label.
pub fn fallback_to_anonymous_on_invalid_label(label: &'static str) -> (r: &'static str)
    ensures
        label_is_valid(label@) ==> r == label,
        !label_is_valid(label@) ==> r == ANONYMOUS,
        label_is_valid(r@),
{
    proof {
        lemma_verdict_valid(label@);
        reveal_strlit("anonymous");
        assert(ANONYMOUS@.len() == 9);
        assert(forall|i: int| 0 <= i < 9 ==> !is_illegal_char(#[trigger] ANONYMOUS@[i]));
    }
    match validate_label(label) {
        LabelValidationResult::Valid => label,
        LabelValidationResult::Invalid(_) => ANONYMOUS,
    }
}

} // verus!
