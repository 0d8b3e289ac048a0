use tiny_bench::label::{
    fallback_to_anonymous_on_invalid_label, validate_label, LabelProblem, LabelValidationResult,
};

#[test]
fn validates_label() {
    assert_eq!(LabelValidationResult::Valid, validate_label("Hello!"));
    assert_eq!(
        LabelValidationResult::Valid,
        validate_label("Some,weird_name_but.okay.png")
    );
    assert!(matches!(validate_label("."), LabelValidationResult::Invalid(_)));
    assert!(matches!(validate_label("hello!."), LabelValidationResult::Invalid(_)));
    assert!(matches!(validate_label("hello! "), LabelValidationResult::Invalid(_)));
    assert!(matches!(validate_label("bad/label"), LabelValidationResult::Invalid(_)));
    assert!(matches!(validate_label("bad:label"), LabelValidationResult::Invalid(_)));
    assert!(matches!(validate_label("bad>label"), LabelValidationResult::Invalid(_)));
    assert!(matches!(validate_label("bad<label"), LabelValidationResult::Invalid(_)));
    assert!(matches!(validate_label("bad\0label"), LabelValidationResult::Invalid(_)));
    assert!(matches!(validate_label("bad\\label"), LabelValidationResult::Invalid(_)));
    assert!(matches!(validate_label("bad\"label"), LabelValidationResult::Invalid(_)));
    assert!(matches!(validate_label("bad|label"), LabelValidationResult::Invalid(_)));
    assert!(matches!(validate_label("bad?label"), LabelValidationResult::Invalid(_)));
    assert!(matches!(validate_label("bad*label"), LabelValidationResult::Invalid(_)));
}

#[test]
fn names_the_problem() {
    assert_eq!(
        LabelValidationResult::Invalid(LabelProblem::IllegalCharacter('/')),
        validate_label("a/b:c")
    );
    assert_eq!(
        LabelValidationResult::Invalid(LabelProblem::IllegalCharacter('\u{1}')),
        validate_label("ctrl\u{1}char")
    );
    assert_eq!(
        LabelValidationResult::Invalid(LabelProblem::EndsWithDot),
        validate_label("trailing.")
    );
    assert_eq!(
        LabelValidationResult::Invalid(LabelProblem::EndsWithSpace),
        validate_label("trailing ")
    );
    assert_eq!(LabelValidationResult::Valid, validate_label(""));
    assert_eq!(LabelValidationResult::Valid, validate_label("ünïcode"));
}

#[test]
fn falls_back_to_anonymous() {
    assert_eq!("anonymous", fallback_to_anonymous_on_invalid_label("a/b"));
    assert_eq!("anonymous", fallback_to_anonymous_on_invalid_label("trailing."));
    assert_eq!("anonymous", fallback_to_anonymous_on_invalid_label("trailing "));
    assert_eq!("anonymous", fallback_to_anonymous_on_invalid_label("ctrl\u{0001}char"));
    assert_eq!("fine-name_1.png", fallback_to_anonymous_on_invalid_label("fine-name_1.png"));
}
