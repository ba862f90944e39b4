use tutor_roster::roster::TutorSubject;

#[test]
fn subject_display_names() {
    assert_eq!(
        TutorSubject::AdditionalMathematics.as_str(),
        "Additional Mathematics"
    );
    assert_eq!(
        TutorSubject::ExtendedMathematics.as_str(),
        "Extended Mathematics"
    );
    assert_eq!(TutorSubject::Statistics.as_str(), "Statistics");
}
