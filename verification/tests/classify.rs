use aws_eks_iam_auth_controller::arn::{classify, Principal};
use aws_eks_iam_auth_controller::model::IAMIdentityMappingSpec;

#[test]
fn role_arn_is_a_role() {
    assert_eq!(classify("arn:aws:iam::111:role/foo"), Principal::Role);
}

#[test]
fn user_arn_is_a_user() {
    assert_eq!(classify("arn:aws:iam::111:user/bar"), Principal::User);
}

#[test]
fn marker_may_stand_anywhere() {
    assert_eq!(classify(":role/"), Principal::Role);
    assert_eq!(classify(":role/x"), Principal::Role);
    assert_eq!(classify("x:role/"), Principal::Role);
    assert_eq!(classify("arn:aws:iam::111:user/a:role/b"), Principal::Role);
}

#[test]
fn marker_must_be_whole() {
    assert_eq!(classify(""), Principal::User);
    assert_eq!(classify("role/foo"), Principal::User);
    assert_eq!(classify("arn:aws:iam::111:role"), Principal::User);
    assert_eq!(classify("arn:aws:iam::111:rol/e"), Principal::User);
    assert_eq!(classify("arn:aws:iam::111:ROLE/foo"), Principal::User);
    assert_eq!(classify(":rol:role"), Principal::User);
}

#[test]
fn marker_among_other_scripts() {
    assert_eq!(classify("arn:aws:iam::111:r\u{f6}le/foo"), Principal::User);
    assert_eq!(classify("\u{e9}\u{4e2d}:role/\u{1f600}"), Principal::Role);
}

#[test]
fn classification_does_not_echo_its_argument() {
    // Two ARNs of equal length and equal prefix differ only by the marker.
    let role = classify("arn:aws:iam::111:role/ab");
    let user = classify("arn:aws:iam::111:user/ab");
    assert_ne!(role, user);
}

#[test]
fn mapping_reports_its_kind() {
    let role = IAMIdentityMappingSpec::new(
        "arn:aws:iam::111:role/foo".to_string(),
        "foo".to_string(),
        None,
    );
    let user = IAMIdentityMappingSpec::new(
        "arn:aws:iam::111:user/bar".to_string(),
        "bar".to_string(),
        Some(vec!["dev".to_string()]),
    );
    assert_eq!(role.principal(), Principal::Role);
    assert_eq!(user.principal(), Principal::User);
}
