use rsetup::actions::ActionError;
use rsetup::api::{CommandError, ErrorReport};
use rsetup::base64::decode_base64;
use rsetup::hardware::HardwareError;
use rsetup::source_plan::SourceError;

#[test]
fn action_errors_keep_the_same_stable_codes_as_http() {
    assert_eq!(
        CommandError::from(ActionError::ConfirmationRequired("Update".into())).code,
        "confirmation_required"
    );
    assert_eq!(
        CommandError::from(ActionError::RootRequired("Update".into())).code,
        "root_required"
    );
    assert_eq!(
        CommandError::from(ActionError::Unavailable("Update".into())).code,
        "action_unavailable"
    );
    assert_eq!(
        CommandError::from(SourceError::UnknownProvider("unknown".into())).code,
        "unknown_mirror"
    );
}

#[test]
fn http_statuses_and_messages_of_errors() {
    assert_eq!(ActionError::Unknown("x".into()).http_status(), 404);
    assert_eq!(SourceError::StalePlan.http_status(), 409);
    let report = CommandError::from(SourceError::Io("disk".into()));
    assert_eq!(report.code, "internal_error");
    assert_eq!(report.message, "unable to manage APT sources: disk");
}

#[test]
fn hardware_errors_report_stable_codes_and_statuses() {
    assert_eq!(HardwareError::StalePlan.code(), "stale_plan");
    assert_eq!(HardwareError::StalePlan.http_status(), 409);
    assert_eq!(HardwareError::InvalidInput("x".into()).http_status(), 400);
    assert_eq!(HardwareError::Unsupported("dtc".into()).http_status(), 422);
    assert_eq!(HardwareError::RootRequired.http_status(), 403);
    let report = CommandError::from(HardwareError::Authorization("denied".into()));
    assert_eq!(report.code, "authorization_failed");
    assert_eq!(report.message, "administrator authorization failed: denied");
    let report = CommandError::from(HardwareError::Io("busy".into()));
    assert_eq!(report.code, "internal_error");
    assert_eq!(report.message, "unable to manage hardware: busy");
}

#[test]
fn base64_requires_canonical_padding() {
    for invalid in ["AB=C", "Zg==AAAA", "Zh==", "Zm9=", "====", "A===", "abc"] {
        assert!(decode_base64(invalid).is_none(), "{invalid}");
    }
    assert_eq!(decode_base64("Zg==").unwrap(), b"f");
    assert_eq!(decode_base64("Zm8=").unwrap(), b"fo");
    assert_eq!(decode_base64("Zm9v").unwrap(), b"foo");
}

#[test]
fn text_that_decodes_is_the_encoding_of_what_it_decodes_to() {
    for text in ["", "Zg==", "Zm8=", "Zm9v", "Zm9vYmFy", "AAECAwQF/+7dzA=="] {
        let bytes = decode_base64(text).unwrap();
        assert_eq!(rsetup::base64::encode_base64(&bytes), text);
    }
}
