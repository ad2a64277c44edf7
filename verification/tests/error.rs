//! Classification of errors.

use offline_protocol::error::{Error, MlsError, SessionStateError, TransportError};
use offline_protocol::events::WelcomeReasonCode;

#[test]
fn session_state_code_values_are_stable() {
    assert_eq!(
        SessionStateError::SessionNotReady.code(),
        "SESSION_NOT_READY"
    );
    assert_eq!(SessionStateError::GroupNotFound.code(), "GROUP_NOT_FOUND");
    assert_eq!(SessionStateError::NotInitialized.code(), "NOT_INITIALIZED");
    assert_eq!(
        SessionStateError::TransportFailure.code(),
        "TRANSPORT_FAILURE"
    );
    assert_eq!(SessionStateError::CryptoFailure.code(), "CRYPTO_FAILURE");
    assert_eq!(SessionStateError::SessionDesync.code(), "SESSION_DESYNC");
    assert_eq!(SessionStateError::Unknown.code(), "UNKNOWN");
}

#[test]
fn classify_maps_mls_group_not_found() {
    let classified = SessionStateError::from(&MlsError::GroupNotFound("g1".to_string()));
    assert_eq!(classified, SessionStateError::GroupNotFound);
}

#[test]
fn classify_maps_protocol_group_not_found() {
    // The protocol-level variant must land in the same class as the
    // MLS-layer one — one condition, one category.
    let classified = SessionStateError::classify(&Error::GroupNotFound("g1".to_string()));
    assert_eq!(classified, SessionStateError::GroupNotFound);
}

#[test]
fn classify_maps_not_initialized() {
    let classified = SessionStateError::from(&MlsError::NotInitialized);
    assert_eq!(classified, SessionStateError::NotInitialized);
}

#[test]
fn classify_maps_crypto_failures() {
    let classified = SessionStateError::from(&MlsError::Decryption("failed".to_string()));
    assert_eq!(classified, SessionStateError::CryptoFailure);
}

#[test]
fn classify_maps_session_desync_distinct_from_crypto_failure() {
    // An epoch desync is recoverable and must land in its own class, NOT
    // CryptoFailure — otherwise the receive path would drop-and-ACK it as a
    // permanent failure instead of re-keying.
    let desync = SessionStateError::from(&MlsError::SessionDesync("wrong epoch".to_string()));
    assert_eq!(desync, SessionStateError::SessionDesync);
    // The genuine-failure sibling stays CryptoFailure.
    let crypto = SessionStateError::from(&MlsError::Decryption("aead".to_string()));
    assert_eq!(crypto, SessionStateError::CryptoFailure);
}

#[test]
fn classify_unknown_fallback_is_safe() {
    let classified = SessionStateError::classify(&Error::Other("opaque".to_string()));
    assert_eq!(classified, SessionStateError::Unknown);
}

#[test]
fn welcome_reason_mapping_uses_typed_transport_failure() {
    let classified = SessionStateError::classify(&Error::Transport(
        TransportError::SendFailed("send failed".to_string()),
    ));
    assert_eq!(
        classified.to_welcome_reason_code(),
        WelcomeReasonCode::TransportUnavailable
    );
}

#[test]
fn welcome_reason_mapping_unknown_defaults_internal_error() {
    let classified = SessionStateError::classify(&Error::Other("opaque".to_string()));
    assert_eq!(
        classified.to_welcome_reason_code(),
        WelcomeReasonCode::InternalError
    );
}
