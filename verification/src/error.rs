//! Protocol errors and their classification.

use vstd::prelude::*;

use crate::events::WelcomeReasonCode;

verus! {

/// Per-peer establishment state: where we are in getting to "can send" with a
/// peer.
#[derive(Debug, Clone, Copy, PartialEq, Eq, Hash, Structural)]
pub enum EstablishmentState {
    /// No key package for this peer, in memory or in storage.
    NoKeyPackage,
    /// Key package stored; no session yet.
    HaveKeyPackage,
    /// Session created and welcome sent or queued; not confirmed.
    SessionPending,
    /// Encrypted messages can be sent and received.
    SessionConfirmed,
}

impl EstablishmentState {
    /// The state's stable name.
    pub open spec fn text(self) -> Seq<char> {
        match self {
            EstablishmentState::NoKeyPackage => "NoKeyPackage"@,
            EstablishmentState::HaveKeyPackage => "HaveKeyPackage"@,
            EstablishmentState::SessionPending => "SessionPending"@,
            EstablishmentState::SessionConfirmed => "SessionConfirmed"@,
        }
    }

    /// Stable string for logging and foreign callers.
    pub fn as_str(&self) -> (r: &'static str)
        ensures
            r@ == self.text(),
    {
        match self {
            EstablishmentState::NoKeyPackage => "NoKeyPackage",
            EstablishmentState::HaveKeyPackage => "HaveKeyPackage",
            EstablishmentState::SessionPending => "SessionPending",
            EstablishmentState::SessionConfirmed => "SessionConfirmed",
        }
    }
}

/// What the MLS layer reports when an operation fails.
#[derive(Debug, Clone, PartialEq, Eq)]
pub enum MlsError {
    /// The group does not exist locally.
    GroupNotFound(String),
    /// There is no 1:1 session with the peer.
    SessionNotFound(String),
    /// The two sides disagree on the epoch.
    SessionDesync(String),
    /// The key store failed.
    Storage(String),
    /// The MLS library failed.
    OpenMls(String),
    /// Bytes could not be parsed.
    Deserialization(String),
    /// A value could not be serialized.
    Serialization(String),
    /// The message is not valid MLS framing.
    InvalidMessage(String),
    /// Encryption failed.
    Encryption(String),
    /// Decryption failed.
    Decryption(String),
    /// Key generation failed.
    CryptoGeneration(String),
    /// Signing failed.
    Signing(String),
    /// A signature did not verify.
    VerificationFailed(String),
    /// A public key is malformed.
    InvalidPublicKey(String),
    /// The MLS layer is not initialized.
    NotInitialized,
    /// The frame's authenticated sender is not the claimed one.
    SenderIdentityMismatch {
        /// Sender the frame claims.
        claimed: String,
        /// Sender MLS authenticated.
        authenticated: String,
    },
    /// The commit was refused by policy: its committer is not an admin.
    CommitNotAuthorized {
        /// Authenticated committer.
        committer: String,
        /// Members the commit would have added.
        added: Vec<String>,
        /// Members the commit would have removed.
        removed: Vec<String>,
    },
    /// The envelope names a session that is not the claimed sender's.
    SessionIdentityMismatch(String),
    /// A leaf carries a credential that its key does not derive to.
    LeafAddressMismatch(String),
    /// The sender's role in the group is not supported.
    UnsupportedSender(String),
    /// Any other failure.
    Other(String),
}

/// What a transport reports when a send fails.
#[derive(Debug, Clone, PartialEq, Eq)]
pub enum TransportError {
    /// The frame could not be handed to any transport.
    SendFailed(String),
    /// Any other transport failure.
    Other(String),
}

/// Stable, machine-readable error classes used for session readiness decisions.
#[non_exhaustive]
#[derive(Debug, Clone, Copy, PartialEq, Eq, Structural)]
pub enum SessionStateError {
    /// Session exists but cannot process application traffic yet.
    SessionNotReady,
    /// Session or group state does not exist locally.
    GroupNotFound,
    /// The MLS layer is not initialized.
    NotInitialized,
    /// Underlying transport failure.
    TransportFailure,
    /// Cryptographic operation failure.
    CryptoFailure,
    /// Session exists but is out of step with the sender's epoch. Unlike
    /// [`SessionStateError::CryptoFailure`] this class re-establishes the
    /// session.
    SessionDesync,
    /// Error that does not match a known class.
    Unknown,
}

/// The class of an MLS failure.
pub open spec fn mls_class(error: MlsError) -> SessionStateError {
    match error {
        MlsError::GroupNotFound(_) | MlsError::SessionNotFound(_) => {
            SessionStateError::GroupNotFound
        },
        MlsError::NotInitialized => SessionStateError::NotInitialized,
        MlsError::SessionDesync(_) => SessionStateError::SessionDesync,
        MlsError::Storage(_)
        | MlsError::OpenMls(_)
        | MlsError::Deserialization(_)
        | MlsError::Serialization(_)
        | MlsError::InvalidMessage(_)
        | MlsError::Encryption(_)
        | MlsError::Decryption(_)
        | MlsError::CryptoGeneration(_)
        | MlsError::Signing(_)
        | MlsError::VerificationFailed(_)
        | MlsError::InvalidPublicKey(_) => SessionStateError::CryptoFailure,
        MlsError::CommitNotAuthorized { .. }
        | MlsError::SenderIdentityMismatch { .. }
        | MlsError::SessionIdentityMismatch(_)
        | MlsError::LeafAddressMismatch(_)
        | MlsError::UnsupportedSender(_)
        | MlsError::Other(_) => SessionStateError::Unknown,
    }
}

/// The class of a protocol error.
pub open spec fn error_class(error: Error) -> SessionStateError {
    match error {
        Error::SessionNotReady(_) => SessionStateError::SessionNotReady,
        Error::MlsNotInitialized => SessionStateError::NotInitialized,
        Error::Transport(_) => SessionStateError::TransportFailure,
        Error::EncryptFailed(_) => SessionStateError::CryptoFailure,
        Error::GroupNotFound(_) => SessionStateError::GroupNotFound,
        Error::Mls(inner) => mls_class(inner),
        _ => SessionStateError::Unknown,
    }
}

impl SessionStateError {
    /// The class's stable code.
    pub open spec fn text(self) -> Seq<char> {
        match self {
            SessionStateError::SessionNotReady => "SESSION_NOT_READY"@,
            SessionStateError::GroupNotFound => "GROUP_NOT_FOUND"@,
            SessionStateError::NotInitialized => "NOT_INITIALIZED"@,
            SessionStateError::TransportFailure => "TRANSPORT_FAILURE"@,
            SessionStateError::CryptoFailure => "CRYPTO_FAILURE"@,
            SessionStateError::SessionDesync => "SESSION_DESYNC"@,
            SessionStateError::Unknown => "UNKNOWN"@,
        }
    }

    /// Returns a stable, non-localized machine-readable error code.
    pub fn code(&self) -> (r: &'static str)
        ensures
            r@ == self.text(),
    {
        match self {
            SessionStateError::SessionNotReady => "SESSION_NOT_READY",
            SessionStateError::GroupNotFound => "GROUP_NOT_FOUND",
            SessionStateError::NotInitialized => "NOT_INITIALIZED",
            SessionStateError::TransportFailure => "TRANSPORT_FAILURE",
            SessionStateError::CryptoFailure => "CRYPTO_FAILURE",
            SessionStateError::SessionDesync => "SESSION_DESYNC",
            SessionStateError::Unknown => "UNKNOWN",
        }
    }

    /// Classifies protocol-level errors for session state control flow.
    pub fn classify(error: &Error) -> (r: SessionStateError)
        ensures
            r == error_class(*error),
    {
        match error {
            Error::SessionNotReady(_) => SessionStateError::SessionNotReady,
            Error::MlsNotInitialized => SessionStateError::NotInitialized,
            Error::Transport(_) => SessionStateError::TransportFailure,
            Error::EncryptFailed(_) => SessionStateError::CryptoFailure,
            Error::GroupNotFound(_) => SessionStateError::GroupNotFound,
            Error::Mls(inner) => SessionStateError::from(inner),
            _ => SessionStateError::Unknown,
        }
    }

    /// Maps the class into the welcome lifecycle's reasons: only a transport
    /// failure is a transport's fault.
    pub fn to_welcome_reason_code(&self) -> (r: WelcomeReasonCode)
        ensures
            r == (if *self == SessionStateError::TransportFailure {
                WelcomeReasonCode::TransportUnavailable
            } else {
                WelcomeReasonCode::InternalError
            }),
    {
        match self {
            SessionStateError::TransportFailure => WelcomeReasonCode::TransportUnavailable,
            _ => WelcomeReasonCode::InternalError,
        }
    }
}

impl vstd::std_specs::convert::FromSpecImpl<&MlsError> for SessionStateError {
    open spec fn obeys_from_spec() -> bool {
        true
    }

    open spec fn from_spec(error: &MlsError) -> SessionStateError {
        mls_class(*error)
    }
}

impl From<&MlsError> for SessionStateError {
    fn from(error: &MlsError) -> (r: SessionStateError) {
        match error {
            MlsError::GroupNotFound(_) | MlsError::SessionNotFound(_) => {
                SessionStateError::GroupNotFound
            },
            MlsError::NotInitialized => SessionStateError::NotInitialized,
            MlsError::SessionDesync(_) => SessionStateError::SessionDesync,
            MlsError::Storage(_)
            | MlsError::OpenMls(_)
            | MlsError::Deserialization(_)
            | MlsError::Serialization(_)
            | MlsError::InvalidMessage(_)
            | MlsError::Encryption(_)
            | MlsError::Decryption(_)
            | MlsError::CryptoGeneration(_)
            | MlsError::Signing(_)
            | MlsError::VerificationFailed(_)
            | MlsError::InvalidPublicKey(_) => SessionStateError::CryptoFailure,
            // Refusals by policy or identity say nothing about the health of the
            // session: such a frame is neither queued nor answered by a re-key.
            _ => SessionStateError::Unknown,
        }
    }
}

/// Protocol errors.
#[non_exhaustive]
#[derive(Debug, Clone, PartialEq, Eq)]
pub enum Error {
    /// Protocol not started.
    NotStarted,
    /// Protocol already started.
    AlreadyStarted,
    /// Invalid configuration.
    InvalidConfiguration(String),
    /// Core error.
    Core(String),
    /// Transport error.
    Transport(TransportError),
    /// Router error.
    Router(String),
    /// Reliability error.
    Reliability(String),
    /// MLS error.
    Mls(MlsError),
    /// MLS not initialized.
    MlsNotInitialized,
    /// No key package available for recipient.
    NoKeyPackage(String),
    /// Session not ready; establishment in progress.
    SessionNotReady(EstablishmentState),
    /// Outbound message encryption failed.
    EncryptFailed(String),
    /// Service error.
    Service(String),
    /// Serialization error.
    Serialization(String),
    /// Operation rejected because the target user is blocked.
    UserBlocked(String),
    /// Too many concurrent media transfers to the same recipient.
    MediaTransferLimit(String),
    /// Group does not exist locally.
    GroupNotFound(String),
    /// Operation requires a group role or permission the caller does not hold.
    PermissionDenied(String),
    /// Operation rejected by the current group or protocol state.
    InvalidState(String),
    /// A caller-supplied argument failed validation.
    InvalidArgument(String),
    /// Generic error.
    Other(String),
}

/// What a transport failure says.
pub enum TransportErrorView {
    SendFailed(Seq<char>),
    Other(Seq<char>),
}

impl DeepView for TransportError {
    type V = TransportErrorView;

    open spec fn deep_view(&self) -> TransportErrorView {
        match self {
            TransportError::SendFailed(t) => TransportErrorView::SendFailed(t@),
            TransportError::Other(t) => TransportErrorView::Other(t@),
        }
    }
}

/// What an error says. An MLS failure is passed on as it came.
pub enum ErrorView {
    NotStarted,
    AlreadyStarted,
    InvalidConfiguration(Seq<char>),
    Core(Seq<char>),
    Transport(TransportErrorView),
    Router(Seq<char>),
    Reliability(Seq<char>),
    Mls(MlsError),
    MlsNotInitialized,
    NoKeyPackage(Seq<char>),
    SessionNotReady(EstablishmentState),
    EncryptFailed(Seq<char>),
    Service(Seq<char>),
    Serialization(Seq<char>),
    UserBlocked(Seq<char>),
    MediaTransferLimit(Seq<char>),
    GroupNotFound(Seq<char>),
    PermissionDenied(Seq<char>),
    InvalidState(Seq<char>),
    InvalidArgument(Seq<char>),
    Other(Seq<char>),
}

impl DeepView for Error {
    type V = ErrorView;

    open spec fn deep_view(&self) -> ErrorView {
        match self {
            Error::NotStarted => ErrorView::NotStarted,
            Error::AlreadyStarted => ErrorView::AlreadyStarted,
            Error::InvalidConfiguration(t) => ErrorView::InvalidConfiguration(t@),
            Error::Core(t) => ErrorView::Core(t@),
            Error::Transport(e) => ErrorView::Transport(e.deep_view()),
            Error::Router(t) => ErrorView::Router(t@),
            Error::Reliability(t) => ErrorView::Reliability(t@),
            Error::Mls(e) => ErrorView::Mls(*e),
            Error::MlsNotInitialized => ErrorView::MlsNotInitialized,
            Error::NoKeyPackage(t) => ErrorView::NoKeyPackage(t@),
            Error::SessionNotReady(e) => ErrorView::SessionNotReady(*e),
            Error::EncryptFailed(t) => ErrorView::EncryptFailed(t@),
            Error::Service(t) => ErrorView::Service(t@),
            Error::Serialization(t) => ErrorView::Serialization(t@),
            Error::UserBlocked(t) => ErrorView::UserBlocked(t@),
            Error::MediaTransferLimit(t) => ErrorView::MediaTransferLimit(t@),
            Error::GroupNotFound(t) => ErrorView::GroupNotFound(t@),
            Error::PermissionDenied(t) => ErrorView::PermissionDenied(t@),
            Error::InvalidState(t) => ErrorView::InvalidState(t@),
            Error::InvalidArgument(t) => ErrorView::InvalidArgument(t@),
            Error::Other(t) => ErrorView::Other(t@),
        }
    }
}

/// What a result says.
pub open spec fn told<T: DeepView>(result: Result<T, Error>) -> Result<T::V, ErrorView> {
    match result {
        Ok(value) => Ok(value.deep_view()),
        Err(error) => Err(error.deep_view()),
    }
}

/// One condition, one category: a missing group is classified alike whether the
/// MLS layer or the protocol layer reports it.
pub proof fn missing_group_has_one_class(group: String)
    ensures
        error_class(Error::GroupNotFound(group)) == error_class(
            Error::Mls(MlsError::GroupNotFound(group)),
        ),
{
}

/// An epoch desync never falls into the class of permanent failures.
pub proof fn desync_is_not_a_crypto_failure(error: MlsError)
    ensures
        error is SessionDesync <==> mls_class(error) == SessionStateError::SessionDesync,
        error is SessionDesync ==> mls_class(error) != SessionStateError::CryptoFailure,
{
}

/// Each class is for these failures and no others: a session that is not ready, a
/// group or session that is not there, MLS that was not set up, a transport that
/// failed, an epoch out of step, and cryptography that failed. The rest is
/// unknown.
pub proof fn each_class_has_its_errors(error: Error)
    ensures
        error_class(error) == SessionStateError::SessionNotReady <==> error is SessionNotReady,
        error_class(error) == SessionStateError::GroupNotFound <==> error is GroupNotFound || (
        error matches Error::Mls(e) && (e is GroupNotFound || e is SessionNotFound)),
        error_class(error) == SessionStateError::NotInitialized <==> error is MlsNotInitialized || (
        error matches Error::Mls(e) && e is NotInitialized),
        error_class(error) == SessionStateError::TransportFailure <==> error is Transport,
        error_class(error) == SessionStateError::SessionDesync <==> (error matches Error::Mls(e)
            && e is SessionDesync),
        error_class(error) == SessionStateError::CryptoFailure <==> error is EncryptFailed || (
        error matches Error::Mls(e) && (e is Storage || e is OpenMls || e is Deserialization
            || e is Serialization || e is InvalidMessage || e is Encryption || e is Decryption
            || e is CryptoGeneration || e is Signing || e is VerificationFailed
            || e is InvalidPublicKey)),
{
}

} // verus!
