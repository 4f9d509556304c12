//! The failure kinds that the broker reports.

use vstd::prelude::*;

verus! {

/// Why an operation of the broker was refused or could not be carried out.
#[derive(Debug, Clone, PartialEq, Eq)]
pub enum ICTError {
    /// The device identifier is not a well-formed UUID.
    InvalidIdentifier,
    /// The public key is not a well-formed RSA public key.
    InvalidKey,
    /// The signature is not valid base64.
    InvalidSignatureEncoding,
    /// No device is registered under the identifier.
    NotFound,
    /// A device is already registered under the identifier.
    Conflict,
    /// The device is registered but has not been authorized.
    NotAuthorized,
    /// The signature does not match the message under the device's key.
    SignatureInvalid,
    /// The message is not a JSON object with the expected text members.
    MalformedMessage,
    /// The one-time code is not valid in the current time window.
    TotpInvalid,
    /// The shared secret could not be encrypted under the device's key.
    RSA,
    /// No code generator can be built from the stored secret.
    TOTP,
    /// The clock gave no usable time.
    SystemTimeError,
    /// The persistence layer failed; the text is its own account of the fault.
    Storage(String),
}

impl ICTError {
    /// Whether the failure is a refusal of the request, as opposed to a fault
    /// of the broker or of its storage.
    pub open spec fn is_denial(self) -> bool {
        !(self is Storage || self is SystemTimeError)
    }

    /// The status a transport reports for this failure: 400 for a refused
    /// request, 500 for an internal fault.
    pub open spec fn spec_status(self) -> u16 {
        if self.is_denial() {
            400
        } else {
            500
        }
    }

    /// The text of [`ICTError::message`] for every kind but `Storage`, whose
    /// text is followed by the fault's own.
    pub open spec fn spec_label(self) -> Seq<char> {
        match self {
            ICTError::InvalidIdentifier => "Invalid UUID"@,
            ICTError::InvalidKey => "Invalid public key"@,
            ICTError::InvalidSignatureEncoding => "Failed to decode base64 signature"@,
            ICTError::NotFound => "No device with that uuid found"@,
            ICTError::Conflict => "A device with that uuid is already registered"@,
            ICTError::NotAuthorized => "Will not operate a device/client that is not authorized"@,
            ICTError::SignatureInvalid => "Message signature verification failed"@,
            ICTError::MalformedMessage => "Failed to parse JSON message"@,
            ICTError::TotpInvalid => "TOTP token is not valid"@,
            ICTError::RSA => "RSA issue"@,
            ICTError::TOTP => "TOTP error"@,
            ICTError::SystemTimeError => "System Time error"@,
            ICTError::Storage(_) => "Storage error: "@,
        }
    }

    /// The human-readable account of the failure.
    pub open spec fn spec_message(self) -> Seq<char> {
        match self {
            ICTError::Storage(fault) => self.spec_label() + fault@,
            _ => self.spec_label(),
        }
    }

    /// The status code a transport answers with.
    pub fn status(&self) -> (code: u16)
        ensures
            code == self.spec_status(),
    {
        match self {
            ICTError::Storage(_) => 500,
            ICTError::SystemTimeError => 500,
            _ => 400,
        }
    }

    /// The human-readable account of the failure.
    pub fn message(&self) -> (text: String)
        ensures
            text@ == self.spec_message(),
    {
        match self {
            ICTError::InvalidIdentifier => "Invalid UUID".to_owned(),
            ICTError::InvalidKey => "Invalid public key".to_owned(),
            ICTError::InvalidSignatureEncoding => "Failed to decode base64 signature".to_owned(),
            ICTError::NotFound => "No device with that uuid found".to_owned(),
            ICTError::Conflict => "A device with that uuid is already registered".to_owned(),
            ICTError::NotAuthorized => "Will not operate a device/client that is not authorized".to_owned(),
            ICTError::SignatureInvalid => "Message signature verification failed".to_owned(),
            ICTError::MalformedMessage => "Failed to parse JSON message".to_owned(),
            ICTError::TotpInvalid => "TOTP token is not valid".to_owned(),
            ICTError::RSA => "RSA issue".to_owned(),
            ICTError::TOTP => "TOTP error".to_owned(),
            ICTError::SystemTimeError => "System Time error".to_owned(),
            ICTError::Storage(fault) => "Storage error: ".to_owned().concat(fault.as_str()),
        }
    }
}

} // verus!
