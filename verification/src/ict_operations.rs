//! The broker's protocol: registration, the authorization gate, relay
//! association, and the verification of operate requests.

use vstd::prelude::*;
use vstd::utf8::{encode_utf8, is_ascii_chars_encode_utf8};
use crate::ict_codec::{
    base32_encode,
    base32_length,
    base32_text,
    base64_bytes,
    base64_decode,
    base64_encode,
    base64_text,
    fits_base64,
    json_members,
    json_text_members,
    uuid_of_text,
    uuid_parse,
};
use crate::ict_config::{algorithm_named, algorithm_of};
use crate::ict_crypto::{
    buildable,
    checkable_time,
    encrypt_with,
    fresh_secret,
    fresh_seed,
    modulus_length,
    public_key_from_pem,
    public_key_of_pem,
    signature_verdict,
    totp_accepts,
    totp_check,
    unix_time,
    verify_signature,
    wrapped_under,
};
use crate::ict_db::{lemma_anchored_without_device, Db, Device, DeviceRecord, Store};
use crate::ict_errors::ICTError;

verus! {

/// The number of digits of a one-time code.
pub const TOTP_DIGITS: usize = 6;

/// How many time steps before and after the current one still count: none.
pub const TOTP_SKEW: u8 = 0;

/// The length of a time step, in seconds.
pub const TOTP_STEP: u64 = 30;

/// The payload of an operate request: the one-time code, and a salt that
/// only serves to vary the signed bytes from one request to the next.
#[derive(Debug, Clone, PartialEq, Eq)]
pub struct OperationMessage {
    pub token: String,
    pub _salt: String,
}

impl OperationMessage {
    /// Reads the payload of an operate request.
    pub fn parse(message: &str) -> (r: Option<OperationMessage>)
        ensures
            match r {
                Some(parsed) => message_of(message@) == Some((parsed.token@, parsed._salt@)),
                None => message_of(message@) is None,
            },
    {
        let members = match json_members(message, "token", "salt") {
            Some(members) => Some(members),
            None => json_members(message, "token", "_salt"),
        };
        match members {
            Some((token, salt)) => Some(OperationMessage { token, _salt: salt }),
            None => None,
        }
    }
}

/// What a verified operate request authorizes: the relays to close, and for
/// how long.
#[derive(Debug, Clone, PartialEq, Eq)]
pub struct Actuation {
    pub relays: Vec<u8>,
    pub close_duration: u64,
}

/// A registered device together with its relays.
#[derive(Debug, Clone, PartialEq, Eq)]
pub struct Client {
    pub device: Device,
    pub relays: Vec<u8>,
}

/// The last gate of an operate request: with the code accepted, the relays
/// of the device are granted.
pub open spec fn checked_outcome(store: Store, device: DeviceRecord, accepted: bool) -> Result<
    Seq<u8>,
    ICTError,
> {
    if accepted {
        Ok(store.relays_of(device.id))
    } else {
        Err(ICTError::TotpInvalid)
    }
}

/// The number of the time step that holds the Unix time `time`.
pub open spec fn step_of(time: u64) -> u64 {
    (time / TOTP_STEP) as u64
}

/// The code gate: `TOTP` where the device's secret is too short for a
/// generator, `SystemTimeError` where the clock gave no time, and else what
/// the check of `token` gives: it must be the code of the step that holds
/// the clock's reading.
pub open spec fn parsed_outcome(
    store: Store,
    sha: Seq<char>,
    device: DeviceRecord,
    token: Seq<char>,
    now: Option<u64>,
) -> Result<Seq<u8>, ICTError> {
    if !buildable(TOTP_DIGITS, device.secret) {
        Err(ICTError::TOTP)
    } else {
        match now {
            Some(time) => checked_outcome(
                store,
                device,
                totp_accepts(
                    algorithm_named(sha),
                    TOTP_DIGITS,
                    TOTP_SKEW,
                    device.secret,
                    token,
                    step_of(time),
                ),
            ),
            None => Err(ICTError::SystemTimeError),
        }
    }
}

/// The code and the salt that `message` holds: the text members `token` and
/// `salt` of a JSON object. The salt may stand under the name `_salt`
/// instead. Other members are passed over.
pub open spec fn message_of(message: Seq<char>) -> Option<(Seq<char>, Seq<char>)> {
    match json_text_members(message, "token"@, "salt"@) {
        Some(members) => Some(members),
        None => json_text_members(message, "token"@, "_salt"@),
    }
}

/// The message gate: `MalformedMessage` unless `message` holds a code and a
/// salt.
pub open spec fn verified_outcome(
    store: Store,
    sha: Seq<char>,
    device: DeviceRecord,
    message: Seq<char>,
    now: Option<u64>,
) -> Result<Seq<u8>, ICTError> {
    match message_of(message) {
        None => Err(ICTError::MalformedMessage),
        Some((token, _)) => parsed_outcome(store, sha, device, token, now),
    }
}

/// The signature gate: `InvalidKey` where the stored key is no key,
/// `SignatureInvalid` where `signature` does not sign the bytes of `message`
/// under it.
pub open spec fn signed_outcome(
    store: Store,
    sha: Seq<char>,
    device: DeviceRecord,
    message: Seq<char>,
    signature: Seq<u8>,
    now: Option<u64>,
) -> Result<Seq<u8>, ICTError> {
    match signature_verdict(device.public_key, encode_utf8(message), signature) {
        None => Err(ICTError::InvalidKey),
        Some(false) => Err(ICTError::SignatureInvalid),
        Some(true) => verified_outcome(store, sha, device, message, now),
    }
}

/// The first gates: `NotFound` for an unknown device, `NotAuthorized` for
/// one that has not been authorized, whatever else the request holds, and
/// `InvalidSignatureEncoding` where `signature` is not base64.
pub open spec fn device_outcome(
    store: Store,
    sha: Seq<char>,
    id: u128,
    message: Seq<char>,
    signature: Seq<char>,
    now: Option<u64>,
) -> Result<Seq<u8>, ICTError> {
    match store.device(id) {
        None => Err(ICTError::NotFound),
        Some(device) => if !device.authorized {
            Err(ICTError::NotAuthorized)
        } else {
            match base64_bytes(signature) {
                None => Err(ICTError::InvalidSignatureEncoding),
                Some(bytes) => signed_outcome(store, sha, device, message, bytes, now),
            }
        },
    }
}

/// What an operate request comes to: the relays to close, or the first gate
/// that refused it. `now` is the clock's reading in seconds of Unix time.
pub open spec fn operate_outcome(
    store: Store,
    sha: Seq<char>,
    id_text: Seq<char>,
    message: Seq<char>,
    signature: Seq<char>,
    now: Option<u64>,
) -> Result<Seq<u8>, ICTError> {
    match uuid_of_text(id_text) {
        None => Err(ICTError::InvalidIdentifier),
        Some(id) => device_outcome(store, sha, id, message, signature, now),
    }
}

/// Whether `r` is the answer to a request whose outcome is `outcome`: the
/// same refusal, or the relays granted together with `close_duration`.
pub open spec fn granted(
    r: Result<Actuation, ICTError>,
    close_duration: u64,
    outcome: Result<Seq<u8>, ICTError>,
) -> bool {
    match r {
        Ok(actuation) => outcome == Ok::<Seq<u8>, ICTError>(actuation.relays@)
            && actuation.close_duration == close_duration,
        Err(e) => outcome == Err::<Seq<u8>, ICTError>(e),
    }
}

/// Grants the relays of `device` once its code was checked: `accepted` says
/// what the check gave.
pub fn operate_checked(db: &Db, device: &Device, accepted: bool, close_duration: u64) -> (r:
    Result<Actuation, ICTError>)
    ensures
        granted(r, close_duration, checked_outcome(db@, device@, accepted)),
{
    if !accepted {
        return Err(ICTError::TotpInvalid);
    }
    match db.get_relays(device.id) {
        Ok(relays) => Ok(Actuation { relays, close_duration }),
        Err(e) => Err(e),
    }
}

/// Checks the code of a request whose message was parsed.
pub fn operate_parsed(
    db: &Db,
    device: &Device,
    parsed: &OperationMessage,
    close_duration: u64,
    now: Option<u64>,
) -> (r: Result<Actuation, ICTError>)
    ensures
        granted(
            r,
            close_duration,
            parsed_outcome(db@, db.totp_sha@, device@, parsed.token@, now),
        ),
{
    if device.totp_secret.len() < 16 {
        return Err(ICTError::TOTP);
    }
    let time: u64 = match now {
        Some(time) => time,
        None => {
            return Err(ICTError::SystemTimeError);
        },
    };
    assert(checkable_time(TOTP_SKEW, TOTP_STEP, time));
    let algorithm = algorithm_of(&db.totp_sha);
    match totp_check(
        algorithm,
        TOTP_DIGITS,
        TOTP_SKEW,
        TOTP_STEP,
        &device.totp_secret,
        parsed.token.as_str(),
        time,
    ) {
        Ok(accepted) => operate_checked(db, device, accepted, close_duration),
        Err(_) => Err(ICTError::TOTP),
    }
}

/// Parses the message of a request whose signature was verified.
pub fn operate_verified(
    db: &Db,
    device: &Device,
    message: &str,
    close_duration: u64,
    now: Option<u64>,
) -> (r: Result<Actuation, ICTError>)
    ensures
        granted(r, close_duration, verified_outcome(db@, db.totp_sha@, device@, message@, now)),
{
    match OperationMessage::parse(message) {
        None => Err(ICTError::MalformedMessage),
        Some(parsed) => operate_parsed(db, device, &parsed, close_duration, now),
    }
}

/// Verifies the decoded signature of a request of the authorized `device`.
pub fn operate_signed(
    db: &Db,
    device: &Device,
    message: &str,
    signature: &Vec<u8>,
    close_duration: u64,
    now: Option<u64>,
) -> (r: Result<Actuation, ICTError>)
    ensures
        granted(
            r,
            close_duration,
            signed_outcome(db@, db.totp_sha@, device@, message@, signature@, now),
        ),
{
    match verify_signature(&device.wrapped_pk, message.as_bytes(), signature) {
        Err(_) => Err(ICTError::InvalidKey),
        Ok(false) => Err(ICTError::SignatureInvalid),
        Ok(true) => operate_verified(db, device, message, close_duration, now),
    }
}

/// Judges a request made under the identifier `id`.
pub fn operate_device(
    db: &Db,
    id: u128,
    message: &str,
    signature: &str,
    close_duration: u64,
    now: Option<u64>,
) -> (r: Result<Actuation, ICTError>)
    ensures
        granted(
            r,
            close_duration,
            device_outcome(db@, db.totp_sha@, id, message@, signature@, now),
        ),
{
    match db.get_device(id) {
        Err(e) => Err(e),
        Ok(None) => Err(ICTError::NotFound),
        Ok(Some(device)) => {
            if !device.authorized {
                return Err(ICTError::NotAuthorized);
            }
            match base64_decode(signature) {
                Err(_) => Err(ICTError::InvalidSignatureEncoding),
                Ok(bytes) => operate_signed(db, &device, message, &bytes, close_duration, now),
            }
        },
    }
}

/// Judges an operate request against the clock's reading `now`, in seconds
/// of Unix time: the relays to close for `close_duration`, or the first gate
/// that refused the request.
pub fn operate_at(
    db: &Db,
    uuid_as_str: &str,
    message: &str,
    signature: &str,
    close_duration: u64,
    now: Option<u64>,
) -> (r: Result<Actuation, ICTError>)
    ensures
        granted(
            r,
            close_duration,
            operate_outcome(db@, db.totp_sha@, uuid_as_str@, message@, signature@, now),
        ),
{
    match uuid_parse(uuid_as_str) {
        Err(_) => Err(ICTError::InvalidIdentifier),
        Ok(id) => operate_device(db, id, message, signature, close_duration, now),
    }
}

/// Judges an operate request at the present time. The answer is `true`
/// where every gate passed, and else the refusal of the first that did not;
/// it is the outcome of the request at some reading of the clock. What a
/// grant is for are the relays that the store holds for the device.
pub fn operate(
    db: &Db,
    uuid_as_str: &str,
    message: &str,
    signature: &str,
    close_duration: u64,
) -> (r: Result<bool, ICTError>)
    ensures
        exists|now: Option<u64>|
            match #[trigger] operate_outcome(
                db@,
                db.totp_sha@,
                uuid_as_str@,
                message@,
                signature@,
                now,
            ) {
                Ok(relays) => r == Ok::<bool, ICTError>(true) && (uuid_of_text(uuid_as_str@)
                    matches Some(id) && relays == db@.relays_of(id)),
                Err(e) => r == Err::<bool, ICTError>(e),
            },
{
    let now = unix_time();
    match operate_at(db, uuid_as_str, message, signature, close_duration, now) {
        Ok(_) => Ok(true),
        Err(e) => Err(e),
    }
}

/// The store after a device was registered under `id` with the key
/// `public_key` and the secret `secret`: one more record, not yet authorized.
pub open spec fn enrolled(store: Store, id: u128, public_key: Seq<u8>, secret: Seq<u8>) -> Store {
    store.with_device(DeviceRecord { id, public_key, secret, authorized: false })
}

/// What is encrypted for a device: the bytes of the base32 text of its
/// secret.
pub open spec fn secret_text(secret: Seq<u8>) -> Seq<u8> {
    encode_utf8(base32_text(secret))
}

/// The answer to a registration with the key in `pem`, the secret `secret`
/// and the padding drawn from `seed`: the base64 text of the ciphertext of
/// the secret's text under that key. `InvalidKey` where `pem` holds no key,
/// `RSA` where the key is too short for the text.
pub open spec fn wrapped_answer(pem: Seq<char>, secret: Seq<u8>, seed: Seq<u8>) -> Result<
    Seq<char>,
    ICTError,
> {
    match wrapped_under(pem, secret_text(secret), seed) {
        Some(cipher) => if fits_base64(cipher.len()) {
            Ok(base64_text(cipher))
        } else {
            Err(ICTError::RSA)
        },
        None => if modulus_length(pem) is None {
            Err(ICTError::InvalidKey)
        } else {
            Err(ICTError::RSA)
        },
    }
}

/// What holds of the text of a secret and of its ciphertext: the text has
/// eight characters for five bytes; the ciphertext is one block as long as
/// the key's modulus, which holds the text and 11 bytes of padding; there is
/// none only where the modulus is shorter than that.
pub open spec fn one_block(pem: Seq<char>, secret: Seq<u8>, seed: Seq<u8>) -> bool {
    &&& secret_text(secret).len() == base32_length(secret.len())
    &&& match wrapped_under(pem, secret_text(secret), seed) {
        Some(cipher) => modulus_length(pem) == Some(cipher.len()) && cipher.len()
            >= base32_length(secret.len()) + 11,
        None => modulus_length(pem) matches Some(k) ==> k < base32_length(secret.len()) + 11,
    }
}

/// Whether `r` is the answer `expected`.
pub open spec fn answers(r: Result<String, ICTError>, expected: Result<Seq<char>, ICTError>) -> bool {
    match r {
        Ok(text) => expected == Ok::<Seq<char>, ICTError>(text@),
        Err(e) => expected == Err::<Seq<char>, ICTError>(e),
    }
}

/// What `register` owes: the store `before` the call, the store `after` it
/// and the answer `r`, for the identifier text and the PEM key given.
pub open spec fn registered(
    before: Store,
    after: Store,
    id_text: Seq<char>,
    pem: Seq<char>,
    r: Result<String, ICTError>,
) -> bool {
    match uuid_of_text(id_text) {
        None => r == Err::<String, ICTError>(ICTError::InvalidIdentifier) && after == before,
        Some(id) => match public_key_of_pem(pem) {
            None => r == Err::<String, ICTError>(ICTError::InvalidKey) && after == before,
            Some(key) => if before.has_device(id) {
                r == Err::<String, ICTError>(ICTError::Conflict) && after == before
            } else {
                exists|secret: Seq<u8>, seed: Seq<u8>|
                    {
                        &&& secret.len() == 20
                        &&& seed.len() == 32
                        &&& after == enrolled(before, id, key, secret)
                        &&& modulus_length(pem) is Some
                        &&& answers(r, #[trigger] wrapped_answer(pem, secret, seed))
                        &&& one_block(pem, secret, seed)
                    }
            },
        },
    }
}

/// The transport form of a ciphertext: its base64 text. Fails with `RSA`
/// where that text would not fit in memory.
pub fn seal(ciphertext: &Vec<u8>) -> (r: Result<String, ICTError>)
    ensures
        match r {
            Ok(text) => fits_base64(ciphertext@.len()) && text@ == base64_text(ciphertext@),
            Err(e) => !fits_base64(ciphertext@.len()) && e == ICTError::RSA,
        },
{
    if ciphertext.len() / 3 > (usize::MAX - 4) / 4 {
        return Err(ICTError::RSA);
    }
    Ok(base64_encode(ciphertext))
}

/// Encrypts the base32 text of `secret` under the key in `pem_public_key`,
/// with padding drawn from `seed`, and seals the ciphertext.
pub fn wrap_secret_with(pem_public_key: &str, secret: &Vec<u8>, seed: [u8; 32]) -> (r: Result<
    String,
    ICTError,
>)
    ensures
        answers(r, wrapped_answer(pem_public_key@, secret@, seed@)),
        one_block(pem_public_key@, secret@, seed@),
        public_key_of_pem(pem_public_key@) is Some ==> modulus_length(pem_public_key@) is Some,
{
    let encoded = base32_encode(secret);
    proof {
        is_ascii_chars_encode_utf8(encoded@);
    }
    match encrypt_with(pem_public_key, encoded.as_str().as_bytes(), seed) {
        Err(_) => Err(ICTError::InvalidKey),
        Ok(Err(_)) => Err(ICTError::RSA),
        Ok(Ok(ciphertext)) => seal(&ciphertext),
    }
}

/// Encrypts the base32 text of `secret` under the key in `pem_public_key`,
/// with fresh padding, and seals the ciphertext.
pub fn wrap_secret(pem_public_key: &str, secret: &Vec<u8>) -> (r: Result<String, ICTError>)
    ensures
        exists|seed: Seq<u8>|
            seed.len() == 32 && answers(
                r,
                #[trigger] wrapped_answer(pem_public_key@, secret@, seed),
            ) && one_block(pem_public_key@, secret@, seed),
        public_key_of_pem(pem_public_key@) is Some ==> modulus_length(pem_public_key@) is Some,
{
    let seed = fresh_seed();
    wrap_secret_with(pem_public_key, secret, seed)
}

/// Registers a device: stores it, not yet authorized, with a fresh secret,
/// and answers with that secret wrapped under the device's own key.
///
/// Fails with `InvalidIdentifier`, `InvalidKey` or `Conflict`, in this order,
/// and then changes nothing. Where the key is too short to wrap the secret
/// (`RSA`), the device stays registered.
pub fn register(db: &mut Db, uuid_as_str: &str, pem_public_key: &str) -> (r: Result<
    String,
    ICTError,
>)
    ensures
        final(db)@.wf(),
        final(db).path == old(db).path,
        final(db).totp_sha == old(db).totp_sha,
        old(db)@.anchored() ==> final(db)@.anchored(),
        registered(old(db)@, final(db)@, uuid_as_str@, pem_public_key@, r),
{
    db.tables.recall_wf();
    let id: u128 = match uuid_parse(uuid_as_str) {
        Ok(id) => id,
        Err(_) => {
            return Err(ICTError::InvalidIdentifier);
        },
    };
    let public_key = match public_key_from_pem(pem_public_key) {
        Ok(key) => key,
        Err(_) => {
            return Err(ICTError::InvalidKey);
        },
    };
    let device = Device {
        id,
        wrapped_pk: public_key,
        totp_secret: fresh_secret(),
        authorized: false,
    };
    match db.add_device(&device) {
        Err(e) => {
            return Err(e);
        },
        Ok(()) => {},
    }
    let seed = fresh_seed();
    let r = wrap_secret_with(pem_public_key, &device.totp_secret, seed);
    proof {
        let key = public_key_of_pem(pem_public_key@).unwrap();
        assert(key == device.wrapped_pk@);
        assert(!old(db)@.has_device(id));
        assert(device.totp_secret@.len() == 20);
        assert(seed@.len() == 32);
        assert(db@ == enrolled(old(db)@, id, key, device.totp_secret@));
        assert(answers(r, wrapped_answer(pem_public_key@, device.totp_secret@, seed@)));
    }
    r
}

/// What setting the flag of the device named by `id_text` owes.
pub open spec fn flag_set(
    before: Store,
    after: Store,
    id_text: Seq<char>,
    value: bool,
    r: Result<(), ICTError>,
) -> bool {
    match uuid_of_text(id_text) {
        None => r == Err::<(), ICTError>(ICTError::InvalidIdentifier) && after == before,
        Some(id) => if before.has_device(id) {
            r == Ok::<(), ICTError>(()) && after == before.with_authorization(id, value)
        } else {
            r == Err::<(), ICTError>(ICTError::NotFound) && after == before
        },
    }
}

/// Authorizes the device: from now on its operate requests may pass.
pub fn authorize(db: &mut Db, uuid_as_str: &str) -> (r: Result<(), ICTError>)
    ensures
        final(db)@.wf(),
        final(db).path == old(db).path,
        final(db).totp_sha == old(db).totp_sha,
        old(db)@.anchored() ==> final(db)@.anchored(),
        flag_set(old(db)@, final(db)@, uuid_as_str@, true, r),
{
    set_auth(db, uuid_as_str, true)
}

/// Withdraws the authorization of the device.
pub fn unauthorize(db: &mut Db, uuid_as_str: &str) -> (r: Result<(), ICTError>)
    ensures
        final(db)@.wf(),
        final(db).path == old(db).path,
        final(db).totp_sha == old(db).totp_sha,
        old(db)@.anchored() ==> final(db)@.anchored(),
        flag_set(old(db)@, final(db)@, uuid_as_str@, false, r),
{
    set_auth(db, uuid_as_str, false)
}

/// Sets the authorization flag of the device to `auth_value`. Fails with
/// `InvalidIdentifier`, or with `NotFound` for an unknown device.
pub fn set_auth(db: &mut Db, uuid_as_str: &str, auth_value: bool) -> (r: Result<(), ICTError>)
    ensures
        final(db)@.wf(),
        final(db).path == old(db).path,
        final(db).totp_sha == old(db).totp_sha,
        old(db)@.anchored() ==> final(db)@.anchored(),
        flag_set(old(db)@, final(db)@, uuid_as_str@, auth_value, r),
{
    match uuid_parse(uuid_as_str) {
        Err(_) => {
            db.tables.recall_wf();
            Err(ICTError::InvalidIdentifier)
        },
        Ok(id) => db.set_authorization_on_device(id, auth_value),
    }
}

/// Removes the device and, with it, every relay association it has.
/// Succeeds also where no such device is registered.
pub fn delete_device(db: &mut Db, uuid_as_str: &str) -> (r: Result<(), ICTError>)
    ensures
        final(db)@.wf(),
        final(db).path == old(db).path,
        final(db).totp_sha == old(db).totp_sha,
        old(db)@.anchored() ==> final(db)@.anchored(),
        match uuid_of_text(uuid_as_str@) {
            None => r == Err::<(), ICTError>(ICTError::InvalidIdentifier) && final(db)@ == old(
                db,
            )@,
            Some(id) => r == Ok::<(), ICTError>(()) && final(db)@ == old(db)@.without_device(
                id,
            ).without_relays(id),
        },
{
    match uuid_parse(uuid_as_str) {
        Err(_) => {
            db.tables.recall_wf();
            Err(ICTError::InvalidIdentifier)
        },
        Ok(id) => {
            proof {
                if db@.anchored() {
                    lemma_anchored_without_device(db@, id);
                }
            }
            match db.delete_device(id) {
                Err(e) => {
                    return Err(e);
                },
                Ok(()) => {},
            }
            db.remove_relays(id)
        },
    }
}

/// Every registered device with its relays, in the order of registration.
pub fn list_clients(db: &Db) -> (r: Result<Vec<Client>, ICTError>)
    ensures
        r matches Ok(clients) && clients@.len() == db@.devices.len() && (forall|i: int|
            0 <= i < clients@.len() ==> (#[trigger] clients@[i]).device@ == db@.devices[i]
                && clients@[i].relays@ == db@.relays_of(db@.devices[i].id)),
{
    let devices = match db.get_devices() {
        Ok(devices) => devices,
        Err(e) => {
            return Err(e);
        },
    };
    let n: usize = devices.len();
    let mut clients: Vec<Client> = Vec::new();
    let mut i: usize = 0;
    while i < n
        invariant
            i <= n,
            n == devices@.len(),
            devices@.map_values(|d: Device| d@) == db@.devices,
            clients@.len() == i,
            forall|k: int|
                0 <= k < i ==> (#[trigger] clients@[k]).device@ == db@.devices[k]
                    && clients@[k].relays@ == db@.relays_of(db@.devices[k].id),
        decreases n - i,
    {
        proof {
            assert(devices@.map_values(|d: Device| d@)[i as int] == devices@[i as int]@);
        }
        let relays = match db.get_relays(devices[i].id) {
            Ok(relays) => relays,
            Err(e) => {
                return Err(e);
            },
        };
        clients.push(Client { device: devices[i].duplicate(), relays });
        i += 1;
    }
    Ok(clients)
}

/// The device named by `uuid_as_str`, if it is registered, and the relays
/// associated with that identifier.
pub fn describe_client(db: &Db, uuid_as_str: &str) -> (r: Result<
    (Option<Device>, Vec<u8>),
    ICTError,
>)
    ensures
        match uuid_of_text(uuid_as_str@) {
            None => r == Err::<(Option<Device>, Vec<u8>), ICTError>(ICTError::InvalidIdentifier),
            Some(id) => r matches Ok((device, relays)) && relays@ == db@.relays_of(id) && (
            match device {
                Some(d) => db@.device(id) == Some(d@),
                None => db@.device(id) is None,
            }),
        },
{
    let id: u128 = match uuid_parse(uuid_as_str) {
        Ok(id) => id,
        Err(_) => {
            return Err(ICTError::InvalidIdentifier);
        },
    };
    let device = match db.get_device(id) {
        Ok(device) => device,
        Err(e) => {
            return Err(e);
        },
    };
    match db.get_relays(id) {
        Ok(relays) => Ok((device, relays)),
        Err(e) => Err(e),
    }
}

/// Associates the relay with the device, after the relays it already has;
/// a relay may be associated more than once. Fails with `InvalidIdentifier`,
/// or with `NotFound` for an unknown device.
pub fn associate_relay(db: &mut Db, uuid_as_str: &str, relay: &u8) -> (r: Result<(), ICTError>)
    ensures
        final(db)@.wf(),
        final(db).path == old(db).path,
        final(db).totp_sha == old(db).totp_sha,
        old(db)@.anchored() ==> final(db)@.anchored(),
        match uuid_of_text(uuid_as_str@) {
            None => r == Err::<(), ICTError>(ICTError::InvalidIdentifier) && final(db)@ == old(
                db,
            )@,
            Some(id) => if old(db)@.has_device(id) {
                r == Ok::<(), ICTError>(()) && final(db)@ == old(db)@.with_relay(id, *relay)
            } else {
                r == Err::<(), ICTError>(ICTError::NotFound) && final(db)@ == old(db)@
            },
        },
{
    match uuid_parse(uuid_as_str) {
        Err(_) => {
            db.tables.recall_wf();
            Err(ICTError::InvalidIdentifier)
        },
        Ok(id) => db.add_relay(id, *relay),
    }
}

/// Removes every relay association of the device. Succeeds also where it
/// has none.
pub fn clear_relays(db: &mut Db, uuid_as_str: &str) -> (r: Result<(), ICTError>)
    ensures
        final(db)@.wf(),
        final(db).path == old(db).path,
        final(db).totp_sha == old(db).totp_sha,
        old(db)@.anchored() ==> final(db)@.anchored(),
        match uuid_of_text(uuid_as_str@) {
            None => r == Err::<(), ICTError>(ICTError::InvalidIdentifier) && final(db)@ == old(
                db,
            )@,
            Some(id) => r == Ok::<(), ICTError>(()) && final(db)@ == old(db)@.without_relays(id),
        },
{
    match uuid_parse(uuid_as_str) {
        Err(_) => {
            db.tables.recall_wf();
            Err(ICTError::InvalidIdentifier)
        },
        Ok(id) => db.remove_relays(id),
    }
}


} // verus!
