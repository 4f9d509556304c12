//! What holds of the broker whatever the request and whatever the store.

use vstd::prelude::*;
use vstd::utf8::encode_utf8;
use crate::ict_codec::{base64_bytes, uuid_of_text};
use crate::ict_config::algorithm_named;
use crate::ict_crypto::{
    buildable,
    modulus_length,
    signature_verdict,
    totp_accepts,
    wrapped_under,
};
use crate::ict_db::{
    lemma_device_at,
    lemma_filter_keeps_all,
    lemma_relay_ids_push,
    not_owned_by,
    other_than,
    owned_by,
    DeviceRecord,
    Relay,
    Store,
};
use crate::ict_errors::ICTError;
use crate::ict_operations::{
    device_outcome,
    flag_set,
    message_of,
    one_block,
    operate_outcome,
    secret_text,
    step_of,
    TOTP_DIGITS,
    TOTP_SKEW,
};

verus! {

/// Setting the flag of a registered device to the value it has leaves the
/// store as it is.
pub proof fn law_same_flag_changes_nothing(store: Store, id: u128, value: bool)
    requires
        store.wf(),
        store.device(id) matches Some(d) && d.authorized == value,
    ensures
        store.with_authorization(id, value) == store,
{
    let after = store.with_authorization(id, value);
    assert forall|i: int| 0 <= i < store.devices.len() implies after.devices[i]
        == store.devices[i] by {
        if store.devices[i].id == id {
            lemma_device_at(store, i);
        }
    }
    assert(after.devices =~= store.devices);
}

/// Withdrawing the authorization of a device that is registered and not
/// authorized succeeds and leaves the store as it is.
pub proof fn law_unauthorize_idempotent(
    before: Store,
    after: Store,
    id_text: Seq<char>,
    r: Result<(), ICTError>,
)
    requires
        before.wf(),
        flag_set(before, after, id_text, false, r),
        uuid_of_text(id_text) matches Some(id) && (before.device(id) matches Some(d)
            && !d.authorized),
    ensures
        r == Ok::<(), ICTError>(()),
        after == before,
{
    law_same_flag_changes_nothing(before, uuid_of_text(id_text).unwrap(), false);
}

/// After the authorization flag of a registered device was set, the device
/// is found with that flag and is otherwise as before; no other device
/// changed.
pub proof fn law_flag_is_read_back(store: Store, id: u128, value: bool, other: u128)
    requires
        store.wf(),
        store.has_device(id),
    ensures
        store.with_authorization(id, value).wf(),
        store.with_authorization(id, value).device(id) == Some(
            DeviceRecord { authorized: value, ..store.device(id).unwrap() },
        ),
        other != id ==> store.with_authorization(id, value).device(other) == store.device(other),
        store.with_authorization(id, value).relays == store.relays,
{
    let after = store.with_authorization(id, value);
    assert(after.devices.len() == store.devices.len());
    assert forall|i: int| 0 <= i < after.devices.len() implies (#[trigger] after.devices[i]).id
        == store.devices[i].id by {}
    let i = choose|i: int| 0 <= i < store.devices.len() && (#[trigger] store.devices[i]).id == id;
    lemma_device_at(store, i);
    assert(after.devices[i].id == id);
    lemma_device_at(after, i);
    if other != id {
        if store.has_device(other) {
            let j = choose|j: int|
                0 <= j < store.devices.len() && (#[trigger] store.devices[j]).id == other;
            lemma_device_at(store, j);
            assert(after.devices[j].id == other);
            lemma_device_at(after, j);
        } else {
            if after.has_device(other) {
                let j = choose|j: int|
                    0 <= j < after.devices.len() && (#[trigger] after.devices[j]).id == other;
                assert(store.devices[j].id == other);
            }
        }
    }
}

/// A device registered under a fresh identifier is found as it was stored,
/// and the devices that were there are found as before.
pub proof fn law_registered_is_found(store: Store, device: DeviceRecord, other: u128)
    requires
        store.wf(),
        !store.has_device(device.id),
    ensures
        store.with_device(device).wf(),
        store.with_device(device).device(device.id) == Some(device),
        other != device.id ==> store.with_device(device).device(other) == store.device(other),
        store.with_device(device).relays_of(other) == store.relays_of(other),
{
    let after = store.with_device(device);
    let n = store.devices.len() as int;
    assert forall|i: int, j: int| 0 <= i < j < after.devices.len() implies (
    #[trigger] after.devices[i]).id != (#[trigger] after.devices[j]).id by {
        if j == n {
            assert(store.devices[i].id != device.id);
        } else {
            assert(store.devices[i].id != store.devices[j].id);
        }
    }
    assert(after.devices[n] == device);
    lemma_device_at(after, n);
    if other != device.id {
        if store.has_device(other) {
            let j = choose|j: int|
                0 <= j < store.devices.len() && (#[trigger] store.devices[j]).id == other;
            lemma_device_at(store, j);
            assert(after.devices[j] == store.devices[j]);
            lemma_device_at(after, j);
        } else {
            if after.has_device(other) {
                let j = choose|j: int|
                    0 <= j < after.devices.len() && (#[trigger] after.devices[j]).id == other;
                assert(store.devices[j].id == other);
            }
        }
    }
}

/// A relay associated with a device comes last among the relays of that
/// device, and the relays of every other device stay as they are.
pub proof fn law_relays_keep_their_order(store: Store, id: u128, relay: u8, other: u128)
    ensures
        store.with_relay(id, relay).relays_of(id) == store.relays_of(id).push(relay),
        other != id ==> store.with_relay(id, relay).relays_of(other) == store.relays_of(other),
{
    let added = Relay { device_id: id, relay_id: relay };
    lemma_relay_ids_push(store.relays, added, id);
    lemma_relay_ids_push(store.relays, added, other);
}

/// Once the relays of a device were cleared it has none, and the relays of
/// every other device stay as they are.
pub proof fn law_cleared_relays_are_gone(store: Store, id: u128, other: u128)
    ensures
        store.without_relays(id).relays_of(id) == Seq::<u8>::empty(),
        other != id ==> store.without_relays(id).relays_of(other) == store.relays_of(other),
    decreases store.relays.len(),
{
    reveal(Seq::filter);
    if store.relays.len() == 0 {
        assert(store.without_relays(id).relays_of(id) =~= Seq::<u8>::empty());
    } else {
        let front = Store { devices: store.devices, relays: store.relays.drop_last() };
        let last = store.relays.last();
        law_cleared_relays_are_gone(front, id, other);
        assert(front.relays.push(last) =~= store.relays);
        front.relays.lemma_filter_push(last, not_owned_by(id));
        let kept = front.relays.filter(not_owned_by(id));
        lemma_relay_ids_push(kept, last, id);
        lemma_relay_ids_push(kept, last, other);
        lemma_relay_ids_push(front.relays, last, other);
    }
}

/// Clearing the relays of a device that has none leaves the store as it is.
pub proof fn law_clear_relays_idempotent(store: Store, id: u128)
    requires
        store.relays_of(id).len() == 0,
    ensures
        store.without_relays(id) == store,
        store.without_relays(id).relays_of(id) == Seq::<u8>::empty(),
{
    let owned = store.relays.filter(owned_by(id));
    assert(owned.len() == 0) by {
        assert(store.relays_of(id).len() == owned.len());
    }
    assert forall|k: int| 0 <= k < store.relays.len() implies not_owned_by(id)(
        #[trigger] store.relays[k],
    ) by {
        if store.relays[k].device_id == id {
            store.relays.lemma_filter_contains_rev(owned_by(id), store.relays[k]);
            assert(store.relays.contains(store.relays[k]));
            assert(owned.contains(store.relays[k]));
        }
    }
    lemma_filter_keeps_all(store.relays, not_owned_by(id));
    law_cleared_relays_are_gone(store, id, id);
}

/// Once a device was removed it is not found, and removing it again
/// changes nothing more.
pub proof fn law_delete_idempotent(store: Store, id: u128)
    ensures
        !store.without_device(id).has_device(id),
        store.without_device(id).without_device(id) == store.without_device(id),
        store.without_device(id).without_relays(id).without_device(id).without_relays(id)
            == store.without_device(id).without_relays(id),
{
    let kept = store.devices.filter(other_than(id));
    assert forall|k: int| 0 <= k < kept.len() implies other_than(id)(#[trigger] kept[k]) by {
        store.devices.lemma_filter_pred(other_than(id), k);
    }
    lemma_filter_keeps_all(kept, other_than(id));
    let left = store.relays.filter(not_owned_by(id));
    assert forall|k: int| 0 <= k < left.len() implies not_owned_by(id)(#[trigger] left[k]) by {
        store.relays.lemma_filter_pred(not_owned_by(id), k);
    }
    lemma_filter_keeps_all(left, not_owned_by(id));
}

/// The authorization gate comes first: the request of a device that is
/// registered and not authorized is refused with `NotAuthorized`, whatever
/// its message, its signature and the time.
pub proof fn law_gate_ordering(
    store: Store,
    sha: Seq<char>,
    id_text: Seq<char>,
    message: Seq<char>,
    signature: Seq<char>,
    now: Option<u64>,
)
    requires
        uuid_of_text(id_text) matches Some(id) && (store.device(id) matches Some(d)
            && !d.authorized),
    ensures
        operate_outcome(store, sha, id_text, message, signature, now) == Err::<
            Seq<u8>,
            ICTError,
        >(ICTError::NotAuthorized),
{
}

/// A signature binds a request to the key of the device it names: where the
/// signature does not verify under the stored key of that device, the request
/// of an authorized device is refused with `SignatureInvalid`, whatever code
/// its message holds.
pub proof fn law_signature_binding(
    store: Store,
    sha: Seq<char>,
    id_text: Seq<char>,
    message: Seq<char>,
    signature: Seq<char>,
    now: Option<u64>,
)
    requires
        uuid_of_text(id_text) matches Some(id) && (store.device(id) matches Some(d)
            && d.authorized && (base64_bytes(signature) matches Some(bytes) && signature_verdict(
            d.public_key,
            encode_utf8(message),
            bytes,
        ) == Some(false))),
    ensures
        operate_outcome(store, sha, id_text, message, signature, now) == Err::<
            Seq<u8>,
            ICTError,
        >(ICTError::SignatureInvalid),
{
}

/// A request is granted only where every gate passed: the device is
/// registered and authorized, the signature verifies under its key, the
/// message holds a code, and the code is that of the time step which holds
/// the clock's reading. What is granted are the relays of that device.
pub proof fn law_granted_means_every_gate(
    store: Store,
    sha: Seq<char>,
    id_text: Seq<char>,
    message: Seq<char>,
    signature: Seq<char>,
    now: Option<u64>,
)
    requires
        operate_outcome(store, sha, id_text, message, signature, now) is Ok,
    ensures
        uuid_of_text(id_text) matches Some(id) && (store.device(id) matches Some(d)
            && d.authorized && (base64_bytes(signature) matches Some(bytes) && signature_verdict(
            d.public_key,
            encode_utf8(message),
            bytes,
        ) == Some(true)) && (message_of(message) matches Some((token, _)) && (now matches Some(
            time,
        ) && buildable(TOTP_DIGITS, d.secret) && totp_accepts(
            algorithm_named(sha),
            TOTP_DIGITS,
            TOTP_SKEW,
            d.secret,
            token,
            step_of(time),
        ))) && operate_outcome(store, sha, id_text, message, signature, now) == Ok::<
            Seq<u8>,
            ICTError,
        >(store.relays_of(id))),
{
}

/// A request that passes every gate is granted, at every reading of the
/// clock: the relays of its device, as the store holds them.
pub proof fn law_every_gate_means_granted(
    store: Store,
    sha: Seq<char>,
    id_text: Seq<char>,
    message: Seq<char>,
    signature: Seq<char>,
    time: u64,
)
    requires
        uuid_of_text(id_text) matches Some(id) && (store.device(id) matches Some(d)
            && d.authorized && (base64_bytes(signature) matches Some(bytes) && signature_verdict(
            d.public_key,
            encode_utf8(message),
            bytes,
        ) == Some(true)) && (message_of(message) matches Some((token, _)) && buildable(
            TOTP_DIGITS,
            d.secret,
        ) && totp_accepts(
            algorithm_named(sha),
            TOTP_DIGITS,
            TOTP_SKEW,
            d.secret,
            token,
            step_of(time),
        ))),
    ensures
        operate_outcome(store, sha, id_text, message, signature, Some(time)) == Ok::<
            Seq<u8>,
            ICTError,
        >(store.relays_of(uuid_of_text(id_text).unwrap())),
{
}

/// Within one time step a request comes to one outcome: what is granted
/// when the step begins is granted until it ends, and what is refused stays
/// refused.
pub proof fn law_one_step_one_outcome(
    store: Store,
    sha: Seq<char>,
    id_text: Seq<char>,
    message: Seq<char>,
    signature: Seq<char>,
    first: u64,
    second: u64,
)
    requires
        step_of(first) == step_of(second),
    ensures
        operate_outcome(store, sha, id_text, message, signature, Some(first))
            == operate_outcome(store, sha, id_text, message, signature, Some(second)),
{
}

/// A code that is not the code of the step which holds the clock's reading
/// opens nothing, whatever salt and signature come with it: the request is
/// refused, and a request that passes the gates before the code's is refused
/// with `TotpInvalid`.
pub proof fn law_stale_code_is_refused(
    store: Store,
    sha: Seq<char>,
    id: u128,
    message: Seq<char>,
    signature: Seq<char>,
    time: u64,
)
    requires
        store.device(id) matches Some(d) && (message_of(message) matches Some((token, _))
            && !totp_accepts(
            algorithm_named(sha),
            TOTP_DIGITS,
            TOTP_SKEW,
            d.secret,
            token,
            step_of(time),
        )),
    ensures
        device_outcome(store, sha, id, message, signature, Some(time)) is Err,
        store.device(id).unwrap().authorized && buildable(
            TOTP_DIGITS,
            store.device(id).unwrap().secret,
        ) && (base64_bytes(signature) matches Some(bytes) && signature_verdict(
            store.device(id).unwrap().public_key,
            encode_utf8(message),
            bytes,
        ) == Some(true)) ==> device_outcome(store, sha, id, message, signature, Some(time))
            == Err::<Seq<u8>, ICTError>(ICTError::TotpInvalid),
{
}

/// What leaves a registration is never the secret: the ciphertext is one
/// block of the length of the key's modulus, longer than the secret and
/// longer than its text.
pub proof fn law_answer_is_no_plain_secret(
    pem: Seq<char>,
    secret: Seq<u8>,
    seed: Seq<u8>,
    cipher: Seq<u8>,
)
    requires
        one_block(pem, secret, seed),
        wrapped_under(pem, secret_text(secret), seed) == Some(cipher),
    ensures
        modulus_length(pem) == Some(cipher.len()),
        cipher.len() > secret_text(secret).len() >= secret.len(),
        cipher != secret,
        cipher != secret_text(secret),
{
}

/// An unknown device and a malformed identifier are refused before anything
/// else is looked at.
pub proof fn law_unknown_device_is_refused(
    store: Store,
    sha: Seq<char>,
    id_text: Seq<char>,
    message: Seq<char>,
    signature: Seq<char>,
    now: Option<u64>,
)
    ensures
        uuid_of_text(id_text) is None ==> operate_outcome(
            store,
            sha,
            id_text,
            message,
            signature,
            now,
        ) == Err::<Seq<u8>, ICTError>(ICTError::InvalidIdentifier),
        uuid_of_text(id_text) matches Some(id) && !store.has_device(id) ==> operate_outcome(
            store,
            sha,
            id_text,
            message,
            signature,
            now,
        ) == Err::<Seq<u8>, ICTError>(ICTError::NotFound),
{
}

} // verus!
