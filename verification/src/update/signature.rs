//! Detached minisign signatures: the root of trust of the self-update.
//!
//! The running binary carries up to two public keys, the current one and the
//! next. Bytes are accepted only with a signature over exactly these bytes by
//! one of them. Whatever else happens, a missing key or signature included,
//! they are rejected.

use vstd::prelude::*;

use crate::text;
use crate::text::chars;
use crate::text::classes;
use crate::text::split;
use crate::update::error;
use crate::update::error::UpdateError;

verus! {

/// The largest signature file that is read.
pub const MAX_SIG_BYTES: u64 = 65536;

/// Seconds for the fetch of a signature.
pub const SIG_HTTP_TIMEOUT: u64 = 30;

/// Whether `minisign_verify::PublicKey::from_base64` accepts the text.
pub uninterp spec fn is_public_key(key: Seq<char>) -> bool;

/// Why `minisign_verify::Signature::decode` refuses a text, in its words;
/// `None` when it does not.
pub uninterp spec fn signature_fault(signature: Seq<char>) -> Option<Seq<char>>;

/// What a key says of bytes and a signature, through
/// `minisign_verify::PublicKey::verify_stream`: `None` when the key or the
/// signature cannot be read, when the signature names another key or is of the
/// legacy kind; else whether it holds for the bytes.
pub uninterp spec fn verdict(key: Seq<char>, signature: Seq<char>, bytes: Seq<u8>) -> Option<bool>;

/// `minisign_verify::PublicKey::from_base64`: whether it accepts the text.
#[verifier::external_body]
pub(crate) fn parses_as_key(key: &str) -> (r: bool)
    ensures
        r == is_public_key(key@),
{
    minisign_verify::PublicKey::from_base64(key).is_ok()
}

/// `minisign_verify::Signature::decode`: the words of its error, or `None`
/// when it accepts the text.
#[verifier::external_body]
pub(crate) fn decode_fault(signature: &str) -> (r: Option<String>)
    ensures
        match r {
            Some(words) => signature_fault(signature@) == Some(words@),
            None => signature_fault(signature@) is None,
        },
{
    match minisign_verify::Signature::decode(signature) {
        Ok(_) => None,
        Err(e) => Some(e.to_string()),
    }
}

/// `minisign_verify::PublicKey::verify_stream`, fed with all the bytes and
/// finalized, for a key and a signature that are given as texts. It comes to a
/// verdict only where `from_base64` accepts the key and `decode` the signature.
#[verifier::external_body]
pub(crate) fn check(key: &str, signature: &str, bytes: &[u8]) -> (r: Option<bool>)
    ensures
        r == verdict(key@, signature@, bytes@),
        r is Some ==> is_public_key(key@) && signature_fault(signature@) is None,
{
    let key = minisign_verify::PublicKey::from_base64(key).ok()?;
    let signature = minisign_verify::Signature::decode(signature).ok()?;
    let mut verifier = key.verify_stream(&signature).ok()?;
    verifier.update(bytes);
    Some(verifier.finalize().is_ok())
}

/// The rejection of an update, with its reason.
pub open spec fn rejection(reason: Seq<char>) -> error::Fault {
    error::Fault::IntegrityMismatch { expected: "valid minisign signature"@, got: reason }
}

/// The rejection of an update, with its reason.
pub fn reject(reason: &str) -> (r: UpdateError)
    ensures
        r@ == rejection(reason@),
{
    UpdateError::IntegrityMismatch {
        expected: "valid minisign signature".to_string(),
        got: reason.to_string(),
    }
}

/// What one of the slots of the binary holds, without the white space around
/// it; an empty slot holds nothing.
pub open spec fn slot_text(slot: Option<&str>) -> Option<Seq<char>> {
    if slot matches Some(t) && classes::trimmed(t@).len() > 0 {
        Some(classes::trimmed(slot->Some_0@))
    } else {
        None
    }
}

/// The key in one of the slots of the binary, if a usable one is there.
pub open spec fn slot_key(slot: Option<&str>) -> Option<Seq<char>> {
    match slot_text(slot) {
        Some(k) => if is_public_key(k) {
            Some(k)
        } else {
            None
        },
        None => None,
    }
}

/// The keys that are there, in order.
pub open spec fn present(first: Option<Seq<char>>, second: Option<Seq<char>>) -> Seq<Seq<char>> {
    let keys = match first {
        Some(k) => seq![k],
        None => seq![],
    };
    match second {
        Some(k) => keys.push(k),
        None => keys,
    }
}

/// The usable keys of the two slots, the current one first. A slot that holds
/// no key does not keep the other from being used.
pub open spec fn slot_keys(current: Option<&str>, next: Option<&str>) -> Seq<Seq<char>> {
    present(slot_key(current), slot_key(next))
}

/// What one of the slots of the binary holds, without the white space around
/// it.
pub fn key_text(slot: Option<&str>) -> (r: Option<String>)
    ensures
        text_of(r) == slot_text(slot),
{
    match slot {
        Some(t) => {
            let k = classes::trim(t);
            if k.as_str().is_empty() {
                None
            } else {
                Some(k)
            }
        },
        None => None,
    }
}

/// An optional text as a mathematical value.
pub open spec fn text_of(s: Option<String>) -> Option<Seq<char>> {
    match s {
        Some(t) => Some(t@),
        None => None,
    }
}

/// The keys of two slots that were accepted, in order.
pub fn accepted_keys(current: Option<String>, next: Option<String>) -> (r: Vec<String>)
    ensures
        split::texts(r@) == present(text_of(current), text_of(next)),
{
    let mut keys: Vec<String> = Vec::new();
    let ghost first = text_of(current);
    match current {
        Some(k) => {
            keys.push(k);
        },
        None => {},
    }
    let ghost so_far = keys@;
    assert(split::texts(so_far) =~= match first {
        Some(k) => seq![k],
        None => seq![],
    });
    match next {
        Some(k) => {
            let ghost text = k@;
            keys.push(k);
            assert(split::texts(keys@) =~= split::texts(so_far).push(text));
        },
        None => {},
    }
    keys
}

fn usable_key(slot: Option<&str>) -> (r: Option<String>)
    ensures
        text_of(r) == slot_key(slot),
{
    match key_text(slot) {
        Some(k) => {
            if parses_as_key(k.as_str()) {
                Some(k)
            } else {
                None
            }
        },
        None => None,
    }
}

/// The usable keys of the two slots of the binary.
pub fn embedded_public_keys(current: Option<&str>, next: Option<&str>) -> (r: Vec<String>)
    ensures
        split::texts(r@) == slot_keys(current, next),
{
    accepted_keys(usable_key(current), usable_key(next))
}

/// Whether the binary carries a usable key.
pub fn has_embedded_key(current: Option<&str>, next: Option<&str>) -> (r: bool)
    ensures
        r == (slot_keys(current, next).len() > 0),
{
    let keys = embedded_public_keys(current, next);
    assert(split::texts(keys@).len() == keys@.len());
    keys.len() > 0
}

/// The result of all the verdicts: one that holds accepts, a verdict that does
/// not means other bytes, and no verdict means an unknown signer.
pub open spec fn judged(verdicts: Seq<Option<bool>>) -> Option<error::Fault> {
    if verdicts.contains(Some(true)) {
        None
    } else if verdicts.contains(Some(false)) {
        Some(rejection("artifact does not match its signature - corrupt or tampered"@))
    } else {
        Some(rejection("signature was not made by any key trusted by this build"@))
    }
}

/// The result of all the verdicts on one artifact.
pub fn judge(verdicts: &Vec<Option<bool>>) -> (r: Result<(), UpdateError>)
    ensures
        match r {
            Ok(_) => judged(verdicts@) is None,
            Err(e) => judged(verdicts@) == Some(e@),
        },
{
    let mut key_id_matched = false;
    let mut i: usize = 0;
    while i < verdicts.len()
        invariant
            i <= verdicts@.len(),
            key_id_matched == exists|j: int| 0 <= j < i && verdicts@[j] == Some(false),
            forall|j: int| 0 <= j < i ==> verdicts@[j] != Some(true),
        decreases verdicts@.len() - i,
    {
        match verdicts[i] {
            Some(holds) => {
                if holds {
                    assert(verdicts@[i as int] == Some(true));
                    return Ok(());
                }
                assert(verdicts@[i as int] == Some(false));
                key_id_matched = true;
            },
            None => {},
        }
        i = i + 1;
    }
    proof {
        assert(!verdicts@.contains(Some(true)));
        if key_id_matched {
            let j = choose|j: int| 0 <= j < i && verdicts@[j] == Some(false);
            assert(verdicts@[j] == Some(false));
        }
    }
    if key_id_matched {
        Err(reject("artifact does not match its signature - corrupt or tampered"))
    } else {
        Err(reject("signature was not made by any key trusted by this build"))
    }
}

/// The verdicts of all the keys on one artifact.
pub open spec fn verdicts_of(keys: Seq<Seq<char>>, signature: Seq<char>, bytes: Seq<u8>) -> Seq<
    Option<bool>,
> {
    keys.map_values(|k: Seq<char>| verdict(k, signature, bytes))
}

/// What a verification with `keys` keys comes to, given why the signature
/// cannot be read, if so, and the verdicts of the keys.
pub open spec fn concluded(
    keys: nat,
    fault: Option<Seq<char>>,
    verdicts: Seq<Option<bool>>,
) -> Option<error::Fault> {
    if keys == 0 {
        Some(
            rejection(
                "no verification key embedded in this build - refusing to install an unverifiable update"@,
            ),
        )
    } else {
        match fault {
            Some(words) => Some(rejection("signature is malformed: "@ + words)),
            None => judged(verdicts),
        }
    }
}

/// Why bytes with a signature are rejected by a set of keys; `None` when they
/// are accepted.
pub open spec fn verification(keys: Seq<Seq<char>>, signature: Seq<char>, bytes: Seq<u8>) -> Option<
    error::Fault,
> {
    concluded(keys.len(), signature_fault(signature), verdicts_of(keys, signature, bytes))
}

/// What a verification with `keys` keys comes to, given why the signature
/// cannot be read, if so, and the verdicts of the keys.
pub fn conclude(keys: usize, fault: Option<String>, verdicts: &Vec<Option<bool>>) -> (r: Result<
    (),
    UpdateError,
>)
    ensures
        ({
            let words = text_of(fault);
            match r {
                Ok(_) => concluded(keys as nat, words, verdicts@) is None,
                Err(e) => concluded(keys as nat, words, verdicts@) == Some(e@),
            }
        }),
{
    if keys == 0 {
        return Err(
            reject(
                "no verification key embedded in this build - refusing to install an unverifiable update",
            ),
        );
    }
    match fault {
        Some(words) => {
            let reason = chars::concat("signature is malformed: ", words.as_str());
            Err(reject(reason.as_str()))
        },
        None => judge(verdicts),
    }
}

/// Verifies bytes against a detached signature with a set of keys: `Ok` if and
/// only if one of the keys made the signature over exactly these bytes. They are
/// taken whole, not in chunks.
pub fn verify_with_keys(artifact: &[u8], sig_text: &str, keys: &Vec<String>) -> (r: Result<
    (),
    UpdateError,
>)
    ensures
        match r {
            Ok(_) => verification(split::texts(keys@), sig_text@, artifact@) is None,
            Err(e) => verification(split::texts(keys@), sig_text@, artifact@) == Some(e@),
        },
{
    let ghost all = split::texts(keys@);
    assert(all.len() == keys@.len());
    let fault = decode_fault(sig_text);
    let mut verdicts: Vec<Option<bool>> = Vec::new();
    let mut i: usize = 0;
    while i < keys.len() && fault.is_none()
        invariant
            all == split::texts(keys@),
            i <= keys@.len(),
            verdicts@.len() == i,
            forall|j: int|
                0 <= j < i ==> #[trigger] verdicts@[j] == verdict(all[j], sig_text@, artifact@),
        decreases keys@.len() - i,
    {
        assert(all[i as int] == keys@[i as int]@);
        verdicts.push(check(keys[i].as_str(), sig_text, artifact));
        i = i + 1;
    }
    assert(fault is None ==> verdicts@ =~= verdicts_of(all, sig_text@, artifact@));
    conclude(keys.len(), fault, &verdicts)
}

/// Why an artifact is rejected that could not be read: for its signature, where
/// that is no signature of one of the keys, or else for `reason`. Whether a key
/// takes up a signature has nothing to do with the bytes, so the keys are asked
/// about no bytes.
pub open spec fn unread(
    keys: Seq<Seq<char>>,
    signature: Seq<char>,
    reason: Seq<char>,
) -> error::Fault {
    let none = Seq::<u8>::empty();
    if keys.len() > 0 && signature_fault(signature) is None && exists|i: int|
        0 <= i < keys.len() && verdict(#[trigger] keys[i], signature, none) is Some {
        rejection(reason)
    } else {
        concluded(keys.len(), signature_fault(signature), seq![])->Some_0
    }
}

/// Rejects an artifact that could not be read.
pub fn reject_unread(sig_text: &str, keys: &Vec<String>, reason: &str) -> (r: UpdateError)
    ensures
        r@ == unread(split::texts(keys@), sig_text@, reason@),
{
    let ghost all = split::texts(keys@);
    assert(all.len() == keys@.len());
    let nothing: Vec<u8> = Vec::new();
    assert(nothing@ =~= Seq::<u8>::empty());
    let fault = decode_fault(sig_text);
    let mut i: usize = 0;
    while i < keys.len() && fault.is_none()
        invariant
            all == split::texts(keys@),
            i <= keys@.len(),
            nothing@ == Seq::<u8>::empty(),
            match fault {
                Some(words) => signature_fault(sig_text@) == Some(words@),
                None => signature_fault(sig_text@) is None,
            },
            forall|j: int| 0 <= j < i ==> verdict(#[trigger] all[j], sig_text@, nothing@) is None,
        decreases keys@.len() - i,
    {
        assert(all[i as int] == keys@[i as int]@);
        if check(keys[i].as_str(), sig_text, nothing.as_slice()).is_some() {
            return reject(reason);
        }
        i = i + 1;
    }
    let verdicts: Vec<Option<bool>> = Vec::new();
    assert(verdicts@ =~= seq![]);
    match conclude(keys.len(), fault, &verdicts) {
        Err(e) => e,
        Ok(_) => {
            assert(false);
            reject(reason)
        },
    }
}

/// Verifies bytes against a detached signature with the keys of the binary.
pub fn verify_detached(
    artifact: &[u8],
    sig_text: &str,
    current: Option<&str>,
    next: Option<&str>,
) -> (r: Result<(), UpdateError>)
    ensures
        match r {
            Ok(_) => verification(slot_keys(current, next), sig_text@, artifact@) is None,
            Err(e) => verification(slot_keys(current, next), sig_text@, artifact@) == Some(e@),
        },
{
    let keys = embedded_public_keys(current, next);
    verify_with_keys(artifact, sig_text, &keys)
}

/// Bytes are accepted only on the word of one of the keys, and a binary
/// without keys accepts none.
pub proof fn acceptance_needs_a_key(keys: Seq<Seq<char>>, signature: Seq<char>, bytes: Seq<u8>)
    ensures
        verification(keys, signature, bytes) is None ==> exists|i: int|
            0 <= i < keys.len() && verdict(#[trigger] keys[i], signature, bytes) == Some(true),
        keys.len() == 0 ==> verification(keys, signature, bytes) is Some,
{
    let verdicts = verdicts_of(keys, signature, bytes);
    if verification(keys, signature, bytes) is None {
        let i = choose|i: int| 0 <= i < verdicts.len() && verdicts[i] == Some(true);
        assert(verdict(keys[i], signature, bytes) == Some(true));
    }
}

/// Every rejection is an integrity mismatch, also that of an artifact that could
/// not be read.
pub proof fn rejections_are_integrity_mismatches(
    keys: Seq<Seq<char>>,
    signature: Seq<char>,
    bytes: Seq<u8>,
)
    ensures
        verification(keys, signature, bytes) matches Some(e) ==> e is IntegrityMismatch,
        forall|reason: Seq<char>| #[trigger]
            unread(keys, signature, reason) is IntegrityMismatch,
{
}

/// What one set of keys accepts, every set that holds these keys accepts too, in
/// whatever order they stand: a key can be added before signing moves to it.
pub proof fn added_keys_accept_no_less(
    keys: Seq<Seq<char>>,
    more: Seq<Seq<char>>,
    signature: Seq<char>,
    bytes: Seq<u8>,
)
    requires
        forall|i: int| 0 <= i < keys.len() ==> more.contains(#[trigger] keys[i]),
    ensures
        verification(keys, signature, bytes) is None ==> verification(
            more,
            signature,
            bytes,
        ) is None,
{
    if verification(keys, signature, bytes) is None {
        acceptance_needs_a_key(keys, signature, bytes);
        let i = choose|i: int|
            0 <= i < keys.len() && verdict(#[trigger] keys[i], signature, bytes) == Some(true);
        assert(more.contains(keys[i]));
        let j = choose|j: int| 0 <= j < more.len() && more[j] == keys[i];
        let verdicts = verdicts_of(more, signature, bytes);
        assert(verdicts[j] == Some(true));
    }
}

/// Where the signature of an asset is published.
pub fn signature_url(asset_url: &str) -> (r: String)
    ensures
        r@ == asset_url@ + ".minisig"@,
{
    chars::concat(asset_url, ".minisig")
}

/// Why the answer to the fetch of a signature is refused; `status` is the
/// code with its reason phrase.
pub open spec fn signature_answer(code: u16, status: Seq<char>) -> Option<error::Fault> {
    if 200 <= code < 300 {
        None
    } else if code == 404 {
        Some(
            rejection(
                "this release is not signed (no .minisig published) - download the latest version from the releases page"@,
            ),
        )
    } else {
        Some(rejection("could not fetch update signature (HTTP "@ + status + ")"@))
    }
}

/// What the answer to the fetch of a signature means.
pub fn check_signature_answer(code: u16, status: &str) -> (r: Result<(), UpdateError>)
    ensures
        match r {
            Ok(_) => signature_answer(code, status@) is None,
            Err(e) => signature_answer(code, status@) == Some(e@),
        },
{
    if 200 <= code && code < 300 {
        return Ok(());
    }
    if code == 404 {
        return Err(
            reject(
                "this release is not signed (no .minisig published) - download the latest version from the releases page",
            ),
        );
    }
    let reason = chars::concat3("could not fetch update signature (HTTP ", status, ")");
    Err(reject(reason.as_str()))
}

/// Why the text of a signature is refused before it is looked at.
pub open spec fn oversized(signature: Seq<char>) -> Option<error::Fault> {
    if text::width(signature) > MAX_SIG_BYTES {
        Some(rejection("update signature is implausibly large - aborting"@))
    } else {
        None
    }
}

/// Refuses a signature that is too long to be one.
pub fn check_signature_size(signature: &str) -> (r: Result<(), UpdateError>)
    ensures
        match r {
            Ok(_) => oversized(signature@) is None,
            Err(e) => oversized(signature@) == Some(e@),
        },
{
    let n: usize = text::byte_len(signature);
    if n as u64 > MAX_SIG_BYTES {
        return Err(reject("update signature is implausibly large - aborting"));
    }
    Ok(())
}

/// Bytes are accepted if one key says so, whichever it is and whatever the others say. If
/// none does they are rejected: as not matching where a key made the signature, and else
/// as signed by nobody known.
pub proof fn one_key_is_enough(before: Seq<Option<bool>>, after: Seq<Option<bool>>, v: Option<bool>)
    ensures
        judged(before + seq![Some(true)] + after) is None,
        judged(seq![]) == Some(
            rejection("signature was not made by any key trusted by this build"@),
        ),
        judged(before) is None ==> judged(before.push(v)) is None,
        judged(before) is Some && v == Some(false) ==> judged(before.push(v)) == Some(
            rejection("artifact does not match its signature - corrupt or tampered"@),
        ),
        judged(before) is Some && v is None ==> judged(before.push(v)) == judged(before),
        judged(before) is Some && v == Some(true) ==> judged(before.push(v)) is None,
{
    let all = before + seq![Some(true)] + after;
    assert(all[before.len() as int] == Some(true));
    let more = before.push(v);
    assert(more[before.len() as int] == v);
    assert forall|w: Option<bool>| more.contains(w) implies before.contains(w) || w == v by {
        let i = choose|i: int| 0 <= i < more.len() && more[i] == w;
        if i < before.len() {
            assert(before[i] == w);
        }
    }
    assert forall|w: Option<bool>| before.contains(w) implies more.contains(w) by {
        let i = choose|i: int| 0 <= i < before.len() && before[i] == w;
        assert(more[i] == w);
    }
}

/// Without a key nothing is accepted, and no signature is looked at; a signature that
/// cannot be read is rejected, whatever the keys are.
pub proof fn keys_and_signatures_are_needed(
    keys: nat,
    fault: Option<Seq<char>>,
    verdicts: Seq<Option<bool>>,
)
    ensures
        concluded(0, fault, verdicts) == Some(
            rejection(
                "no verification key embedded in this build - refusing to install an unverifiable update"@,
            ),
        ),
        keys > 0 && fault is Some ==> concluded(keys, fault, verdicts) == Some(
            rejection("signature is malformed: "@ + fault->Some_0),
        ),
        keys > 0 && fault is None ==> concluded(keys, fault, verdicts) == judged(verdicts),
{
}

/// A rejection says what was expected, a valid signature, and what came instead.
pub proof fn rejections_give_the_reason(reason: Seq<char>)
    ensures
        rejection(reason) == (error::Fault::IntegrityMismatch {
            expected: "valid minisign signature"@,
            got: reason,
        }),
        rejection(reason).words() == "expected "@ + "valid minisign signature"@ + ", got "@
            + reason,
{
}

/// The bytes are accepted under these keys exactly if one of them says that the signature
/// is over them, where there is a signature.
pub proof fn accepted_bytes_are_signed(keys: Seq<Seq<char>>, signature: Seq<char>, bytes: Seq<u8>)
    ensures
        verification(keys, signature, bytes) is None <==> signature_fault(signature) is None
            && exists|i: int|
            0 <= i < keys.len() && verdict(#[trigger] keys[i], signature, bytes) == Some(true),
{
    let verdicts = verdicts_of(keys, signature, bytes);
    if verdicts.contains(Some(true)) {
        let i = choose|i: int| 0 <= i < verdicts.len() && verdicts[i] == Some(true);
        assert(verdict(keys[i], signature, bytes) == Some(true));
    }
    if exists|i: int|
        0 <= i < keys.len() && verdict(#[trigger] keys[i], signature, bytes) == Some(true) {
        let i = choose|i: int|
            0 <= i < keys.len() && verdict(#[trigger] keys[i], signature, bytes) == Some(true);
        assert(verdicts[i] == Some(true));
    }
}

/// Both keys count where they are there, the current one first; one that is blank, or no
/// key at all, does not.
pub proof fn both_keys_count(current: &str, next: &str)
    ensures
        slot_key(None) is None,
        slot_key(Some(current)) == Some(classes::trimmed(current@)) <==> classes::trimmed(
            current@,
        ).len() > 0 && is_public_key(classes::trimmed(current@)),
        slot_key(Some(current)) is Some ==> slot_key(Some(current)) == Some(
            classes::trimmed(current@),
        ),
        slot_keys(None, None).len() == 0,
        slot_key(Some(current)) is Some && slot_key(Some(next)) is Some ==> slot_keys(
            Some(current),
            Some(next),
        ) == seq![classes::trimmed(current@), classes::trimmed(next@)],
        slot_key(Some(current)) is Some && slot_key(Some(next)) is None ==> slot_keys(
            Some(current),
            Some(next),
        ) == seq![classes::trimmed(current@)],
        slot_key(Some(current)) is None && slot_key(Some(next)) is Some ==> slot_keys(
            Some(current),
            Some(next),
        ) == seq![classes::trimmed(next@)],
        slot_key(Some(current)) is None && slot_key(Some(next)) is None ==> slot_keys(
            Some(current),
            Some(next),
        ).len() == 0,
{
    let (a, b) = (classes::trimmed(current@), classes::trimmed(next@));
    assert(seq![a].push(b) =~= seq![a, b]);
    assert(Seq::<Seq<char>>::empty().push(b) =~= seq![b]);
}

/// A signature is there if the server says so with any of its good answers. That there is
/// none is told apart from every other answer.
pub proof fn answers_for_signatures_are_told_apart(code: u16, status: Seq<char>)
    ensures
        signature_answer(code, status) is None <==> 200 <= code <= 299,
        signature_answer(404, status) == Some(
            rejection(
                "this release is not signed (no .minisig published) - download the latest version from the releases page"@,
            ),
        ),
        (code < 200 || code > 299) && code != 404 ==> signature_answer(code, status) == Some(
            rejection("could not fetch update signature (HTTP "@ + status + ")"@),
        ),
{
}

/// A signature has at most 64 KiB.
pub proof fn signatures_are_small(signature: Seq<char>)
    ensures
        text::width(signature) <= 65536 ==> oversized(signature) is None,
        text::width(signature) > 65536 ==> oversized(signature) == Some(
            rejection("update signature is implausibly large - aborting"@),
        ),
        SIG_HTTP_TIMEOUT == 30,
{
}

/// Bytes that could not be read are rejected: for that reason if a key made the signature,
/// and otherwise as they would be rejected anyway.
pub proof fn unread_bytes_are_rejected(keys: Seq<Seq<char>>, signature: Seq<char>, reason: Seq<char>)
    ensures
        ({
            let none = Seq::<u8>::empty();
            let made = exists|i: int|
                0 <= i < keys.len() && verdict(#[trigger] keys[i], signature, none) is Some;
            &&& unread(keys, signature, reason) is IntegrityMismatch
            &&& keys.len() == 0 ==> unread(keys, signature, reason) == rejection(
                "no verification key embedded in this build - refusing to install an unverifiable update"@,
            )
            &&& keys.len() > 0 && signature_fault(signature) is Some ==> unread(
                keys,
                signature,
                reason,
            ) == rejection("signature is malformed: "@ + signature_fault(signature)->Some_0)
            &&& keys.len() > 0 && signature_fault(signature) is None && made ==> unread(
                keys,
                signature,
                reason,
            ) == rejection(reason)
            &&& keys.len() > 0 && signature_fault(signature) is None && !made ==> unread(
                keys,
                signature,
                reason,
            ) == rejection("signature was not made by any key trusted by this build"@)
        }),
{
}

} // verus!
