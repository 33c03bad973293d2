use std::io::Cursor;

use paneflow::update::error::{UpdateError, UpdateFailure};
use paneflow::update::signature::{
    accepted_keys, check_signature_answer, check_signature_size, conclude, embedded_public_keys,
    has_embedded_key, judge, key_text, reject, reject_unread, signature_url, verify_detached, verify_with_keys,
    MAX_SIG_BYTES,
};
use paneflow::update::verified_download::{
    append_suffix, DownloadAction, DownloadFlow, DownloadReply,
};

fn public_line(pair: &minisign::KeyPair) -> String {
    let text = pair.pk.to_box().unwrap().into_string();
    text.lines().nth(1).unwrap().to_string()
}

fn gen_keypair() -> String {
    let pair = minisign::KeyPair::generate_unencrypted_keypair().unwrap();
    public_line(&pair)
}

/// Signs `data` with a fresh key and returns the key with the signature.
fn sign(data: &[u8]) -> (String, String) {
    let pair = minisign::KeyPair::generate_unencrypted_keypair().unwrap();
    let signed =
        minisign::sign(Some(&pair.pk), &pair.sk, Cursor::new(data), None, None).unwrap();
    (public_line(&pair), signed.into_string())
}

#[test]
fn verifies_a_correctly_signed_artifact() {
    let data = b"paneflow-0.3.9-x86_64.tar.gz payload";
    let (key, sig) = sign(data);
    assert!(verify_with_keys(data, &sig, &vec![key]).is_ok());
}

#[test]
fn rejects_a_tampered_artifact() {
    let data = b"the genuine release payload";
    let (key, sig) = sign(data);
    let err =
        verify_with_keys(b"a malicious replacement payload", &sig, &vec![key]).unwrap_err();
    assert!(
        matches!(err, UpdateError::IntegrityMismatch { .. }),
        "tampered artifact must produce an IntegrityMismatch, got: {err:?}"
    );
}

#[test]
fn rejects_signature_from_an_untrusted_key() {
    let data = b"payload signed by a key we do not trust";
    let (_key_a, sig) = sign(data);
    let key_b = gen_keypair();
    let err = verify_with_keys(data, &sig, &vec![key_b]).unwrap_err();
    assert!(matches!(err, UpdateError::IntegrityMismatch { .. }));
}

#[test]
fn fails_closed_when_no_key_is_embedded() {
    let data = b"payload";
    let (_key, sig) = sign(data);
    let err = verify_with_keys(data, &sig, &Vec::new()).unwrap_err();
    match err {
        UpdateError::IntegrityMismatch { got, .. } => {
            assert!(got.contains("no verification key"), "got: {got}")
        }
        other => panic!("got: {other:?}"),
    }
}

#[test]
fn rejects_a_malformed_signature() {
    let key = gen_keypair();
    let err = verify_with_keys(b"payload", "not a minisig at all", &vec![key]).unwrap_err();
    assert!(matches!(err, UpdateError::IntegrityMismatch { .. }));
}

#[test]
fn dual_key_accepts_either_slot() {
    let data = b"signed by the rotation key";
    let current = gen_keypair();
    let (next, sig) = sign(data);
    assert!(verify_with_keys(data, &sig, &vec![current.clone(), next.clone()]).is_ok());
    assert!(verify_detached(data, &sig, Some(&current), Some(&next)).is_ok());
    assert!(verify_detached(data, &sig, Some(&next), None).is_ok());
    assert!(verify_detached(data, &sig, Some(&current), None).is_err());
}

#[test]
fn empty_embedded_slots_yield_no_keys() {
    assert!(!has_embedded_key(None, None));
    assert!(embedded_public_keys(None, None).is_empty());
    assert!(!has_embedded_key(Some(""), Some("  ")));
    assert!(!has_embedded_key(Some("not a key"), None));
    let key = gen_keypair();
    assert!(has_embedded_key(None, Some(&key)));
    assert_eq!(embedded_public_keys(Some(&key), None).len(), 1);
}

#[test]
fn one_valid_verdict_is_enough() {
    assert!(judge(&vec![Some(false), Some(true)]).is_ok());
    assert!(judge(&vec![Some(false), None]).is_err());
    assert!(judge(&vec![]).is_err());
    assert!(matches!(reject("why"), UpdateError::IntegrityMismatch { .. }));
}

#[test]
fn a_verification_is_refused_before_its_verdicts_count() {
    let fine = vec![Some(true)];
    assert!(conclude(1, None, &fine).is_ok());
    assert!(conclude(0, None, &fine).is_err());
    match conclude(1, Some("bad base64".to_string()), &fine) {
        Err(UpdateError::IntegrityMismatch { got, .. }) => {
            assert_eq!(got, "signature is malformed: bad base64")
        }
        other => panic!("{other:?}"),
    }
    assert_eq!(key_text(Some(" RWQ \n")).as_deref(), Some("RWQ"));
    assert_eq!(key_text(Some("  ")), None);
    assert_eq!(
        accepted_keys(Some("a".to_string()), Some("b".to_string())),
        vec!["a", "b"]
    );
    assert_eq!(accepted_keys(None, Some("b".to_string())), vec!["b"]);
}

#[test]
fn signatures_are_asked_for_beside_the_asset() {
    assert_eq!(
        signature_url("https://github.com/a/x.dmg"),
        "https://github.com/a/x.dmg.minisig"
    );
    assert!(check_signature_answer(200, "200 OK").is_ok());
    assert!(check_signature_answer(404, "404 Not Found").is_err());
    assert!(check_signature_size("short").is_ok());
    let long = "x".repeat(MAX_SIG_BYTES as usize + 1);
    assert!(check_signature_size(&long).is_err());
}

#[test]
fn append_suffix_preserves_full_name() {
    assert_eq!(
        append_suffix("/tmp/foo.tar.gz", ".partial").unwrap(),
        "/tmp/foo.tar.gz.partial"
    );
}

#[test]
fn append_suffix_rejects_pathless_input() {
    assert!(append_suffix("/", ".partial").is_err());
}

struct Server {
    asset: &'static [u8],
    stored: Option<Vec<u8>>,
    signature: String,
    asset_code: u16,
    promoted: Option<Vec<u8>>,
    readable: bool,
}

impl Server {
    fn perform(&mut self, action: DownloadAction, max_bytes: u64) -> DownloadReply {
        match action {
            DownloadAction::FetchAsset => DownloadReply::Answered {
                code: self.asset_code,
                status: self.asset_code.to_string(),
            },
            DownloadAction::CreatePartial => {
                self.stored = Some(Vec::new());
                DownloadReply::Done
            }
            DownloadAction::StreamAsset => {
                let most = (max_bytes + 1).min(self.asset.len() as u64);
                self.stored = Some(self.asset[..most as usize].to_vec());
                DownloadReply::Written(most)
            }
            DownloadAction::FetchSignature => DownloadReply::Answered {
                code: 200,
                status: "200 OK".to_string(),
            },
            DownloadAction::ReadSignature => DownloadReply::Text(self.signature.clone()),
            DownloadAction::ReadPartial if !self.readable => DownloadReply::Failed(UpdateFailure {
                error: UpdateError::Other("denied".to_string()),
                context: Some("open x".to_string()),
            }),
            DownloadAction::ReadPartial => DownloadReply::Bytes(self.stored.clone().unwrap()),
            DownloadAction::Promote => {
                self.promoted = self.stored.take();
                DownloadReply::Done
            }
            DownloadAction::RemovePartial => {
                self.stored = None;
                DownloadReply::Done
            }
            DownloadAction::Finish => unreachable!(),
        }
    }

    fn download(&mut self, max_bytes: u64, keys: Vec<String>) -> Result<(), UpdateFailure> {
        let mut flow = DownloadFlow::start(
            "https://github.com/a/x.dmg",
            "/cache/x.dmg",
            max_bytes,
            keys,
        )
        .unwrap_or_else(|e| panic!("{e:?}"));
        assert_eq!(flow.partial(), "/cache/x.dmg.partial");
        while flow.action() != DownloadAction::Finish {
            let reply = self.perform(flow.action(), flow.max_bytes());
            flow.advance(reply);
        }
        flow.result().unwrap()
    }
}

fn server(asset: &'static [u8], signature: String) -> Server {
    Server {
        asset,
        stored: None,
        signature,
        asset_code: 200,
        promoted: None,
        readable: true,
    }
}

#[test]
fn a_signed_download_gets_its_name() {
    let (key, sig) = sign(b"payload");
    let mut server = server(b"payload", sig);
    assert_eq!(server.download(100, vec![key]), Ok(()));
    assert_eq!(server.promoted.as_deref(), Some(&b"payload"[..]));
    assert_eq!(server.stored, None);
}

#[test]
fn a_forged_download_leaves_nothing() {
    let (key, sig) = sign(b"payload");
    let mut server = server(b"forgery", sig);
    let err = server.download(100, vec![key]).unwrap_err();
    assert!(matches!(err.error, UpdateError::IntegrityMismatch { .. }));
    assert_eq!(server.promoted, None);
    assert_eq!(server.stored, None);
}

#[test]
fn an_oversized_download_leaves_nothing() {
    let (key, sig) = sign(b"payload");
    let mut server = server(b"payload", sig);
    assert!(server.download(6, vec![key.clone()]).is_err());
    assert_eq!(server.promoted, None);
    assert_eq!(server.stored, None);
    assert_eq!(server.download(7, vec![key]), Ok(()));
}

#[test]
fn a_refused_download_says_its_status() {
    let mut server = server(b"payload", String::new());
    server.asset_code = 503;
    let err = server.download(100, vec![gen_keypair()]).unwrap_err();
    assert_eq!(
        err.error,
        UpdateError::Other("Update download returned HTTP 503. Try again later.".to_string())
    );
}

#[test]
fn an_unreadable_download_is_an_integrity_mismatch() {
    let (key, sig) = sign(b"payload");
    let mut server = server(b"payload", sig);
    server.readable = false;
    let err = server.download(100, vec![key]).unwrap_err();
    assert_eq!(err.error, reject("open x: denied"));
    assert_eq!(
        err.context.as_deref(),
        Some("verify minisign signature of /cache/x.dmg.partial")
    );
    assert_eq!(server.promoted, None);
    assert_eq!(server.stored, None);
}

#[test]
fn an_unread_artifact_is_rejected_for_its_signature_first() {
    let (key, sig) = sign(b"payload");
    let keys = vec![key];
    assert_eq!(reject_unread(&sig, &keys, "gone"), reject("gone"));
    assert_eq!(
        reject_unread(&sig, &vec![gen_keypair()], "gone"),
        reject("signature was not made by any key trusted by this build")
    );
    assert_eq!(
        reject_unread(&sig, &Vec::new(), "gone"),
        reject("no verification key embedded in this build - refusing to install an unverifiable update")
    );
    let malformed = reject_unread("no signature", &keys, "gone").words();
    assert!(malformed.contains("signature is malformed: "), "{malformed}");
}

#[test]
fn partial_files_lie_beside_their_destination() {
    assert_eq!(append_suffix("a/./b.dmg", ".partial").unwrap(), "a/b.dmg.partial");
    assert_eq!(append_suffix("/b.dmg", ".partial").unwrap(), "/b.dmg.partial");
    assert_eq!(append_suffix("b.dmg", ".partial").unwrap(), "b.dmg.partial");
}

#[test]
fn a_second_key_in_front_accepts_no_less() {
    let (key, sig) = sign(b"payload");
    let keys = vec![gen_keypair(), key, gen_keypair()];
    assert!(verify_with_keys(b"payload", &sig, &keys).is_ok());
}
