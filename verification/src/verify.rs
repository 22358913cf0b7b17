//! Full integrity verification of an evidence pack.
use vstd::prelude::*;
use crate::chain::{compute_event_hash, event_hash, head_of, linked, Receipt};
use crate::encoding::{bytes_equal, utf8};
use crate::error::{error_message, AletheiaError};
use crate::json::{Json, JsonNumber, JsonView, NumberView};
use crate::hexfmt::{
    hex_bytes, hex_decode, hex_decode_error, hex_decodes, hex_encode, hex_error_message, hex_lower,
    lemma_hex_roundtrip,
};
use crate::merkle::{compute_merkle_root, digests, merkle_root, zero_hash};
use crate::pack::{receipt_hashes, sealed_from, EvidencePack, PackSignature};
use crate::signing::{ed25519_public_key, ed25519_signature, ed25519_verdict, verify};

verus! {

/// Summary of every integrity check performed on an `EvidencePack`.
#[derive(Debug, Clone, PartialEq, Eq, Structural)]
pub struct VerificationResult {
    pub receipt_count: usize,
    pub chain_ok: bool,
    pub merkle_ok: bool,
    pub chain_head_ok: bool,
    pub signatures_valid: usize,
    pub signatures_total: usize,
}

/// Receipt `i` records a hash other than its event's hash.
pub open spec fn hash_mismatch(receipts: Seq<Receipt>, i: int) -> bool {
    receipts[i].hash@ != event_hash(receipts[i].event)
}

/// Receipt `i` does not link to the head before it (32 zero bytes for the
/// first receipt, the previous receipt's hash otherwise).
pub open spec fn link_broken(receipts: Seq<Receipt>, i: int) -> bool {
    receipts[i].prev_hash@ != head_of(receipts.take(i))
}

/// Every receipt records its event's hash.
pub open spec fn hashes_ok(receipts: Seq<Receipt>) -> bool {
    forall|i: int| 0 <= i < receipts.len() ==> !#[trigger] hash_mismatch(receipts, i)
}

/// Every receipt links to the head before it.
pub open spec fn links_ok(receipts: Seq<Receipt>) -> bool {
    forall|i: int| 0 <= i < receipts.len() ==> !#[trigger] link_broken(receipts, i)
}

/// The stored Merkle root is the root of the receipts' hashes.
pub open spec fn root_ok(pack: EvidencePack) -> bool {
    merkle_root(receipt_hashes(pack.receipts@)) == pack.merkle_root@
}

/// The stored chain head is the last receipt's hash (any head passes for a
/// pack without receipts).
pub open spec fn head_ok(pack: EvidencePack) -> bool {
    pack.receipts@.len() == 0 || pack.receipts@.last().hash@ == pack.chain_head@
}

/// Every structural check passes: event hashes, links, Merkle root, head.
pub open spec fn structure_ok(pack: EvidencePack) -> bool {
    &&& hashes_ok(pack.receipts@)
    &&& links_ok(pack.receipts@)
    &&& root_ok(pack)
    &&& head_ok(pack)
}

/// A hex-encoded signature is accepted: it decodes to 64 bytes and Ed25519
/// accepts them as a signature of `root` under `key`.
pub open spec fn signature_accepted(text: Seq<char>, key: Seq<u8>, root: Seq<u8>) -> bool {
    &&& hex_decodes(utf8(text))
    &&& hex_bytes(utf8(text)).len() == 64
    &&& ed25519_verdict(key, root, hex_bytes(utf8(text))) matches Ok(true)
}

/// The error reported for a hex-encoded signature that is not accepted.
pub open spec fn signature_rejection(text: Seq<char>, key: Seq<u8>, root: Seq<u8>, e: AletheiaError) -> bool {
    if !hex_decodes(utf8(text)) {
        e matches AletheiaError::SigningError(m) && m@ == hex_decode_error(utf8(text))
            && hex_error_message(text, m@)
    } else if hex_bytes(utf8(text)).len() != 64 {
        e matches AletheiaError::SigningError(m) && m@ == "signature not 64 bytes"@
    } else {
        match ed25519_verdict(key, root, hex_bytes(utf8(text))) {
            Ok(true) => false,
            _ => e matches AletheiaError::InvalidSignature { signer } && signer@ == hex_lower(key),
        }
    }
}

/// A hex-encoded signature that decodes to a 64-byte Ed25519 signature of
/// `root` made with a secret key from which `key` is derived.
pub open spec fn signature_by(text: Seq<char>, key: Seq<u8>, root: Seq<u8>) -> bool {
    &&& hex_decodes(utf8(text))
    &&& hex_bytes(utf8(text)).len() == 64
    &&& exists|secret: Seq<u8>|
        secret.len() == 32 && key == #[trigger] ed25519_public_key(secret) && hex_bytes(utf8(text))
            == ed25519_signature(secret, root)
}

/// Every signature of the list was made over `root` with the secret key of
/// `key`.
pub open spec fn signed_by(signatures: Seq<PackSignature>, key: Seq<u8>, root: Seq<u8>) -> bool {
    forall|i: int| 0 <= i < signatures.len() ==> signature_by(#[trigger] signatures[i].signature@, key, root)
}

/// Every signature of the list is accepted.
pub open spec fn all_accepted(signatures: Seq<PackSignature>, key: Seq<u8>, root: Seq<u8>) -> bool {
    forall|i: int|
        0 <= i < signatures.len() ==> signature_accepted(#[trigger] signatures[i].signature@, key, root)
}

/// The first signature of the list that is not accepted.
pub open spec fn first_rejected(signatures: Seq<PackSignature>, key: Seq<u8>, root: Seq<u8>) -> int {
    choose|j: int|
        0 <= j < signatures.len() && !signature_accepted(signatures[j].signature@, key, root)
            && forall|i: int|
            0 <= i < j ==> signature_accepted(#[trigger] signatures[i].signature@, key, root)
}

/// The result reported when every check passes.
pub open spec fn passed(pack: EvidencePack, signatures_valid: nat) -> VerificationResult {
    VerificationResult {
        receipt_count: pack.receipts@.len() as usize,
        chain_ok: true,
        merkle_ok: true,
        chain_head_ok: true,
        signatures_valid: signatures_valid as usize,
        signatures_total: pack.signatures@.len() as usize,
    }
}

fn same_hash(a: &[u8; 32], b: &[u8; 32]) -> (res: bool)
    ensures
        res == (a@ == b@),
{
    bytes_equal(a.as_slice(), b.as_slice())
}

fn signature_array(bytes: &Vec<u8>) -> (res: [u8; 64])
    requires
        bytes@.len() == 64,
    ensures
        res@ == bytes@,
{
    let mut out = [0u8; 64];
    for i in 0..64
        invariant
            bytes@.len() == 64,
            forall|k: int| 0 <= k < i ==> out@[k] == bytes@[k],
    {
        out[i] = bytes[i];
    }
    assert(out@ =~= bytes@);
    out
}

/// Step 1: the first receipt whose recorded hash is not its event's hash.
fn check_event_hashes(receipts: &Vec<Receipt>) -> (res: Result<(), AletheiaError>)
    ensures
        res is Ok <==> hashes_ok(receipts@),
        res matches Err(e) ==> (e matches AletheiaError::EventHashMismatch { index, expected, actual } && {
            let i = index as int;
            &&& 0 <= i < receipts@.len()
            &&& hash_mismatch(receipts@, i)
            &&& forall|j: int| 0 <= j < i ==> !#[trigger] hash_mismatch(receipts@, j)
            &&& expected@ == hex_lower(event_hash(receipts@[i].event))
            &&& actual@ == hex_lower(receipts@[i].hash@)
        }),
{
    let n = receipts.len();
    let mut i: usize = 0;
    while i < n
        invariant
            n == receipts@.len(),
            i <= n,
            forall|j: int| 0 <= j < i ==> !#[trigger] hash_mismatch(receipts@, j),
        decreases n - i,
    {
        let computed = match compute_event_hash(&receipts[i].event) {
            Ok(h) => h,
            Err(e) => {
                assert(false);
                return Err(e);
            },
        };
        if !same_hash(&computed, &receipts[i].hash) {
            assert(hash_mismatch(receipts@, i as int));
            return Err(
                AletheiaError::EventHashMismatch {
                    index: i as u64,
                    expected: hex_encode(computed.as_slice()),
                    actual: hex_encode(receipts[i].hash.as_slice()),
                },
            );
        }
        i = i + 1;
    }
    Ok(())
}

/// Step 2: the first receipt that does not link to the head before it.
fn check_links(receipts: &Vec<Receipt>) -> (res: Result<(), AletheiaError>)
    ensures
        res is Ok <==> links_ok(receipts@),
        res matches Err(e) ==> (e matches AletheiaError::BrokenChain { index, expected, actual } && {
            let i = index as int;
            &&& 0 <= i < receipts@.len()
            &&& link_broken(receipts@, i)
            &&& forall|j: int| 0 <= j < i ==> !#[trigger] link_broken(receipts@, j)
            &&& expected@ == hex_lower(head_of(receipts@.take(i)))
            &&& actual@ == hex_lower(receipts@[i].prev_hash@)
        }),
{
    let n = receipts.len();
    if n == 0 {
        return Ok(());
    }
    let zero = [0u8; 32];
    assert(zero@ =~= zero_hash());
    assert(receipts@.take(0) =~= Seq::<Receipt>::empty());
    if !same_hash(&receipts[0].prev_hash, &zero) {
        assert(link_broken(receipts@, 0));
        return Err(
            AletheiaError::BrokenChain {
                index: 0,
                expected: hex_encode(zero.as_slice()),
                actual: hex_encode(receipts[0].prev_hash.as_slice()),
            },
        );
    }
    let mut i: usize = 1;
    while i < n
        invariant
            n == receipts@.len(),
            1 <= i <= n,
            forall|j: int| 0 <= j < i ==> !#[trigger] link_broken(receipts@, j),
        decreases n - i,
    {
        assert(receipts@.take(i as int).last() == receipts@[i - 1]);
        if !same_hash(&receipts[i].prev_hash, &receipts[i - 1].hash) {
            assert(link_broken(receipts@, i as int));
            return Err(
                AletheiaError::BrokenChain {
                    index: i as u64,
                    expected: hex_encode(receipts[i - 1].hash.as_slice()),
                    actual: hex_encode(receipts[i].prev_hash.as_slice()),
                },
            );
        }
        i = i + 1;
    }
    Ok(())
}

/// Step 3: the Merkle root of the receipts' recorded hashes.
fn receipts_root(receipts: &Vec<Receipt>) -> (res: [u8; 32])
    ensures
        res@ == merkle_root(receipt_hashes(receipts@)),
{
    let n = receipts.len();
    let mut leaf_hashes: Vec<[u8; 32]> = Vec::new();
    let mut i: usize = 0;
    while i < n
        invariant
            n == receipts@.len(),
            i <= n,
            leaf_hashes@.len() == i,
            forall|k: int| 0 <= k < i ==> (#[trigger] leaf_hashes@[k])@ == receipts@[k].hash@,
        decreases n - i,
    {
        leaf_hashes.push(receipts[i].hash);
        i = i + 1;
    }
    assert(digests(leaf_hashes@) =~= receipt_hashes(receipts@));
    compute_merkle_root(leaf_hashes.as_slice())
}

/// One signature (hex text) verified over `root` under `key`.
fn check_signature_text(text: &str, key: &[u8; 32], root: &[u8; 32]) -> (res: Result<(), AletheiaError>)
    ensures
        res is Ok <==> signature_accepted(text@, key@, root@),
        res matches Err(e) ==> signature_rejection(text@, key@, root@, e),
        signature_by(text@, key@, root@) ==> res is Ok,
{
    let sig_bytes = match hex_decode(text) {
        Ok(b) => b,
        Err(e) => return Err(AletheiaError::SigningError(e)),
    };
    if sig_bytes.len() != 64 {
        return Err(AletheiaError::SigningError("signature not 64 bytes".to_owned()));
    }
    let sig = signature_array(&sig_bytes);
    verify(key, root, &sig)
}

/// Step 5: every signature verified in order; the count when all verify.
fn check_signatures(signatures: &Vec<PackSignature>, key: &[u8; 32], root: &[u8; 32]) -> (res: Result<usize, AletheiaError>)
    ensures
        all_accepted(signatures@, key@, root@) ==> res == Ok::<usize, AletheiaError>(signatures@.len() as usize),
        !all_accepted(signatures@, key@, root@) ==> (res matches Err(e) && signature_rejection(
            signatures@[first_rejected(signatures@, key@, root@)].signature@,
            key@,
            root@,
            e,
        )),
        signed_by(signatures@, key@, root@) ==> res == Ok::<usize, AletheiaError>(signatures@.len() as usize),
{
    let total = signatures.len();
    let mut k: usize = 0;
    while k < total
        invariant
            total == signatures@.len(),
            k <= total,
            forall|j: int| 0 <= j < k ==> signature_accepted(#[trigger] signatures@[j].signature@, key@, root@),
        decreases total - k,
    {
        match check_signature_text(signatures[k].signature.as_str(), key, root) {
            Ok(()) => {},
            Err(e) => {
                assert(!signed_by(signatures@, key@, root@)) by {
                    if signed_by(signatures@, key@, root@) {
                        assert(signature_by(signatures@[k as int].signature@, key@, root@));
                    }
                }
                let ghost j = first_rejected(signatures@, key@, root@);
                assert(!signature_accepted(signatures@[k as int].signature@, key@, root@));
                assert(j == k as int) by {
                    if j < k {
                        assert(signature_accepted(signatures@[j].signature@, key@, root@));
                    } else if j > k {
                        assert(signature_accepted(signatures@[k as int].signature@, key@, root@));
                    }
                }
                return Err(e);
            },
        }
        k = k + 1;
    }
    Ok(total)
}

/// Fully verify an `EvidencePack`.
///
/// Steps, in order, each reporting the first failure it finds:
/// 1. each receipt's hash is its event's hash (`EventHashMismatch`);
/// 2. each receipt links to the previous hash, the first to zeros
///    (`BrokenChain`);
/// 3. the stored Merkle root is the root of the receipt hashes
///    (`MerkleRootMismatch`);
/// 4. the stored chain head is the last receipt's hash (`ChainHeadMismatch`);
/// 5. with a verifying key, every signature verifies over the Merkle root
///    (`SigningError` or `InvalidSignature`).
pub fn verify_pack(pack: &EvidencePack, verifying_key: Option<&[u8; 32]>) -> (res: Result<
    VerificationResult,
    AletheiaError,
>)
    ensures
        (exists|i: int| 0 <= i < pack.receipts@.len() && #[trigger] hash_mismatch(pack.receipts@, i))
            ==> (res matches Err(AletheiaError::EventHashMismatch { index, expected, actual }) && {
            let i = index as int;
            &&& 0 <= i < pack.receipts@.len()
            &&& hash_mismatch(pack.receipts@, i)
            &&& forall|j: int| 0 <= j < i ==> !#[trigger] hash_mismatch(pack.receipts@, j)
            &&& expected@ == hex_lower(event_hash(pack.receipts@[i].event))
            &&& actual@ == hex_lower(pack.receipts@[i].hash@)
        }),
        hashes_ok(pack.receipts@) && (exists|i: int|
            0 <= i < pack.receipts@.len() && #[trigger] link_broken(pack.receipts@, i)) ==> (res matches Err(
            AletheiaError::BrokenChain { index, expected, actual },
        ) && {
            let i = index as int;
            &&& 0 <= i < pack.receipts@.len()
            &&& link_broken(pack.receipts@, i)
            &&& forall|j: int| 0 <= j < i ==> !#[trigger] link_broken(pack.receipts@, j)
            &&& expected@ == hex_lower(head_of(pack.receipts@.take(i)))
            &&& actual@ == hex_lower(pack.receipts@[i].prev_hash@)
        }),
        hashes_ok(pack.receipts@) && links_ok(pack.receipts@) && !root_ok(*pack) ==> (res matches Err(
            AletheiaError::MerkleRootMismatch { expected, actual },
        ) && expected@ == hex_lower(merkle_root(receipt_hashes(pack.receipts@))) && actual@
            == hex_lower(pack.merkle_root@)),
        hashes_ok(pack.receipts@) && links_ok(pack.receipts@) && root_ok(*pack) && !head_ok(*pack)
            ==> (res matches Err(AletheiaError::ChainHeadMismatch { expected, actual }) && expected@
            == hex_lower(pack.receipts@.last().hash@) && actual@ == hex_lower(pack.chain_head@)),
        structure_ok(*pack) && verifying_key is None ==> res == Ok::<
            VerificationResult,
            AletheiaError,
        >(passed(*pack, 0)),
        verifying_key matches Some(k) ==> structure_ok(*pack) ==> if all_accepted(
            pack.signatures@,
            k@,
            pack.merkle_root@,
        ) {
            res == Ok::<VerificationResult, AletheiaError>(passed(*pack, pack.signatures@.len()))
        } else {
            (res matches Err(e) && signature_rejection(
                pack.signatures@[first_rejected(pack.signatures@, k@, pack.merkle_root@)].signature@,
                k@,
                pack.merkle_root@,
                e,
            ))
        },
        verifying_key matches Some(k) ==> structure_ok(*pack) && signed_by(
            pack.signatures@,
            k@,
            pack.merkle_root@,
        ) ==> res == Ok::<VerificationResult, AletheiaError>(passed(*pack, pack.signatures@.len())),
{
    // 1. Event hash integrity.
    match check_event_hashes(&pack.receipts) {
        Ok(()) => {},
        Err(e) => return Err(e),
    }
    // 2. Hash-chain linkage.
    match check_links(&pack.receipts) {
        Ok(()) => {},
        Err(e) => return Err(e),
    }
    // 3. Merkle root.
    let computed_root = receipts_root(&pack.receipts);
    if !same_hash(&computed_root, &pack.merkle_root) {
        return Err(
            AletheiaError::MerkleRootMismatch {
                expected: hex_encode(computed_root.as_slice()),
                actual: hex_encode(pack.merkle_root.as_slice()),
            },
        );
    }
    // 4. Chain head.
    let n = pack.receipts.len();
    if n > 0 {
        if !same_hash(&pack.receipts[n - 1].hash, &pack.chain_head) {
            return Err(
                AletheiaError::ChainHeadMismatch {
                    expected: hex_encode(pack.receipts[n - 1].hash.as_slice()),
                    actual: hex_encode(pack.chain_head.as_slice()),
                },
            );
        }
    }
    // 5. Signatures.
    let signatures_total = pack.signatures.len();
    let signatures_valid = match verifying_key {
        Some(vk) => match check_signatures(&pack.signatures, vk, &pack.merkle_root) {
            Ok(count) => count,
            Err(e) => return Err(e),
        },
        None => 0,
    };
    Ok(
        VerificationResult {
            receipt_count: n,
            chain_ok: true,
            merkle_ok: true,
            chain_head_ok: true,
            signatures_valid,
            signatures_total,
        },
    )
}

/// A count as a JSON number.
pub open spec fn count_json(n: usize) -> JsonView {
    JsonView::Number(NumberView::PosInt(n as u64))
}

/// The report of a pack that passed verification.
pub open spec fn verified_view(r: VerificationResult) -> JsonView {
    JsonView::Object(
        seq![
            ("status"@, JsonView::Str("verified"@)),
            ("receipt_count"@, count_json(r.receipt_count)),
            ("chain_ok"@, JsonView::Bool(r.chain_ok)),
            ("merkle_ok"@, JsonView::Bool(r.merkle_ok)),
            ("chain_head_ok"@, JsonView::Bool(r.chain_head_ok)),
            ("signatures_valid"@, count_json(r.signatures_valid)),
            ("signatures_total"@, count_json(r.signatures_total)),
        ],
    )
}

/// The report of a pack that failed verification.
pub open spec fn failed_view(e: AletheiaError) -> JsonView {
    JsonView::Object(
        seq![("status"@, JsonView::Str("failed"@)), ("error"@, JsonView::Str(error_message(e)))],
    )
}

fn count_number(n: usize) -> (res: Json)
    ensures
        res@ == count_json(n),
{
    Json::Number(JsonNumber::PosInt(n as u64))
}

/// The report printed for a pack that passed verification: status
/// `"verified"` and every count and check of the result.
pub fn verified_report(r: &VerificationResult) -> (res: Json)
    ensures
        res@ == verified_view(*r),
{
    let mut m: Vec<(String, Json)> = Vec::new();
    m.push(("status".to_owned(), Json::Str("verified".to_owned())));
    m.push(("receipt_count".to_owned(), count_number(r.receipt_count)));
    m.push(("chain_ok".to_owned(), Json::Bool(r.chain_ok)));
    m.push(("merkle_ok".to_owned(), Json::Bool(r.merkle_ok)));
    m.push(("chain_head_ok".to_owned(), Json::Bool(r.chain_head_ok)));
    m.push(("signatures_valid".to_owned(), count_number(r.signatures_valid)));
    m.push(("signatures_total".to_owned(), count_number(r.signatures_total)));
    assert(m@[0].0@ == "status"@ && m@[0].1@ == JsonView::Str("verified"@));
    assert(m@[1].0@ == "receipt_count"@ && m@[1].1@ == count_json(r.receipt_count));
    assert(m@[2].0@ == "chain_ok"@ && m@[2].1@ == JsonView::Bool(r.chain_ok));
    assert(m@[3].0@ == "merkle_ok"@ && m@[3].1@ == JsonView::Bool(r.merkle_ok));
    assert(m@[4].0@ == "chain_head_ok"@ && m@[4].1@ == JsonView::Bool(r.chain_head_ok));
    assert(m@[5].0@ == "signatures_valid"@ && m@[5].1@ == count_json(r.signatures_valid));
    assert(m@[6].0@ == "signatures_total"@ && m@[6].1@ == count_json(r.signatures_total));
    let res = Json::Object(m);
    assert(res@->Object_0 =~= verified_view(*r)->Object_0);
    res
}

/// The report printed for a pack that failed verification: status
/// `"failed"` and the error's message.
pub fn failed_report(e: &AletheiaError) -> (res: Json)
    ensures
        res@ == failed_view(*e),
{
    let mut m: Vec<(String, Json)> = Vec::new();
    m.push(("status".to_owned(), Json::Str("failed".to_owned())));
    m.push(("error".to_owned(), Json::Str(e.message())));
    assert(m@[0].0@ == "status"@ && m@[0].1@ == JsonView::Str("failed"@));
    assert(m@[1].0@ == "error"@ && m@[1].1@ == JsonView::Str(error_message(*e)));
    let res = Json::Object(m);
    assert(res@->Object_0 =~= failed_view(*e)->Object_0);
    res
}

/// A pack sealed from the receipts of a hash chain passes every structural
/// check of `verify_pack` (event hashes, links, Merkle root, chain head).
/// Sealed with a signing key, its signature was made over its Merkle root with
/// that key, so `verify_pack` accepts it under the derived verifying key.
pub proof fn sealed_pack_verifies(
    pack: EvidencePack,
    receipts: Seq<Receipt>,
    signing_key: Option<Seq<u8>>,
    sealed_at: u64,
)
    requires
        linked(receipts),
        sealed_from(pack, receipts, head_of(receipts), signing_key, sealed_at),
        signing_key matches Some(sk) ==> sk.len() == 32,
    ensures
        structure_ok(pack),
        signing_key matches Some(sk) ==> signed_by(
            pack.signatures@,
            ed25519_public_key(sk),
            pack.merkle_root@,
        ),
{
    assert(pack.receipts@ == receipts);
    assert forall|i: int| 0 <= i < receipts.len() implies !#[trigger] link_broken(receipts, i) by {
        assert(receipts[i].prev_hash@ == head_of(receipts.take(i)));
    }
    if receipts.len() > 0 {
        assert(head_of(receipts) == receipts.last().hash@);
    }
    match signing_key {
        Some(sk) => {
            let root = pack.merkle_root@;
            let sig = ed25519_signature(sk, root);
            lemma_hex_roundtrip(sig);
            assert(pack.signatures@[0].signature@ == hex_lower(sig));
            assert(signature_by(pack.signatures@[0].signature@, ed25519_public_key(sk), root));
        },
        None => {},
    }
}

} // verus!
