//! The cryptographic primitive behind the issuance core.
//!
//! Key generation, the accumulator, signing, witness computation and
//! hashing are external: each call stands behind a narrow trusted
//! interface whose contract states only what the primitive's own source
//! shows. Opaque payloads cross the boundary as serialized strings; the
//! tails generator is carried as the primitive's own type, its yield
//! named by `tails_entries`.

use vstd::prelude::*;
use rust_base58::ToBase58;
use sha2::Digest;

verus! {

/// The SHA-256 digest of a byte sequence.
pub uninterp spec fn sha256_of(b: Seq<u8>) -> Seq<u8>;

/// The base58 rendering of a byte sequence.
pub uninterp spec fn base58_of(b: Seq<u8>) -> Seq<char>;

/// The byte-serialized tails entries that a generator will still yield, in
/// order.
pub uninterp spec fn tails_entries(g: ursa::cl::RevocationTailsGenerator) -> Seq<Seq<u8>>;

/// What revoking `rev_idx` yields on a registry: the updated serialized
/// accumulator, or nothing when the stored accumulator payload does not
/// decode. A function of the payload, the capacity, the index and the
/// tails content alone.
pub uninterp spec fn revoke_of(
    accum: Seq<char>,
    max_cred_num: u32,
    rev_idx: u32,
    tails: Seq<Seq<u8>>,
) -> Option<Seq<char>>;

/// The serialized non-revocation witness of `rev_idx` against the policy's
/// issued/revoked sets, or nothing when the accumulator payload does not
/// decode. A function of its arguments alone.
pub uninterp spec fn witness_of(
    rev_idx: u32,
    max_cred_num: u32,
    issuance_by_default: bool,
    accum: Seq<char>,
    issued: Seq<u32>,
    revoked: Seq<u32>,
    tails: Seq<Seq<u8>>,
) -> Option<Seq<char>>;

#[verifier::external_type_specification]
#[verifier::external_body]
pub struct ExRevocationTailsGenerator(ursa::cl::RevocationTailsGenerator);

#[verifier::external_type_specification]
#[verifier::external_body]
pub struct ExCredentialPublicKey(ursa::cl::CredentialPublicKey);

#[verifier::external_type_specification]
#[verifier::external_body]
pub struct ExCredentialPrivateKey(ursa::cl::CredentialPrivateKey);

#[verifier::external_type_specification]
#[verifier::external_body]
pub struct ExBlindedCredentialSecrets(ursa::cl::BlindedCredentialSecrets);

#[verifier::external_type_specification]
#[verifier::external_body]
pub struct ExBlindedCredentialSecretsCorrectnessProof(
    ursa::cl::BlindedCredentialSecretsCorrectnessProof,
);

#[verifier::external_type_specification]
#[verifier::external_body]
pub struct ExRevocationKeyPrivate(ursa::cl::RevocationKeyPrivate);

#[verifier::external_type_specification]
#[verifier::external_body]
pub struct ExCredentialValues(ursa::cl::CredentialValues);

#[verifier::external_type_specification]
#[verifier::external_body]
pub struct ExBigNumber(ursa::bn::BigNumber);

/// Relies on sha2's `Sha256`: the digest depends on the bytes alone and is
/// 32 bytes long.
#[verifier::external_body]
pub(crate) fn sha256(b: &[u8]) -> (r: Vec<u8>)
    ensures
        r@ == sha256_of(b@),
        r@.len() == 32,
{
    sha2::Sha256::digest(b).to_vec()
}

/// Relies on rust-base58's `ToBase58`: the rendering depends on the bytes
/// alone.
#[verifier::external_body]
pub(crate) fn base58(b: &[u8]) -> (r: String)
    ensures
        r@ == base58_of(b@),
{
    b.to_base58()
}

/// Relies on ursa's `new_nonce`: a fresh random nonce, serialized. Nothing
/// holds of its value.
#[verifier::external_body]
pub(crate) fn new_nonce() -> (r: Option<String>)
{
    let n = ursa::cl::new_nonce().ok()?;
    serde_json::to_string(&n).ok()
}

/// Relies on serde_json: decodes a stored primary/revocation public key
/// pair into ursa's `CredentialPublicKey` via `build_from_parts`.
#[verifier::external_body]
pub(crate) fn parse_cred_pub_key(primary: &str, revocation: Option<&String>) -> (r: Option<
    ursa::cl::CredentialPublicKey,
>)
{
    let p: ursa::cl::CredentialPrimaryPublicKey = serde_json::from_str(primary).ok()?;
    let rk: Option<ursa::cl::CredentialRevocationPublicKey> = match revocation {
        Some(s) => Some(serde_json::from_str(s.as_str()).ok()?),
        None => None,
    };
    ursa::cl::CredentialPublicKey::build_from_parts(&p, rk.as_ref()).ok()
}

/// Relies on serde_json: decodes a stored private key payload.
#[verifier::external_body]
pub(crate) fn parse_cred_priv_key(s: &str) -> (r: Option<ursa::cl::CredentialPrivateKey>)
{
    serde_json::from_str(s).ok()
}

/// Relies on serde_json: decodes a request's blinded credential secrets.
#[verifier::external_body]
pub(crate) fn parse_blinded_secrets(s: &str) -> (r: Option<ursa::cl::BlindedCredentialSecrets>)
{
    serde_json::from_str(s).ok()
}

/// Relies on serde_json: decodes a request's blinded-secrets correctness
/// proof.
#[verifier::external_body]
pub(crate) fn parse_blinded_proof(s: &str) -> (r: Option<
    ursa::cl::BlindedCredentialSecretsCorrectnessProof,
>)
{
    serde_json::from_str(s).ok()
}

/// Relies on serde_json: decodes a nonce payload.
#[verifier::external_body]
pub(crate) fn parse_nonce(s: &str) -> (r: Option<ursa::bn::BigNumber>)
{
    serde_json::from_str(s).ok()
}

/// Relies on serde_json: decodes a stored accumulator private key payload.
#[verifier::external_body]
pub(crate) fn parse_rev_key_private(s: &str) -> (r: Option<ursa::cl::RevocationKeyPrivate>)
{
    serde_json::from_str(s).ok()
}

#[verifier::external_type_specification]
#[verifier::external_body]
pub struct ExCredentialSchema(ursa::cl::CredentialSchema);

#[verifier::external_type_specification]
#[verifier::external_body]
pub struct ExNonCredentialSchema(ursa::cl::NonCredentialSchema);

/// Relies on ursa's schema builders: turns the attribute names into the
/// primitive's schema, beside the non-credential schema holding the one
/// blinded attribute the caller names.
#[verifier::external_body]
pub(crate) fn build_credential_schema(attrs: &Vec<String>, non_attr: &str) -> (r: Option<
    (ursa::cl::CredentialSchema, ursa::cl::NonCredentialSchema),
>)
{
    let mut sb = ursa::cl::issuer::Issuer::new_credential_schema_builder().ok()?;
    for a in attrs.iter() {
        sb.add_attr(a.as_str()).ok()?;
    }
    let mut nb = ursa::cl::issuer::Issuer::new_non_credential_schema_builder().ok()?;
    nb.add_attr(non_attr).ok()?;
    Some((sb.finalize().ok()?, nb.finalize().ok()?))
}

/// Relies on ursa's `Issuer::new_credential_def`: fresh definition keys
/// over the given schemas. The result holds a revocation part exactly when
/// revocation is asked for; nothing holds of the random key values.
#[verifier::external_body]
pub(crate) fn new_credential_def(
    schema: &ursa::cl::CredentialSchema,
    non_schema: &ursa::cl::NonCredentialSchema,
    support_revocation: bool,
) -> (r: Option<(String, Option<String>, String, String)>)
    ensures
        r matches Some(t) ==> (t.1 is Some <==> support_revocation),
{
    let (pk, sk, proof) = ursa::cl::issuer::Issuer::new_credential_def(
        schema, non_schema, support_revocation,
    ).ok()?;
    let revocation = match pk.get_revocation_key().ok()? {
        Some(rk) => Some(serde_json::to_string(&rk).ok()?),
        None => None,
    };
    let primary = serde_json::to_string(&pk.get_primary_key().ok()?).ok()?;
    Some((primary, revocation, serde_json::to_string(&sk).ok()?, serde_json::to_string(&proof).ok()?))
}

/// Relies on ursa's `Issuer::new_revocation_registry_def`: fresh accumulator
/// key material, the initial accumulator, and a tails generator whose yield
/// counts twice the capacity plus one entries. The primitive computes that
/// count in 32 bits, so capacities whose count would overflow are excluded.
/// Nothing holds of the random key values.
#[verifier::external_body]
pub(crate) fn new_revocation_registry(
    cred_pub: &ursa::cl::CredentialPublicKey,
    max_cred_num: u32,
    issuance_by_default: bool,
) -> (r: Option<(String, String, String, ursa::cl::RevocationTailsGenerator)>)
    requires
        max_cred_num <= 0x7fff_ffff,
    ensures
        r matches Some(t) ==> tails_entries(t.3).len() == 2 * (max_cred_num as int) + 1,
{
    let (rk_pub, rk_priv, rev_reg, gen) = ursa::cl::issuer::Issuer::new_revocation_registry_def(
        cred_pub,
        max_cred_num,
        issuance_by_default,
    ).ok()?;
    Some((
        serde_json::to_string(&rk_pub).ok()?,
        serde_json::to_string(&rk_priv).ok()?,
        serde_json::to_string(&rev_reg).ok()?,
        gen,
    ))
}

/// Relies on the derived `Clone` of ursa's `RevocationTailsGenerator`: the
/// copy will yield the same entries.
#[verifier::external_body]
pub(crate) fn clone_tails_generator(g: &ursa::cl::RevocationTailsGenerator) -> (r:
    ursa::cl::RevocationTailsGenerator)
    ensures
        tails_entries(r) == tails_entries(*g),
{
    g.clone()
}

/// Relies on ursa's `RevocationTailsGenerator::try_next` and
/// `Tail::to_bytes`: yields the generator's next entry, front first; an
/// exhausted generator yields nothing and stays exhausted.
#[verifier::external_body]
pub(crate) fn next_tail(g: &mut ursa::cl::RevocationTailsGenerator) -> (r: Option<
    Option<Vec<u8>>,
>)
    ensures
        r matches Some(Some(b)) ==> tails_entries(*old(g)).len() > 0 && b@ == tails_entries(
            *old(g),
        ).first() && tails_entries(*final(g)) == tails_entries(*old(g)).drop_first(),
        r matches Some(None) ==> tails_entries(*old(g)).len() == 0 && tails_entries(*final(g))
            == tails_entries(*old(g)),
        tails_entries(*old(g)).len() == 0 ==> r == Some(None::<Vec<u8>>),
{
    match g.try_next() {
        Ok(Some(tail)) => match tail.to_bytes() {
            Ok(b) => Some(Some(b)),
            Err(_) => None,
        },
        Ok(None) => Some(None),
        Err(_) => None,
    }
}

/// Relies on ursa's `CredentialValuesBuilder`: turns `(attribute, encoded
/// value)` pairs into the primitive's value map, every value a known one.
#[verifier::external_body]
pub(crate) fn build_credential_values(values: &Vec<(String, String)>) -> (r: Option<
    ursa::cl::CredentialValues,
>)
{
    let mut builder = ursa::cl::issuer::Issuer::new_credential_values_builder().ok()?;
    for (name, encoded) in values.iter() {
        builder.add_dec_known(name.as_str(), encoded.as_str()).ok()?;
    }
    builder.finalize().ok()
}

/// Relies on ursa's `Issuer::sign_credential`: signs the blinded secrets
/// over the values, after checking the blinded-secrets correctness proof.
/// Nothing holds of the signature payloads.
#[verifier::external_body]
pub(crate) fn sign_credential(
    prover_id: &str,
    blinded: &ursa::cl::BlindedCredentialSecrets,
    blinded_proof: &ursa::cl::BlindedCredentialSecretsCorrectnessProof,
    offer_nonce: &ursa::bn::BigNumber,
    issuance_nonce: &ursa::bn::BigNumber,
    values: &ursa::cl::CredentialValues,
    pub_key: &ursa::cl::CredentialPublicKey,
    priv_key: &ursa::cl::CredentialPrivateKey,
) -> (r: Option<(String, String)>)
{
    let (sig, proof) = ursa::cl::issuer::Issuer::sign_credential(
        prover_id, blinded, blinded_proof, offer_nonce, issuance_nonce,
        values, pub_key, priv_key,
    ).ok()?;
    Some((serde_json::to_string(&sig).ok()?, serde_json::to_string(&proof).ok()?))
}

/// Relies on ursa's `Issuer::sign_credential_with_revoc` over a
/// `SimpleTailsAccessor` rebuilt from the generator: additionally binds the
/// credential to the registry slot `rev_idx`. When issuance is not by
/// default the accumulator gains the index and the updated registry is
/// returned serialized; by default the accumulator is left as it was.
#[verifier::external_body]
pub(crate) fn sign_credential_with_revoc(
    prover_id: &str,
    blinded: &ursa::cl::BlindedCredentialSecrets,
    blinded_proof: &ursa::cl::BlindedCredentialSecretsCorrectnessProof,
    offer_nonce: &ursa::bn::BigNumber,
    issuance_nonce: &ursa::bn::BigNumber,
    values: &ursa::cl::CredentialValues,
    pub_key: &ursa::cl::CredentialPublicKey,
    priv_key: &ursa::cl::CredentialPrivateKey,
    rev_idx: u32,
    max_cred_num: u32,
    issuance_by_default: bool,
    accum: &str,
    rev_key_priv: &ursa::cl::RevocationKeyPrivate,
    tails_gen: &ursa::cl::RevocationTailsGenerator,
) -> (r: Option<(String, String, String)>)
    requires
        1 <= rev_idx <= max_cred_num,
        tails_entries(*tails_gen).len() == 2 * (max_cred_num as int) + 1,
{
    let mut rr: ursa::cl::RevocationRegistry = serde_json::from_str(accum).ok()?;
    let accessor = ursa::cl::SimpleTailsAccessor::new(&mut tails_gen.clone()).ok()?;
    let (sig, proof, _delta) = ursa::cl::issuer::Issuer::sign_credential_with_revoc(
        prover_id, blinded, blinded_proof, offer_nonce, issuance_nonce, values,
        pub_key, priv_key, rev_idx, max_cred_num, issuance_by_default,
        &mut rr, rev_key_priv, &accessor,
    ).ok()?;
    let new_accum = serde_json::to_string(&rr).ok()?;
    Some((serde_json::to_string(&sig).ok()?, serde_json::to_string(&proof).ok()?, new_accum))
}

/// Relies on ursa's `Issuer::revoke_credential` over a
/// `SimpleTailsAccessor` rebuilt from the generator: removes the index's
/// tail from the accumulator and returns the updated registry serialized.
/// The whole step is deterministic in the payload, capacity, index and
/// tails content, so its result carries the name `revoke_of`; it yields a
/// value exactly when the stored accumulator payload decodes. The
/// primitive's own delta for this step issues nothing and revokes exactly
/// the index.
#[verifier::external_body]
pub(crate) fn revoke(
    accum: &str,
    max_cred_num: u32,
    rev_idx: u32,
    tails_gen: &ursa::cl::RevocationTailsGenerator,
) -> (r: Option<String>)
    requires
        1 <= max_cred_num,
        rev_idx <= max_cred_num as int + 1,
        tails_entries(*tails_gen).len() == 2 * (max_cred_num as int) + 1,
    ensures
        match r {
            Some(a) => revoke_of(accum@, max_cred_num, rev_idx, tails_entries(*tails_gen))
                == Some(a@),
            None => revoke_of(accum@, max_cred_num, rev_idx, tails_entries(*tails_gen)) is None,
        },
{
    let mut rr: ursa::cl::RevocationRegistry = serde_json::from_str(accum).ok()?;
    let accessor = ursa::cl::SimpleTailsAccessor::new(&mut tails_gen.clone()).ok()?;
    ursa::cl::issuer::Issuer::revoke_credential(&mut rr, max_cred_num, rev_idx, &accessor).ok()?;
    serde_json::to_string(&rr).ok()
}

/// Relies on ursa's `Witness::new` over a `SimpleTailsAccessor` rebuilt
/// from the generator: the non-revocation witness of the index against the
/// issued/revoked sets. The computation is deterministic in its arguments,
/// so its result carries the name `witness_of`; it yields a value exactly
/// when the stored accumulator payload decodes.
#[verifier::external_body]
pub(crate) fn compute_witness(
    rev_idx: u32,
    max_cred_num: u32,
    issuance_by_default: bool,
    accum: &str,
    issued: &Vec<u32>,
    revoked: &Vec<u32>,
    tails_gen: &ursa::cl::RevocationTailsGenerator,
) -> (r: Option<String>)
    requires
        1 <= rev_idx <= max_cred_num,
        forall|i: int| 0 <= i < issued@.len() ==> 1 <= #[trigger] issued@[i] <= max_cred_num,
        forall|i: int| 0 <= i < revoked@.len() ==> 1 <= #[trigger] revoked@[i] <= max_cred_num,
        tails_entries(*tails_gen).len() == 2 * (max_cred_num as int) + 1,
    ensures
        match r {
            Some(w) => witness_of(
                rev_idx,
                max_cred_num,
                issuance_by_default,
                accum@,
                issued@,
                revoked@,
                tails_entries(*tails_gen),
            ) == Some(w@),
            None => witness_of(
                rev_idx,
                max_cred_num,
                issuance_by_default,
                accum@,
                issued@,
                revoked@,
                tails_entries(*tails_gen),
            ) is None,
        },
{
    let rr: ursa::cl::RevocationRegistry = serde_json::from_str(accum).ok()?;
    let issued_set: std::collections::HashSet<u32> = issued.iter().cloned().collect();
    let revoked_set: std::collections::HashSet<u32> = revoked.iter().cloned().collect();
    let delta = ursa::cl::RevocationRegistryDelta::from_parts(None, &rr, &issued_set, &revoked_set);
    let accessor = ursa::cl::SimpleTailsAccessor::new(&mut tails_gen.clone()).ok()?;
    let witness = ursa::cl::Witness::new(rev_idx, max_cred_num, issuance_by_default, &delta, &accessor).ok()?;
    serde_json::to_string(&witness).ok()
}

} // verus!
