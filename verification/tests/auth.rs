use base64::engine::general_purpose::{STANDARD, URL_SAFE_NO_PAD};
use base64::Engine;
use rsa::traits::PublicKeyParts;
use signature::{SignatureEncoding, Signer};
use ssh_key::private::{EcdsaKeypair, Ed25519Keypair, RsaKeypair};
use ssh_key::LineEnding;

use ssh3::auth::error::AuthError;
use ssh3::auth::identity::{
    load_authorized_identities, parse_authorized_identities, parse_authorized_public_keys,
    AuthorizedIdentity, FileRead, OidcIdentity,
};
use ssh3::auth::key::{load_private_key, load_public_half, KeyData, PrivateKey, PublicKey, SecretKey};
use ssh3::auth::oidc::{
    oidc_discovery_url, oidc_keys_url, verify_oidc_identity_token, OidcAudience, OidcClaims,
    OidcDiscoveryDocument, OidcJwk, OidcJwtHeader,
};
use ssh3::auth::signature::{
    jwt_algorithm_for_public_key, sign_jwt_signature, verify_jwt_signature, JwtAlgorithm,
};
use ssh3::auth::token::{
    bearer_authorization_value, bearer_claims, bearer_header, build_bearer_token,
    build_bearer_token_with_signer, conversation_id_base64, signs_for_itself, token_claims_json,
    token_header_json, token_parts, verify_bearer_token, JwtClaims, JwtHeader, SignerError,
};
use ssh3::failure::IoErrorKind;

const NOW: u64 = 1_700_000_000;

fn library_key(key: &ssh_key::PrivateKey) -> PrivateKey {
    load_private_key(&key.to_openssh(LineEnding::LF).unwrap()).unwrap()
}

fn ed25519_key(seed: u8) -> ssh_key::PrivateKey {
    ssh_key::PrivateKey::from(Ed25519Keypair::from_seed(&[seed; 32]))
}

fn p256_key(seed: u8) -> ssh_key::PrivateKey {
    let secret_key = p256::SecretKey::from_slice(&[seed; 32]).unwrap();
    ssh_key::PrivateKey::from(EcdsaKeypair::NistP256 {
        public: secret_key.public_key().into(),
        private: secret_key.into(),
    })
}

fn rsa_key() -> (rsa::RsaPrivateKey, ssh_key::PrivateKey) {
    let key = rsa::RsaPrivateKey::new(&mut rand::rngs::OsRng, 2048).unwrap();
    let pair = RsaKeypair::try_from(&key).unwrap();
    (key, ssh_key::PrivateKey::from(pair))
}

fn text(value: &str) -> serde_json::Value {
    serde_json::Value::String(value.to_string())
}

fn header_json(header: &JwtHeader) -> Vec<u8> {
    let mut map = serde_json::Map::new();
    map.insert("alg".to_string(), text(&header.alg));
    map.insert("typ".to_string(), text(&header.typ));
    serde_json::to_vec(&serde_json::Value::Object(map)).unwrap()
}

fn claims_json(claims: &JwtClaims) -> Vec<u8> {
    let mut map = serde_json::Map::new();
    map.insert("iss".to_string(), text(&claims.iss));
    map.insert("sub".to_string(), text(&claims.sub));
    map.insert("aud".to_string(), text(&claims.aud));
    map.insert("iat".to_string(), serde_json::Value::from(claims.iat));
    map.insert("exp".to_string(), serde_json::Value::from(claims.exp));
    map.insert("client_id".to_string(), text(&claims.client_id));
    map.insert("jti".to_string(), text(&claims.jti));
    serde_json::to_vec(&serde_json::Value::Object(map)).unwrap()
}

fn field(value: &serde_json::Value, name: &str) -> String {
    value[name].as_str().unwrap().to_string()
}

fn read_header(token: &str) -> Result<JwtHeader, String> {
    let bytes = token_header_json(token).unwrap_or_default();
    let value: serde_json::Value =
        serde_json::from_slice(&bytes).map_err(|error| error.to_string())?;
    Ok(JwtHeader { alg: field(&value, "alg"), typ: field(&value, "typ") })
}

fn read_claims(token: &str) -> Result<JwtClaims, String> {
    let bytes = token_claims_json(token).unwrap_or_default();
    let value: serde_json::Value =
        serde_json::from_slice(&bytes).map_err(|error| error.to_string())?;
    Ok(JwtClaims {
        iss: field(&value, "iss"),
        sub: field(&value, "sub"),
        aud: field(&value, "aud"),
        iat: value["iat"].as_u64().unwrap(),
        exp: value["exp"].as_u64().unwrap(),
        client_id: field(&value, "client_id"),
        jti: field(&value, "jti"),
    })
}

fn build(key: &PrivateKey, username: &str, conversation_id: &[u8; 32]) -> String {
    let header = bearer_header(&key.public_key).unwrap();
    let claims = bearer_claims(username, conversation_id, NOW);
    build_bearer_token(key, &header_json(&header), &claims_json(&claims)).unwrap()
}

fn verify(
    key: &PublicKey,
    token: &str,
    username: &str,
    conversation_id: &[u8; 32],
    now: u64,
) -> Result<(), AuthError> {
    let (header, claims) = (read_header(token), read_claims(token));
    verify_bearer_token(key, token, &header, &claims, username, conversation_id, now)
}

fn round_trip(key: &ssh_key::PrivateKey, conversation_id: [u8; 32]) {
    let private_key = library_key(key);
    let public_key =
        PublicKey::from_bytes(key.public_key().to_bytes().unwrap(), String::new()).unwrap();
    assert_eq!(private_key.public_key, public_key);

    let token = build(&private_key, "alice", &conversation_id);
    verify(&public_key, &token, "alice", &conversation_id, NOW).unwrap();
    verify(&public_key, &token, "alice", &conversation_id, NOW + 60).unwrap();
    assert_eq!(
        verify(&public_key, &token, "alice", &conversation_id, NOW + 61),
        Err(AuthError::InvalidToken("JWT is expired"))
    );
    assert_eq!(
        verify(&public_key, &token, "alice", &conversation_id, NOW - 1),
        Err(AuthError::InvalidToken("JWT issued-at is in the future"))
    );
    assert_eq!(
        verify(&public_key, &token, "bob", &conversation_id, NOW),
        Err(AuthError::InvalidToken("unexpected JWT issuer"))
    );
    assert_eq!(
        verify(&public_key, &token, "alice", &[0; 32], NOW),
        Err(AuthError::InvalidToken("unexpected JWT jti"))
    );
}

#[test]
fn ed25519_bearer_tokens_round_trip() {
    round_trip(&ed25519_key(7), [9; 32]);
}

#[test]
fn nist_p256_bearer_tokens_round_trip() {
    round_trip(&p256_key(11), [5; 32]);
}

#[test]
fn rsa_bearer_tokens_round_trip() {
    round_trip(&rsa_key().1, [13; 32]);
}

#[test]
fn a_token_of_another_key_is_refused() {
    let token = build(&library_key(&ed25519_key(7)), "alice", &[9; 32]);
    let other = library_key(&ed25519_key(8)).public_key;
    assert_eq!(
        verify(&other, &token, "alice", &[9; 32], NOW),
        Err(AuthError::InvalidToken("JWT signature verification failed"))
    );
    let other = library_key(&p256_key(11)).public_key;
    assert_eq!(
        verify(&other, &token, "alice", &[9; 32], NOW),
        Err(AuthError::InvalidToken("unexpected JWT alg"))
    );
}

#[test]
fn malformed_tokens_are_refused() {
    let key = library_key(&ed25519_key(7));
    let id = [9; 32];
    let good = build(&key, "alice", &id);
    let (header, claims) = (read_header(&good), read_claims(&good));
    let check = |token: &str| {
        verify_bearer_token(&key.public_key, token, &header, &claims, "alice", &id, NOW)
    };
    assert_eq!(check(&good), Ok(()));
    assert_eq!(check("abc"), Err(AuthError::InvalidToken("malformed bearer token")));
    assert_eq!(check("abc.def"), Err(AuthError::InvalidToken("malformed bearer token")));
    assert!(matches!(check("!.e30.AA"), Err(AuthError::Base64(_))));
    assert!(matches!(check("e30.!.AA"), Err(AuthError::Base64(_))));
    assert!(matches!(check("e30.e30.!"), Err(AuthError::Base64(_))));
    assert!(matches!(check("e30.e30.AA"), Err(AuthError::SshKey(_))));

    let broken: Result<JwtHeader, String> = Err("no header".to_string());
    assert_eq!(
        verify_bearer_token(&key.public_key, &good, &broken, &claims, "alice", &id, NOW),
        Err(AuthError::Json("no header".to_string()))
    );
    let broken: Result<JwtClaims, String> = Err("no claims".to_string());
    assert_eq!(
        verify_bearer_token(&key.public_key, &good, &header, &broken, "alice", &id, NOW),
        Err(AuthError::Json("no claims".to_string()))
    );
}

#[test]
fn each_claim_is_checked() {
    let key = library_key(&ed25519_key(7));
    let id = [9; 32];
    let token = build(&key, "alice", &id);
    let header = read_header(&token);
    let good = read_claims(&token).unwrap();
    let check = |claims: JwtClaims| {
        verify_bearer_token(&key.public_key, &token, &header, &Ok(claims), "alice", &id, NOW)
    };
    assert_eq!(good.client_id, "ssh3-alice");
    assert_eq!(good.jti, STANDARD.encode([9u8; 32]));
    assert_eq!((good.iat, good.exp), (NOW, NOW + 60));
    let cases = [
        (JwtClaims { sub: "x".to_string(), ..good.clone() }, "unexpected JWT subject"),
        (JwtClaims { aud: "x".to_string(), ..good.clone() }, "unexpected JWT audience"),
        (JwtClaims { client_id: "x".to_string(), ..good.clone() }, "unexpected JWT client_id"),
        (JwtClaims { jti: "x".to_string(), ..good.clone() }, "unexpected JWT jti"),
    ];
    for (claims, reason) in cases {
        assert_eq!(check(claims), Err(AuthError::InvalidToken(reason)));
    }
    assert_eq!(check(good), Ok(()));
}

#[test]
fn the_parts_of_a_token_are_set_apart_by_its_first_and_last_dot() {
    let parts = token_parts("a.b.c.d").unwrap();
    assert_eq!(parts.signing_input, "a.b.c");
    assert_eq!(parts.header, "a");
    assert_eq!(parts.claims, "b.c");
    assert_eq!(parts.signature, "d");
}

#[test]
fn other_keys_sign_no_tokens() {
    let dsa = b"\0\0\0\x07ssh-dss\0\0\0\x01\x17\0\0\0\x01\x0b\0\0\0\x01\x04\0\0\0\x01\x08".to_vec();
    let key = PublicKey::from_bytes(dsa, String::new()).unwrap();
    assert_eq!(key.data, KeyData::Other);
    let error = jwt_algorithm_for_public_key(&key).unwrap_err();
    assert_eq!(error, AuthError::UnsupportedAlgorithm("ssh-dss".to_string()));
    assert_eq!(error.message(), "unsupported SSH key algorithm: ssh-dss");
    assert!(PublicKey::from_bytes(b"junk".to_vec(), String::new()).is_err());
}

#[test]
fn damaged_keys_are_reported() {
    let good = library_key(&ed25519_key(7));
    let input = b"data";
    let signature = sign_jwt_signature(&good, JwtAlgorithm::EdDsa, input).unwrap();
    assert_eq!(signature.len(), 64);
    assert_eq!(
        verify_jwt_signature(&good.public_key, JwtAlgorithm::EdDsa, input, &signature),
        Ok(())
    );

    let torn = PrivateKey { secret: SecretKey::Ed25519([8; 32]), ..good.clone() };
    assert_eq!(
        sign_jwt_signature(&torn, JwtAlgorithm::EdDsa, input),
        Err(AuthError::InvalidToken("could not sign bearer token"))
    );
    assert_eq!(
        sign_jwt_signature(&good, JwtAlgorithm::Es256, input),
        Err(AuthError::UnsupportedAlgorithm("ssh-ed25519".to_string()))
    );

    let p256 = library_key(&p256_key(11));
    let zero = PrivateKey { secret: SecretKey::NistP256(vec![0; 32]), ..p256.clone() };
    assert_eq!(
        sign_jwt_signature(&zero, JwtAlgorithm::Es256, input),
        Err(AuthError::InvalidKeyMaterial("invalid P-256 private key"))
    );
    assert_eq!(
        verify_jwt_signature(&p256.public_key, JwtAlgorithm::Es256, input, b"short"),
        Err(AuthError::InvalidToken("malformed ES256 signature"))
    );
    let mut off_curve = p256.public_key.clone();
    off_curve.data = KeyData::NistP256(vec![4; 65]);
    assert_eq!(
        verify_jwt_signature(&off_curve, JwtAlgorithm::Es256, input, &[1; 64]),
        Err(AuthError::InvalidKeyMaterial("invalid P-256 public key"))
    );

    let rsa = library_key(&rsa_key().1);
    let broken = PrivateKey {
        secret: SecretKey::Rsa(Some(vec![3]), Some(vec![5]), Some(vec![7])),
        ..rsa.clone()
    };
    assert_eq!(
        sign_jwt_signature(&broken, JwtAlgorithm::Rs256, input),
        Err(AuthError::InvalidKeyMaterial("invalid RSA private key"))
    );
    let negative = PrivateKey { secret: SecretKey::Rsa(None, None, None), ..rsa.clone() };
    assert_eq!(
        sign_jwt_signature(&negative, JwtAlgorithm::Rs256, input),
        Err(AuthError::InvalidKeyMaterial("invalid RSA key component"))
    );
    let mut small = rsa.public_key.clone();
    small.data = KeyData::Rsa { e: Some(vec![1]), n: Some(vec![15]) };
    assert_eq!(
        verify_jwt_signature(&small, JwtAlgorithm::Rs256, input, &[1; 64]),
        Err(AuthError::InvalidKeyMaterial("invalid RSA public key"))
    );
    assert_eq!(
        verify_jwt_signature(&rsa.public_key, JwtAlgorithm::Rs256, input, &[1; 64]),
        Err(AuthError::InvalidToken("JWT signature verification failed"))
    );
}

#[test]
fn keys_whose_halves_belong_together_sign_for_themselves() {
    let ed25519 = library_key(&ed25519_key(7));
    let p256 = library_key(&p256_key(11));
    let rsa = library_key(&rsa_key().1);
    for key in [&ed25519, &p256, &rsa] {
        assert!(signs_for_itself(key));
    }
    let foreign = PrivateKey {
        public_key: library_key(&p256_key(12)).public_key,
        secret: p256.secret.clone(),
    };
    assert!(!signs_for_itself(&foreign));
    let zero = PrivateKey { secret: SecretKey::NistP256(vec![0; 32]), ..p256.clone() };
    assert!(!signs_for_itself(&zero));
    let mixed = PrivateKey { secret: ed25519.secret.clone(), ..p256 };
    assert!(!signs_for_itself(&mixed));
}

#[test]
fn with_eddsa_other_keys_sign_in_the_way_of_ssh() {
    let input = b"data";
    let p256 = p256_key(11);
    let expected: ssh_key::Signature = signature::Signer::try_sign(&p256, input).unwrap();
    assert_eq!(
        sign_jwt_signature(&library_key(&p256), JwtAlgorithm::EdDsa, input),
        Ok(expected.as_bytes().to_vec())
    );
    let rsa = rsa_key().1;
    let expected: Option<ssh_key::Signature> = signature::Signer::try_sign(&rsa, input).ok();
    assert_eq!(
        sign_jwt_signature(&library_key(&rsa), JwtAlgorithm::EdDsa, input).ok(),
        expected.map(|signature| signature.as_bytes().to_vec())
    );
}

#[test]
fn a_signer_of_the_caller_s_is_handed_what_is_to_be_signed() {
    let key = library_key(&ed25519_key(7));
    let token = build_bearer_token_with_signer(&key.public_key, b"{}", b"[]", |algorithm, input| {
        assert_eq!(algorithm, JwtAlgorithm::EdDsa);
        assert_eq!(input, b"e30.W10");
        Ok::<Vec<u8>, String>(vec![0])
    });
    assert_eq!(token, Ok("e30.W10.AA".to_string()));
    let refused = build_bearer_token_with_signer(&key.public_key, b"{}", b"[]", |_, _| {
        Err::<Vec<u8>, String>("no".to_string())
    });
    assert_eq!(refused, Err(SignerError::Signer("no".to_string())));
}

#[test]
fn tokens_and_conversations_are_written_as_text() {
    assert_eq!(bearer_authorization_value("abc"), "Bearer abc");
    assert_eq!(conversation_id_base64(&[9; 32]), STANDARD.encode([9u8; 32]));
    assert_eq!(JwtAlgorithm::EdDsa.as_str(), "EdDSA");
    assert_eq!(JwtAlgorithm::Es256.as_str(), "ES256");
    assert_eq!(JwtAlgorithm::Rs256.as_str(), "RS256");
}

#[test]
fn key_files_are_read() {
    let key = ed25519_key(3);
    let text = key.to_openssh(LineEnding::LF).unwrap();
    let loaded = load_private_key(&text).unwrap();
    assert_eq!(loaded.public_key.algorithm, "ssh-ed25519");
    assert_eq!(loaded.secret, SecretKey::Ed25519([3; 32]));
    assert_eq!(load_public_half(&text), Ok(loaded.public_key.clone()));
    let public = PublicKey::from_openssh(&key.public_key().to_openssh().unwrap()).unwrap();
    assert_eq!(public, loaded.public_key);
    assert!(matches!(load_private_key("no key"), Err(AuthError::SshKey(_))));
    let mut commented = key.clone();
    commented.set_comment("at home");
    let text = commented.to_openssh(LineEnding::LF).unwrap();
    assert_eq!(load_private_key(&text).unwrap().public_key.comment, "at home");
    assert_eq!(load_public_half(&text).unwrap().comment, "at home");
    assert_eq!(
        PrivateKey::from_parts(public.blob, String::new(), SecretKey::Encrypted),
        Err(AuthError::InvalidToken("encrypted private keys are not supported yet"))
    );
}

#[test]
fn authorized_keys_lines_are_parsed() {
    let private_key = ed25519_key(3);
    let p256_private_key = p256_key(17);
    let (_, rsa_private_key) = rsa_key();
    let contents = format!(
        "# comment\noidc oidc-client https://issuer.example alice@example.com\n{}\n{}\n{}\n",
        private_key.public_key().to_openssh().unwrap(),
        p256_private_key.public_key().to_openssh().unwrap(),
        rsa_private_key.public_key().to_openssh().unwrap(),
    );

    let identities = parse_authorized_identities(&contents);
    assert_eq!(identities.len(), 4);
    assert_eq!(
        identities[0],
        AuthorizedIdentity::Oidc(OidcIdentity {
            client_id: "oidc-client".to_string(),
            issuer_url: "https://issuer.example".to_string(),
            email: "alice@example.com".to_string(),
        })
    );

    let parsed = parse_authorized_public_keys(&contents);
    assert_eq!(parsed.len(), 3);
    let openssh = |key: &PublicKey| {
        ssh_key::PublicKey::from_bytes(&key.blob).unwrap().to_openssh().unwrap()
    };
    assert_eq!(
        openssh(&parsed[0]),
        private_key.public_key().to_openssh().unwrap()
    );
    assert_eq!(
        openssh(&parsed[1]),
        p256_private_key.public_key().to_openssh().unwrap()
    );
    assert_eq!(
        openssh(&parsed[2]),
        rsa_private_key.public_key().to_openssh().unwrap()
    );

    let private_key_str = private_key.to_openssh(LineEnding::LF).unwrap();
    assert!(private_key_str.contains("OPENSSH PRIVATE KEY"));
}

#[test]
fn lines_that_list_nobody_are_passed_over() {
    let contents = "\n   \n#oidc a b c\noidc a b\noidc a b c d\nnonsense\n  oidc a b c  \n";
    let identities = parse_authorized_identities(contents);
    assert_eq!(identities.len(), 1);
    let key = ed25519_key(3).public_key().to_openssh().unwrap();
    let with_comment = parse_authorized_public_keys(&format!("{key} alice@host"));
    assert_eq!(with_comment[0].comment, "alice@host");
}

#[test]
fn lists_of_several_files_are_read_in_turn() {
    let files = [
        FileRead::Contents("oidc a b c\n".to_string()),
        FileRead::Missing,
        FileRead::Contents("oidc d e f".to_string()),
    ];
    let identities = load_authorized_identities(&files).unwrap();
    assert_eq!(identities.len(), 2);
    let files = [
        FileRead::Contents("oidc a b c\n".to_string()),
        FileRead::Failed(IoErrorKind::Other, "denied".to_string()),
        FileRead::Failed(IoErrorKind::InvalidData, "later".to_string()),
    ];
    let error = AuthError::Io(IoErrorKind::Other, "denied".to_string());
    assert_eq!(error.message(), "denied");
    assert_eq!(load_authorized_identities(&files), Err(error));
}

struct Provider {
    identity: OidcIdentity,
    token: String,
    header: Result<OidcJwtHeader, String>,
    claims: OidcClaims,
    discovery: OidcDiscoveryDocument,
    keys: Vec<OidcJwk>,
}

fn provider() -> Provider {
    let (key, _) = rsa_key();
    let public = key.to_public_key();
    let header = URL_SAFE_NO_PAD.encode(br#"{"alg":"RS256","kid":"test-key","typ":"JWT"}"#);
    let claims = URL_SAFE_NO_PAD.encode(b"{}");
    let input = format!("{header}.{claims}");
    let signer = rsa::pkcs1v15::SigningKey::<sha2::Sha256>::new(key);
    let signature: rsa::pkcs1v15::Signature = signer.try_sign(input.as_bytes()).unwrap();
    Provider {
        identity: OidcIdentity {
            client_id: "ssh3-client-id".to_string(),
            issuer_url: "https://issuer.example/".to_string(),
            email: "alice@example.com".to_string(),
        },
        token: format!("{input}.{}", URL_SAFE_NO_PAD.encode(signature.to_vec())),
        header: Ok(OidcJwtHeader {
            alg: "RS256".to_string(),
            kid: Some("test-key".to_string()),
        }),
        claims: OidcClaims {
            iss: "https://issuer.example/".to_string(),
            aud: OidcAudience::One("ssh3-client-id".to_string()),
            exp: NOW + 60,
            email: Some("alice@example.com".to_string()),
            email_verified: true,
            nonce: None,
        },
        discovery: OidcDiscoveryDocument {
            issuer: "https://issuer.example/".to_string(),
            jwks_uri: "https://issuer.example/keys".to_string(),
        },
        keys: vec![OidcJwk {
            kty: "RSA".to_string(),
            kid: Some("test-key".to_string()),
            alg: Some("RS256".to_string()),
            n: Some(URL_SAFE_NO_PAD.encode(public.n().to_bytes_be())),
            e: Some(URL_SAFE_NO_PAD.encode(public.e().to_bytes_be())),
            crv: None,
            x: None,
            y: None,
        }],
    }
}

fn check(provider: &Provider, claims: &OidcClaims, nonce: Option<&str>) -> Result<(), AuthError> {
    verify_oidc_identity_token(
        &provider.identity,
        &provider.token,
        &provider.header,
        &Ok(claims.clone()),
        nonce,
        NOW,
        &provider.discovery,
        &provider.keys,
    )
}

#[test]
fn oidc_tokens_round_trip_against_a_mock_issuer() {
    let provider = provider();
    let url = oidc_discovery_url(
        &provider.identity,
        &provider.token,
        &provider.header,
        &Ok(provider.claims.clone()),
        None,
        NOW,
    );
    assert_eq!(
        url,
        Ok("https://issuer.example/.well-known/openid-configuration".to_string())
    );
    assert_eq!(
        oidc_keys_url(&provider.identity, &provider.discovery),
        Ok("https://issuer.example/keys".to_string())
    );
    check(&provider, &provider.claims, None).unwrap();
    check(&provider, &provider.claims, Some("nonce")).unwrap();
    let many = OidcClaims {
        aud: OidcAudience::Many(vec!["x".to_string(), "ssh3-client-id".to_string()]),
        nonce: Some("nonce".to_string()),
        ..provider.claims.clone()
    };
    check(&provider, &many, Some("nonce")).unwrap();
}

#[test]
fn oidc_claims_of_anything_else_are_refused() {
    let provider = provider();
    let good = &provider.claims;
    let cases = [
        (OidcClaims { iss: "x".to_string(), ..good.clone() }, "unexpected OIDC issuer"),
        (
            OidcClaims { aud: OidcAudience::Many(Vec::new()), ..good.clone() },
            "unexpected OIDC audience",
        ),
        (OidcClaims { exp: NOW - 1, ..good.clone() }, "OIDC token is expired"),
        (OidcClaims { email: None, ..good.clone() }, "unexpected OIDC email"),
        (OidcClaims { email_verified: false, ..good.clone() }, "OIDC email is not verified"),
        (OidcClaims { nonce: Some("x".to_string()), ..good.clone() }, "unexpected OIDC nonce"),
    ];
    for (claims, reason) in cases {
        assert_eq!(
            check(&provider, &claims, Some("nonce")),
            Err(AuthError::InvalidToken(reason))
        );
    }
}

#[test]
fn keys_of_an_identity_provider_have_to_fit() {
    let mut provider = provider();
    let claims = provider.claims.clone();
    provider.discovery.issuer = "https://other.example/".to_string();
    assert_eq!(
        check(&provider, &claims, None),
        Err(AuthError::InvalidToken("unexpected OIDC discovery issuer"))
    );
    provider.discovery.issuer = provider.identity.issuer_url.clone();

    let good = provider.keys[0].clone();
    provider.keys[0].kid = Some("other".to_string());
    assert_eq!(
        check(&provider, &claims, None),
        Err(AuthError::InvalidToken("no matching OIDC JWK found"))
    );
    provider.keys.push(good.clone());
    check(&provider, &claims, None).unwrap();

    provider.keys = vec![OidcJwk { n: Some("!".to_string()), ..good.clone() }];
    assert!(matches!(check(&provider, &claims, None), Err(AuthError::Base64(_))));
    provider.keys = vec![OidcJwk { n: Some("AQ".to_string()), ..good.clone() }];
    assert_eq!(
        check(&provider, &claims, None),
        Err(AuthError::InvalidKeyMaterial("invalid RSA public key"))
    );

    let secret = p256::SecretKey::from_slice(&[11; 32]).unwrap();
    let signer = p256::ecdsa::SigningKey::from(&secret);
    let point = signer.verifying_key().to_encoded_point(false);
    let input = "e30.e30";
    let signature: p256::ecdsa::Signature = signer.try_sign(input.as_bytes()).unwrap();
    provider.token = format!("{input}.{}", URL_SAFE_NO_PAD.encode(signature.to_bytes()));
    provider.header = Ok(OidcJwtHeader { alg: "ES256".to_string(), kid: None });
    let ec = OidcJwk {
        kty: "EC".to_string(),
        kid: None,
        alg: None,
        n: None,
        e: None,
        crv: Some("P-256".to_string()),
        x: Some(URL_SAFE_NO_PAD.encode(point.x().unwrap())),
        y: Some(URL_SAFE_NO_PAD.encode(point.y().unwrap())),
    };
    provider.keys = vec![ec.clone()];
    check(&provider, &claims, None).unwrap();
    provider.keys = vec![OidcJwk { x: Some("AAAA".to_string()), ..ec.clone() }];
    assert_eq!(
        check(&provider, &claims, None),
        Err(AuthError::InvalidKeyMaterial("invalid P-256 public key coordinates"))
    );
    provider.keys = vec![OidcJwk { x: ec.y.clone(), ..ec }];
    assert_eq!(
        check(&provider, &claims, None),
        Err(AuthError::InvalidKeyMaterial("invalid P-256 public key"))
    );
}
