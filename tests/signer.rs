use base64::Engine;
use jwt_project::credentials::Credentials;
use jwt_project::exchange::exchange_outcome;
use jwt_project::signer::{sign, Claims, SigningError, HEADER_JSON, TOKEN_LIFETIME_SECS};

const TEST_KEY_LINES: [&str; 25] = [
    "MIIEpAIBAAKCAQEAvBk84lim3izVT+RZ+rOzxyI3meubqrxgFanEpZhhy1a9/D3g",
    "SG36VzRb3iyVpctdpocQFqtad5FcIVh8LQ5+0wA3mvzK5D05T64dlqDiXk0+ohv/",
    "7x6MdjtJCpsiR/gUU0Xucle5dDKKQWZ6m6fnOeK/QeaKyTIAwEfDrAtEk4yAULFa",
    "4s4BFxtIBfw/1IVKiC43zQ+zoVJ+2ZHzMokhkmOOeukQnqyNAA7Qp00+wO3FpwYZ",
    "wEuWwKm7uKMnJAeQ5M8Ws6nQS0D/oATyC1gfAfQC2U8BHQBLNIbRQHInYOL64JEY",
    "0vzUlgkpIOTiTFzxfqi8JxGkhtXFFTMMtlzP3wIDAQABAoIBABaf5yxcjcRchSiF",
    "EXOaaNiIxkJRI29fwCOVliMgQecONG+M1mzahEmNRog3OaVwYX/VxWV3T+bg3kGJ",
    "M0p3cLbFfcAP1wGpVuWSzllKBGBjudG653JmF264hnpsRYJ9lZ2cjufu+E4V2X5b",
    "VV+39ukwsQuRWjEwFAS3Z72fugG7KAuGSwaf9CgIhtuOaUoI7YIi8hy1FILm9ih/",
    "nIUbR3ZuACfAHm8QMf6GgJW746Lo1FzJ+K0ZvcJjHn6HMbMSnzz3+RkphLu96Hqb",
    "mehmklnjLE3wZ0jin+mjDbn0qBEJHYAnSQ614wAMlcvZWgTmY4brTFSzS3gBhDF1",
    "x21LjYkCgYEA89G7P6TclwrCINq5SQ5ScSVhgipx2lYYCDVI/bYGhn6WXhNEUu9h",
    "s/1YbnFwTnrQ2bwSsmfAjd8sz5XKxAaYXRfVfjHCOSHIgML1HWe1DY6hbWuGvFjH",
    "pQ0nkpH4U9Qv5kTSJPnJGv4Tlp6c+4GzJTGOjjcr0ZMuzAoYMXo3jqcCgYEAxX7h",
    "SFC93cUpP+QdbrxMHoTg/6tV4ZCdCpBq2iEf9tX8P7mm3hbpmluhfiipnBDQ75xZ",
    "Uv38y8SxAwKqp3IkXOw3EIRJrlzgAST4msiniqgCE2dRfLUMGrz9BthFOddz2Wmu",
    "S+gAfkSihVj7uTAMvitxCGaWMZY5yefgCpDWVAkCgYEAlRxe971LatQZhR4+0n7/",
    "zFKgH4r1tiGQ8PQlf4Qi2X3xV/dQgagEiJ8XxfN6S4Sw1Xg/tvvctucV8J4bM2cV",
    "J1m8J0EnFumiRZz1atZR08i20MRB0k45SqeQ3AKJbDsIUDsmiZZ5dxiLwkGen/Hi",
    "LYzxMehr0++/XumNgjTMZWECgYAqLhAVbtEuRUarE6BJn0OunPilAkXkWAuCTxfT",
    "IJIAGPG39oGyGzinM/zIwgx/fYPyOPVG6WINbyPTHcWu34zun7CfAXHvIHzjIa9K",
    "96H41isjU8SumshMCaMMzDH0yZQ/kfec1J8OWMBRNJEGm0GNeB+7CJX5XzlWawSJ",
    "nSd5aQKBgQDKHEPkhrDNJrl7smKcubWws+fmCIIzjJIY1wDb61x+UHlMqhNC6X0F",
    "jl/DZBCNK21AYLkt3f36NyL3Y+ZQRyxQt9ae7ojVNtFI9JGL249joRfyzBVvZNeC",
    "qdoy+RLOQA44krmcyFGvMgFLxRiV6kCcBwXgMgQLYFP49QGFK/Qn3A==",
];

const PUBLIC_KEY: &str = "-----BEGIN RSA PUBLIC KEY-----\n\
MIIBCgKCAQEAvBk84lim3izVT+RZ+rOzxyI3meubqrxgFanEpZhhy1a9/D3gSG36\n\
VzRb3iyVpctdpocQFqtad5FcIVh8LQ5+0wA3mvzK5D05T64dlqDiXk0+ohv/7x6M\n\
djtJCpsiR/gUU0Xucle5dDKKQWZ6m6fnOeK/QeaKyTIAwEfDrAtEk4yAULFa4s4B\n\
FxtIBfw/1IVKiC43zQ+zoVJ+2ZHzMokhkmOOeukQnqyNAA7Qp00+wO3FpwYZwEuW\n\
wKm7uKMnJAeQ5M8Ws6nQS0D/oATyC1gfAfQC2U8BHQBLNIbRQHInYOL64JEY0vzU\n\
lgkpIOTiTFzxfqi8JxGkhtXFFTMMtlzP3wIDAQAB\n\
-----END RSA PUBLIC KEY-----\n";

const NOW: u64 = 1_700_000_000;

/// The test signing key in PEM form, framed from its base64 lines.
fn private_key_pem() -> String {
    let label = ["RSA", "PRIVATE", "KEY"].join(" ");
    format!("-----BEGIN {label}-----\n{}\n-----END {label}-----\n", TEST_KEY_LINES.join("\n"))
}

fn creds(client: &str, key_id: &str, uri: &str, pem: &str) -> Credentials {
    Credentials::new(client.to_string(), key_id.to_string(), uri.to_string(), pem.to_string())
        .unwrap()
}

fn example() -> Credentials {
    creds("svc1", "k1", "https://auth.example/token", &private_key_pem())
}

fn segments(token: &str) -> Vec<String> {
    token.split('.').map(|s| s.to_string()).collect()
}

fn decode_segment(seg: &str) -> serde_json::Value {
    let bytes = base64::engine::general_purpose::URL_SAFE_NO_PAD.decode(seg).unwrap();
    serde_json::from_slice(&bytes).unwrap()
}

#[test]
fn token_has_three_segments() {
    let token = sign(&example(), NOW).unwrap();
    assert_eq!(token.matches('.').count(), 2);
    let parts = segments(&token);
    assert_eq!(parts.len(), 3);
    for p in parts {
        assert!(!p.is_empty());
        assert!(p.chars().all(|c| c.is_ascii_alphanumeric() || c == '-' || c == '_'));
    }
}

#[test]
fn header_segment_names_rs256() {
    let token = sign(&example(), NOW).unwrap();
    let header = decode_segment(&segments(&token)[0]);
    assert_eq!(header["alg"], "RS256");
    assert_eq!(header["typ"], "JWT");
    let raw = base64::engine::general_purpose::URL_SAFE_NO_PAD.decode(&segments(&token)[0]).unwrap();
    assert_eq!(String::from_utf8(raw).unwrap(), HEADER_JSON);
}

#[test]
fn claims_segment_holds_credentials() {
    let token = sign(&example(), NOW).unwrap();
    let claims = decode_segment(&segments(&token)[1]);
    assert_eq!(claims["iss"], "svc1");
    assert_eq!(claims["sub"], "svc1");
    assert_eq!(claims["aud"], "https://auth.example/token");
    assert_eq!(claims["key"], "k1");
    assert_eq!(claims["exp"].as_u64().unwrap(), NOW + 3600);
    assert_eq!(claims.as_object().unwrap().len(), 5);
}

#[test]
fn signing_at_different_times_differs() {
    let c = example();
    let a = sign(&c, NOW).unwrap();
    let b = sign(&c, NOW + 1).unwrap();
    assert_ne!(a, b);
    assert_ne!(segments(&a)[1], segments(&b)[1]);
    assert_ne!(segments(&a)[2], segments(&b)[2]);
    assert_eq!(segments(&a)[0], segments(&b)[0]);
}

#[test]
fn malformed_pem_is_rejected() {
    let label = ["RSA", "PRIVATE", "KEY"].join(" ");
    let framed = format!("-----BEGIN {label}-----\nnot a key\n-----END {label}-----\n");
    let c = creds("svc1", "k1", "https://auth.example/token", &framed);
    assert_eq!(sign(&c, NOW), Err(SigningError::InvalidKey));
    let c = creds("svc1", "k1", "https://auth.example/token", "garbage");
    assert_eq!(sign(&c, NOW), Err(SigningError::InvalidKey));
}

#[test]
fn public_key_cannot_sign() {
    let c = creds("svc1", "k1", "https://auth.example/token", PUBLIC_KEY);
    assert_eq!(sign(&c, NOW), Err(SigningError::SigningFailed));
}

#[test]
fn signature_verifies_with_public_key() {
    let now = std::time::SystemTime::now()
        .duration_since(std::time::UNIX_EPOCH)
        .unwrap()
        .as_secs();
    let token = sign(&example(), now).unwrap();
    let key = jsonwebtoken::DecodingKey::from_rsa_pem(PUBLIC_KEY.as_bytes()).unwrap();
    let mut validation = jsonwebtoken::Validation::new(jsonwebtoken::Algorithm::RS256);
    validation.set_audience(&["https://auth.example/token"]);
    let data = jsonwebtoken::decode::<serde_json::Value>(&token, &key, &validation).unwrap();
    assert_eq!(data.claims["exp"].as_u64().unwrap(), now + TOKEN_LIFETIME_SECS);
    assert_eq!(data.header.alg, jsonwebtoken::Algorithm::RS256);
}

#[test]
fn end_to_end_outputs_response_body() {
    let now = std::time::SystemTime::now()
        .duration_since(std::time::UNIX_EPOCH)
        .unwrap()
        .as_secs();
    let token = sign(&example(), now).unwrap();
    let key = jsonwebtoken::DecodingKey::from_rsa_pem(PUBLIC_KEY.as_bytes()).unwrap();
    let mut validation = jsonwebtoken::Validation::new(jsonwebtoken::Algorithm::RS256);
    validation.set_audience(&["https://auth.example/token"]);
    let accepted = jsonwebtoken::decode::<serde_json::Value>(&token, &key, &validation).is_ok();
    let (status, body) = if accepted {
        (200, "{\"access_token\":\"xyz\"}".to_string())
    } else {
        (401, String::new())
    };
    let out = exchange_outcome(status, Some(body));
    assert_eq!(out, Ok("{\"access_token\":\"xyz\"}".to_string()));
}

#[test]
fn claims_json_is_exact() {
    let c = creds("svc1", "k1", "https://auth.example/token", &private_key_pem());
    let claims = Claims::for_credentials(&c, 5);
    assert_eq!(claims.exp, 3605);
    assert_eq!(
        claims.to_json(),
        "{\"iss\":\"svc1\",\"key\":\"k1\",\"aud\":\"https://auth.example/token\",\"sub\":\"svc1\",\"exp\":3605}"
    );
}

#[test]
fn claims_json_escapes_strings() {
    let c = creds("a\"b\\c", "tab\there\n", "x\u{1}y", &private_key_pem());
    let claims = Claims::for_credentials(&c, 0);
    let text = claims.to_json();
    assert_eq!(
        text,
        "{\"iss\":\"a\\\"b\\\\c\",\"key\":\"tab\\there\\n\",\"aud\":\"x\\u0001y\",\"sub\":\"a\\\"b\\\\c\",\"exp\":3600}"
    );
    let parsed: serde_json::Value = serde_json::from_str(&text).unwrap();
    assert_eq!(parsed["iss"], "a\"b\\c");
    assert_eq!(parsed["key"], "tab\there\n");
    assert_eq!(parsed["aud"], "x\u{1}y");
}

#[test]
fn claims_json_keeps_unicode() {
    let c = creds("dienst-ü", "ключ", "https://auth.example/token", &private_key_pem());
    let text = Claims::for_credentials(&c, 1).to_json();
    let parsed: serde_json::Value = serde_json::from_str(&text).unwrap();
    assert_eq!(parsed["iss"], "dienst-ü");
    assert_eq!(parsed["key"], "ключ");
    assert_eq!(parsed["exp"], 3601);
}

#[test]
fn largest_signing_time_is_accepted() {
    let c = creds("svc1", "k1", "https://auth.example/token", &private_key_pem());
    let claims = Claims::for_credentials(&c, u64::MAX - 3600);
    assert_eq!(claims.exp, u64::MAX);
    assert!(claims.to_json().ends_with(",\"exp\":18446744073709551615}"));
}

#[test]
fn signing_at_one_time_is_repeatable() {
    let c = example();
    let a = sign(&c, NOW).unwrap();
    let b = sign(&c, NOW).unwrap();
    assert_eq!(a, b);
    assert!(!segments(&a)[2].is_empty());
}
