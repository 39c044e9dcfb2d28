use hook_listener::body::{concat_chunks, BodyAccumulator};
use hook_listener::headers::{classify, find_header, Header};
use hook_listener::pipeline::{
    routing_key, Action, Event, Failure, Gateway, Ingestion, QueueRecord, Stage,
};
use hook_listener::signature::{Verifier, VerifyError};

const SECRET: &str = "topsecret";
const BODY: &[u8] = b"{\"a\":1}";

fn tag_hex(secret: &[u8], body: &[u8]) -> String {
    let key = ring::hmac::Key::new(ring::hmac::HMAC_SHA1_FOR_LEGACY_USE_ONLY, secret);
    hex::encode(ring::hmac::sign(&key, body).as_ref())
}

fn signed(secret: &[u8], body: &[u8]) -> Vec<u8> {
    format!("sha1={}", tag_hex(secret, body)).into_bytes()
}

fn header(name: &str, value: &[u8]) -> Header {
    Header { name: name.as_bytes().to_vec(), value: value.to_vec() }
}

fn test_verifier() -> Verifier {
    Verifier::new(SECRET.as_bytes().to_vec())
}

fn gateway() -> Gateway {
    Gateway::new(SECRET.as_bytes().to_vec())
}

fn expect_produce(a: Action) -> QueueRecord {
    match a {
        Action::Produce(rec) => rec,
        other => panic!("expected a record, got {:?}", other),
    }
}

fn expect_status(a: Action, status: u16, body: &[u8]) {
    match a {
        Action::Respond(resp) => {
            assert_eq!(resp.status, status);
            assert_eq!(resp.body, body.to_vec());
        }
        other => panic!("expected a response, got {:?}", other),
    }
}

fn deliver(g: &Gateway, path: &str, headers: Vec<Header>, chunks: &[&[u8]]) -> (Ingestion, Action) {
    let mut ing = g.start(path.as_bytes().to_vec(), headers);
    for c in chunks {
        let a = g.step(&mut ing, Event::Chunk(c.to_vec()));
        assert!(matches!(a, Action::AwaitChunk));
    }
    let a = g.step(&mut ing, Event::BodyEnded);
    (ing, a)
}

#[test]
fn signed_header_is_accepted() {
    let v = test_verifier();
    assert_eq!(v.check(BODY, &signed(SECRET.as_bytes(), BODY)), Ok(()));
    assert_eq!(v.check(b"", &signed(SECRET.as_bytes(), b"")), Ok(()));
}

#[test]
fn uppercase_digest_is_accepted() {
    let v = test_verifier();
    let h = format!("sha1={}", tag_hex(SECRET.as_bytes(), BODY).to_uppercase());
    assert_eq!(v.check(BODY, h.as_bytes()), Ok(()));
}

#[test]
fn single_bit_flip_is_a_mismatch() {
    let v = test_verifier();
    let h = signed(SECRET.as_bytes(), BODY);
    for i in 0..BODY.len() {
        for bit in 0..8 {
            let mut m = BODY.to_vec();
            m[i] ^= 1 << bit;
            assert_eq!(v.check(&m, &h), Err(VerifyError::SignatureMismatch));
        }
    }
}

#[test]
fn other_secret_is_a_mismatch() {
    let v = test_verifier();
    assert_eq!(v.check(BODY, &signed(b"othersecret", BODY)), Err(VerifyError::SignatureMismatch));
}

#[test]
fn header_without_separator_is_malformed() {
    let v = test_verifier();
    assert_eq!(v.check(BODY, b"sha1"), Err(VerifyError::MalformedHeader));
    assert_eq!(v.check(BODY, b""), Err(VerifyError::MalformedHeader));
}

#[test]
fn header_with_two_separators_is_malformed() {
    let v = test_verifier();
    let mut h = signed(SECRET.as_bytes(), BODY);
    h.extend_from_slice(b"=");
    assert_eq!(v.check(BODY, &h), Err(VerifyError::MalformedHeader));
    assert_eq!(v.check(BODY, b"sha1=zz=zz"), Err(VerifyError::MalformedHeader));
}

#[test]
fn other_algorithm_is_unsupported() {
    let v = test_verifier();
    let good = tag_hex(SECRET.as_bytes(), BODY);
    assert_eq!(v.check(BODY, format!("sha256={}", good).as_bytes()), Err(VerifyError::UnsupportedAlgorithm));
    assert_eq!(v.check(BODY, format!("SHA1={}", good).as_bytes()), Err(VerifyError::UnsupportedAlgorithm));
    assert_eq!(v.check(BODY, b"md5=not-hex"), Err(VerifyError::UnsupportedAlgorithm));
}

#[test]
fn bad_hex_is_a_malformed_signature() {
    let v = test_verifier();
    assert_eq!(v.check(BODY, b"sha1=abc"), Err(VerifyError::MalformedSignature));
    assert_eq!(v.check(BODY, b"sha1=zz"), Err(VerifyError::MalformedSignature));
}

#[test]
fn short_digest_is_a_mismatch() {
    let v = test_verifier();
    assert_eq!(v.check(BODY, b"sha1="), Err(VerifyError::SignatureMismatch));
    assert_eq!(v.check(BODY, b"sha1=00ff"), Err(VerifyError::SignatureMismatch));
}

#[test]
fn missing_event_header_routes_unknown() {
    let g = gateway();
    let hs = vec![header("x-hub-signature", &signed(SECRET.as_bytes(), BODY))];
    assert_eq!(classify(&hs), b"unknown".to_vec());
    let rec = g.prepare(b"org/repo", &hs, BODY).unwrap();
    assert_eq!(rec.key, b"org/repo/unknown".to_vec());
    assert_eq!(rec.content, BODY.to_vec());
}

#[test]
fn header_names_ignore_case() {
    let hs = vec![
        header("Content-Type", b"application/json"),
        header("X-GitHub-Event", b"push"),
        header("x-github-event", b"later"),
    ];
    assert_eq!(classify(&hs), b"push".to_vec());
    assert_eq!(find_header(&hs, b"content-type"), Some(b"application/json".to_vec()));
    assert_eq!(find_header(&hs, b"x-hub-signature"), None);
}

#[test]
fn event_is_decoded_lossily() {
    let hs = vec![header("x-github-event", b"pu\xffsh")];
    assert_eq!(classify(&hs), "pu\u{FFFD}sh".as_bytes().to_vec());
}

#[test]
fn routing_key_joins_path_and_event() {
    assert_eq!(routing_key(b"a/b/c", b"push"), b"a/b/c/push".to_vec());
    assert_eq!(routing_key(b"", b""), b"/".to_vec());
}

#[test]
fn chunks_are_concatenated_in_order() {
    let chunks = vec![b"ab".to_vec(), Vec::new(), b"cde".to_vec()];
    assert_eq!(concat_chunks(&chunks), b"abcde".to_vec());
    let mut acc = BodyAccumulator::new();
    acc.push(b"x");
    acc.push(b"yz");
    assert_eq!(acc.finish(), b"xyz".to_vec());
}

#[test]
fn scenario_signed_delivery_is_stored_and_acknowledged() {
    let g = gateway();
    let hs = vec![
        header("x-hub-signature", &signed(SECRET.as_bytes(), BODY)),
        header("x-github-event", b"push"),
    ];
    let (mut ing, a) = deliver(&g, "org/repo", hs, &[BODY]);
    let rec = expect_produce(a);
    assert_eq!(rec.key, b"org/repo/push".to_vec());
    assert_eq!(rec.content, BODY.to_vec());
    assert_eq!(ing.stage, Stage::Enqueuing);
    expect_status(g.step(&mut ing, Event::Appended), 200, b"ok\n");
    assert_eq!(ing.stage, Stage::Succeeded);
}

#[test]
fn scenario_flipped_digest_is_refused() {
    let g = gateway();
    let mut sig = signed(SECRET.as_bytes(), BODY);
    let last = sig.len() - 1;
    sig[last] = if sig[last] == b'0' { b'1' } else { b'0' };
    let hs = vec![header("x-hub-signature", &sig)];
    let (ing, a) = deliver(&g, "org/repo", hs, &[BODY]);
    expect_status(a, 400, b"");
    assert_eq!(ing.stage, Stage::Failed(Failure::InvalidSignature(VerifyError::SignatureMismatch)));
}

#[test]
fn scenario_chunked_body_is_transparent() {
    let g = gateway();
    let hs = vec![header("x-hub-signature", &signed(SECRET.as_bytes(), BODY))];
    let (_, whole) = deliver(&g, "org/repo", hs.clone(), &[BODY]);
    let (mut ing, split) = deliver(&g, "org/repo", hs, &[&BODY[..2], &BODY[2..3], &BODY[3..]]);
    let a = expect_produce(whole);
    let b = expect_produce(split);
    assert_eq!(a.key, b.key);
    assert_eq!(b.content, BODY.to_vec());
    assert_eq!(a.content, b.content);
    expect_status(g.step(&mut ing, Event::Appended), 200, b"ok\n");
}

#[test]
fn scenario_two_paths_each_get_their_record() {
    let g = gateway();
    let hs = vec![header("x-hub-signature", &signed(SECRET.as_bytes(), BODY))];
    let mut first = g.start(b"one".to_vec(), hs.clone());
    let mut second = g.start(b"two".to_vec(), hs);
    g.step(&mut first, Event::Chunk(BODY.to_vec()));
    g.step(&mut second, Event::Chunk(BODY.to_vec()));
    let r2 = expect_produce(g.step(&mut second, Event::BodyEnded));
    let r1 = expect_produce(g.step(&mut first, Event::BodyEnded));
    assert_eq!(r1.key, b"one/unknown".to_vec());
    assert_eq!(r2.key, b"two/unknown".to_vec());
    expect_status(g.step(&mut second, Event::Appended), 200, b"ok\n");
    expect_status(g.step(&mut first, Event::Appended), 200, b"ok\n");
}

#[test]
fn redelivery_is_forwarded_again() {
    let g = gateway();
    let hs = vec![header("x-hub-signature", &signed(SECRET.as_bytes(), BODY))];
    let (_, a) = deliver(&g, "org/repo", hs.clone(), &[BODY]);
    let (_, b) = deliver(&g, "org/repo", hs, &[BODY]);
    let a = expect_produce(a);
    let b = expect_produce(b);
    assert_eq!(a.key, b.key);
    assert_eq!(a.content, b.content);
}

#[test]
fn missing_signature_is_refused() {
    let g = gateway();
    let hs = vec![header("x-github-event", b"push")];
    assert_eq!(g.prepare(b"p", &hs, BODY).err(), Some(Failure::MissingSignature));
    let (ing, a) = deliver(&g, "p", hs, &[BODY]);
    expect_status(a, 400, b"");
    assert_eq!(ing.stage, Stage::Failed(Failure::MissingSignature));
}

#[test]
fn broken_body_is_refused() {
    let g = gateway();
    let hs = vec![header("x-hub-signature", &signed(SECRET.as_bytes(), BODY))];
    let mut ing = g.start(b"p".to_vec(), hs);
    g.step(&mut ing, Event::Chunk(b"{\"a\"".to_vec()));
    expect_status(g.step(&mut ing, Event::BodyFailed), 400, b"");
    assert_eq!(ing.stage, Stage::Failed(Failure::BodyReadError));
    assert!(matches!(g.step(&mut ing, Event::BodyEnded), Action::Ignore));
}

#[test]
fn failed_append_is_a_server_error() {
    let g = gateway();
    let hs = vec![header("x-hub-signature", &signed(SECRET.as_bytes(), BODY))];
    let (mut ing, a) = deliver(&g, "p", hs, &[BODY]);
    expect_produce(a);
    assert!(matches!(g.step(&mut ing, Event::Chunk(b"late".to_vec())), Action::Ignore));
    expect_status(g.step(&mut ing, Event::AppendFailed), 500, b"");
    assert_eq!(ing.stage, Stage::Failed(Failure::QueueWriteError));
}
