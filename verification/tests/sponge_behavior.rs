use tiny_keccak::keccak256;
use tiny_keccak::Keccak;

fn counter_bytes(len: usize) -> Vec<u8> {
    let mut v: Vec<u8> = Vec::with_capacity(len);
    for i in 0usize..len {
        v.push((i.wrapping_mul(31) % 256) as u8);
    }
    v
}

fn digest_in_chunks(message: &[u8], splits: &[usize]) -> [u8; 32] {
    let mut session = Keccak::new_keccak256();
    let mut start: usize = 0;
    for &split in splits {
        session.update(&message[start..split]);
        start = split;
    }
    session.update(&message[start..]);
    let mut out = [0u8; 32];
    session.finalize(&mut out);
    out
}

#[test]
fn determinism_across_calls() {
    let message = counter_bytes(500);
    assert_eq!(keccak256(&message), keccak256(&message));
}

#[test]
fn chunking_independence_arbitrary_splits() {
    let message = counter_bytes(300);
    let whole = keccak256(&message);
    assert_eq!(digest_in_chunks(&message, &[]), whole);
    assert_eq!(digest_in_chunks(&message, &[1]), whole);
    assert_eq!(digest_in_chunks(&message, &[17, 100, 250]), whole);
    assert_eq!(digest_in_chunks(&message, &[299]), whole);
}

#[test]
fn chunking_independence_rate_boundary_splits() {
    let message = counter_bytes(300);
    let whole = keccak256(&message);
    assert_eq!(digest_in_chunks(&message, &[135]), whole);
    assert_eq!(digest_in_chunks(&message, &[136]), whole);
    assert_eq!(digest_in_chunks(&message, &[137]), whole);
    assert_eq!(digest_in_chunks(&message, &[136, 272]), whole);
}

#[test]
fn chunking_independence_empty_chunks() {
    let message = counter_bytes(200);
    let whole = keccak256(&message);
    assert_eq!(digest_in_chunks(&message, &[0]), whole);
    assert_eq!(digest_in_chunks(&message, &[0, 0, 50, 50, 200]), whole);
}

#[test]
fn chunking_independence_byte_by_byte() {
    let message = counter_bytes(150);
    let mut session = Keccak::new_keccak256();
    for &b in &message {
        session.update(&[b]);
    }
    let mut out = [0u8; 32];
    session.finalize(&mut out);
    assert_eq!(out, keccak256(&message));
}

#[test]
fn cloned_sessions_diverge_independently() {
    let common = counter_bytes(100);
    let mut base = Keccak::new_keccak256();
    base.update(&common);

    let mut left = base.clone();
    let mut right = base.clone();
    left.update(b"left branch");
    right.update(b"right branch");

    let mut left_digest = [0u8; 32];
    let mut right_digest = [0u8; 32];
    left.finalize(&mut left_digest);
    right.finalize(&mut right_digest);
    assert_ne!(left_digest, right_digest);

    let mut left_whole = common.clone();
    left_whole.extend_from_slice(b"left branch");
    let mut right_whole = common.clone();
    right_whole.extend_from_slice(b"right branch");
    assert_eq!(left_digest, keccak256(&left_whole));
    assert_eq!(right_digest, keccak256(&right_whole));
}

#[test]
fn reset_restores_a_fresh_session() {
    let mut session = Keccak::new_keccak256();
    session.update(b"something already absorbed");
    let mut thrown_away = [0u8; 32];
    session.finalize(&mut thrown_away);

    session.reset();
    session.update(b"abc");
    let mut out = [0u8; 32];
    session.finalize(&mut out);
    assert_eq!(out, keccak256(b"abc"));
}

// pad, then the permutation, then squeeze is exactly what finalize does.
#[test]
fn low_level_calls_compose_to_finalize() {
    let message = counter_bytes(50);
    let mut session = Keccak::new_keccak256();
    session.update(&message);
    session.pad();
    session.keccakf();
    let mut out = [0u8; 32];
    session.squeeze(&mut out);
    assert_eq!(out, keccak256(&message));
}

// fill_block permutes and resets the offset, so it can stand in for the
// permutation call inside finalize.
#[test]
fn fill_block_permutes_the_state() {
    let mut session = Keccak::new_keccak256();
    session.pad();
    session.fill_block();
    let mut out = [0u8; 32];
    session.squeeze(&mut out);
    assert_eq!(out, keccak256(&[]));
}

#[test]
fn absorb_is_update() {
    let message = counter_bytes(140);
    let mut session = Keccak::new_keccak256();
    session.absorb(&message);
    let mut out = [0u8; 32];
    session.finalize(&mut out);
    assert_eq!(out, keccak256(&message));
}

#[test]
fn different_messages_give_different_digests() {
    assert_ne!(keccak256(b"a"), keccak256(b"b"));
    assert_ne!(keccak256(&[]), keccak256(&[0u8]));
    assert_ne!(keccak256(&counter_bytes(135)), keccak256(&counter_bytes(136)));
}
