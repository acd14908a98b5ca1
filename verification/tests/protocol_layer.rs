use provable_query::protocol::{commit, Transcript, DIGEST_BASE};
use provable_query::scalar::Scalar;

#[test]
fn transcript_challenges_are_deterministic() {
    let mut a = Transcript::new();
    let mut b = Transcript::new();
    for m in [3u64, 1, 4] {
        a.append_message(m);
        b.append_message(m);
    }
    assert_eq!(a.challenge(), b.challenge());
    b.append_message(1);
    assert_ne!(a.challenge(), b.challenge());
}

#[test]
fn transcript_challenge_has_an_exact_value() {
    let mut t = Transcript::new();
    assert_eq!(t.challenge(), 0);
    t.append_message(7);
    assert_eq!(t.challenge(), 7);
    t.append_message(2);
    assert_eq!(t.challenge(), 7 * DIGEST_BASE + 2);
}

#[test]
fn commitments_bind_the_scalar_image() {
    let xs = vec![Scalar::new(1), Scalar::new(2)];
    let ys = vec![Scalar::new(1), Scalar::new(2)];
    let zs = vec![Scalar::new(2), Scalar::new(1)];
    assert_eq!(commit(&xs), commit(&ys));
    assert_ne!(commit(&xs), commit(&zs));
    assert_eq!(commit(&xs).digest, DIGEST_BASE + 2);
    assert_eq!(commit(&Vec::new()).digest, 0);
}
