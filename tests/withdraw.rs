use ff::PrimeField;
use withdraw_batch::transition::index_fits;
use withdraw_batch::crypto::is_on_curve;
use withdraw_batch::merkle::calc_root;
use withdraw_batch::{
    MerkleProof, Money, MpnAccount, Point, Scalar, ShapeError, Siblings, Signature, Withdraw,
    WithdrawCircuit, WithdrawTransition, WithdrawTransitionBatch,
};

type Slot = WithdrawTransition<1, 1>;
type Batch = WithdrawTransitionBatch<1, 1, 1>;
type Circuit = WithdrawCircuit<1, 1, 1>;

const TOKEN_A: u64 = 7;

fn sc(n: u64) -> Scalar {
    Scalar::from_u64(n)
}

fn fr(s: &Scalar) -> zeekit::Fr {
    zeekit::Fr::from_repr(zeekit::FrRepr(s.bytes)).unwrap()
}

fn of_fr(f: zeekit::Fr) -> Scalar {
    Scalar { bytes: f.to_repr().0 }
}

/// The MiMC hash, computed here straight from zeekit.
fn h(xs: &[Scalar]) -> Scalar {
    let v: Vec<zeekit::Fr> = xs.iter().map(fr).collect();
    of_fr(zeekit::mimc::mimc(&v))
}

fn same(a: &Scalar, b: &Scalar) -> bool {
    a.bytes == b.bytes
}

fn point(p: &zeekit::eddsa::PointAffine) -> Point {
    Point { x: of_fr(p.0), y: of_fr(p.1) }
}

/// Siblings of the leaf at `pos` among four leaves.
fn sibs(leaves: &[Scalar; 4], pos: usize) -> MerkleProof {
    let others: Vec<Scalar> = (0..4).filter(|i| *i != pos).map(|i| leaves[i]).collect();
    MerkleProof { levels: vec![Siblings { s0: others[0], s1: others[1], s2: others[2] }] }
}

struct Scenario {
    slot: Slot,
    state: Scalar,
    expected_next: Scalar,
}

/// An account at index 2 holding 100 of token A at balance index 1 and 50
/// of token A at balance index 3, withdrawing 10 with a fee of 1.
fn scenario(balance: u64, amount: u64, nonce: u32) -> Scenario {
    let (_, sk) = zeekit::eddsa::generate_keys(zeekit::Fr::from(123), zeekit::Fr::from(234));
    let key = point(&sk.public_key);
    scenario_at(balance, amount, nonce, key)
}

/// The same withdrawal, from an account whose address is `address`.
fn scenario_at(balance: u64, amount: u64, nonce: u32, address: Point) -> Scenario {
    let (_, sk) = zeekit::eddsa::generate_keys(zeekit::Fr::from(123), zeekit::Fr::from(234));
    let key = point(&sk.public_key);
    let zero = sc(0);
    let token_leaf = h(&[sc(TOKEN_A), sc(balance)]);
    let fee_leaf = h(&[sc(TOKEN_A), sc(50)]);
    let balances = [zero, token_leaf, zero, fee_leaf];
    let before_token_hash = h(&balances);
    let token_left = sc(balance).sub(&sc(amount));
    let new_token_leaf = h(&[sc(TOKEN_A), token_left]);
    let middle = [zero, new_token_leaf, zero, fee_leaf];
    let new_fee_leaf = h(&[sc(TOKEN_A), sc(49)]);
    let final_root = h(&[zero, new_token_leaf, zero, new_fee_leaf]);

    let account_leaf = h(&[sc(0), sc(0), address.x, address.y, before_token_hash]);
    let accounts = [zero, zero, account_leaf, zero];
    let state = h(&accounts);
    let new_account_leaf = h(&[sc(0), sc(1), address.x, address.y, final_root]);
    let expected_next = h(&[zero, zero, new_account_leaf, zero]);

    let fingerprint = sc(555);
    let msg = h(&[fingerprint, sc(nonce as u64)]);
    let sig = zeekit::eddsa::sign(&sk, fr(&msg));
    let slot = WithdrawTransition {
        enabled: true,
        tx: Withdraw {
            index: 2,
            token_index: 1,
            fee_token_index: 3,
            pub_key: key,
            fingerprint,
            nonce,
            sig: Signature { r: point(&sig.r), s: of_fr(sig.s) },
            amount: Money { token_id: sc(TOKEN_A), amount },
            fee: Money { token_id: sc(TOKEN_A), amount: 1 },
        },
        before: MpnAccount { tx_nonce: 0, withdraw_nonce: 0, address },
        before_token_balance: Money { token_id: sc(TOKEN_A), amount: balance },
        before_fee_balance: Money { token_id: sc(TOKEN_A), amount: 50 },
        proof: sibs(&accounts, 2),
        token_balance_proof: sibs(&balances, 1),
        before_token_hash,
        fee_balance_proof: sibs(&middle, 3),
    };
    Scenario { slot, state, expected_next }
}

fn padding_leaf() -> Scalar {
    h(&[sc(0), sc(0), sc(0), sc(0), sc(0), sc(0), sc(0)])
}

fn slot_leaf(t: &Slot) -> Scalar {
    let tx = &t.tx;
    let calldata = h(&[
        tx.pub_key.x,
        tx.pub_key.y,
        sc(tx.nonce as u64),
        tx.sig.r.x,
        tx.sig.r.y,
        tx.sig.s,
    ]);
    h(&[
        sc(1),
        tx.amount.token_id,
        sc(tx.amount.amount),
        tx.fee.token_id,
        sc(tx.fee.amount),
        tx.fingerprint,
        calldata,
    ])
}

fn circuit(slots: Vec<Slot>, state: Scalar, aux: Scalar, next: Scalar) -> Circuit {
    WithdrawCircuit {
        height: 1,
        state,
        aux_data: aux,
        next_state: next,
        transitions: Box::new(Batch::new(slots)),
    }
}

#[test]
fn all_disabled_batch_keeps_state() {
    let state = sc(4242);
    let p = padding_leaf();
    let aux = h(&[p, p, p, p]);
    let c = circuit(vec![], state, aux, state);
    assert_eq!(c.transitions.0.len(), 4);
    assert_eq!(c.check(), Ok(true));
    let moved = circuit(vec![], state, aux, sc(4243));
    assert_eq!(moved.check(), Ok(false));
    let other_aux = circuit(vec![], state, sc(1), state);
    assert_eq!(other_aux.check(), Ok(false));
}

#[test]
fn single_enabled_withdrawal_updates_root() {
    let s = scenario(100, 10, 1);
    let p = padding_leaf();
    let aux = h(&[slot_leaf(&s.slot), p, p, p]);
    let c = circuit(vec![s.slot.clone()], s.state, aux, s.expected_next);
    let (valid, root) = c.transitions.apply(&s.state);
    assert!(valid);
    assert!(same(&root, &s.expected_next));
    assert!(same(&c.transitions.commitment(), &aux));
    assert_eq!(c.check(), Ok(true));
}

#[test]
fn concrete_withdrawal_of_ten_with_fee_of_one() {
    let s = scenario(100, 10, 1);
    let (ok, next) = s.slot.apply(&s.state);
    assert!(ok);
    // The balances become 90 and 49, the withdraw nonce 1.
    let zero = sc(0);
    let final_root = h(&[zero, h(&[sc(TOKEN_A), sc(90)]), zero, h(&[sc(TOKEN_A), sc(49)])]);
    let addr = s.slot.before.address;
    let leaf = h(&[sc(0), sc(1), addr.x, addr.y, final_root]);
    assert!(same(&next, &h(&[zero, zero, leaf, zero])));
}

#[test]
fn tampered_sibling_is_rejected() {
    let s = scenario(100, 10, 1);
    let mut t = s.slot.clone();
    t.proof.levels[0].s0 = sc(1);
    let (ok, _) = t.apply(&s.state);
    assert!(!ok);
    let mut u = s.slot.clone();
    u.token_balance_proof.levels[0].s2.bytes[0] ^= 1;
    assert!(!u.apply(&s.state).0);
}

#[test]
fn tampered_token_id_is_rejected() {
    let s = scenario(100, 10, 1);
    let mut t = s.slot.clone();
    t.tx.amount.token_id = sc(TOKEN_A + 1);
    assert!(!t.apply(&s.state).0);
    let mut u = s.slot.clone();
    u.tx.fee.token_id = sc(TOKEN_A ^ 1);
    assert!(!u.apply(&s.state).0);
}

#[test]
fn tampered_amount_breaks_the_commitment() {
    let s = scenario(100, 10, 1);
    let p = padding_leaf();
    let aux = h(&[slot_leaf(&s.slot), p, p, p]);
    let mut t = s.slot.clone();
    t.tx.amount.amount ^= 1;
    let c = circuit(vec![t], s.state, aux, s.expected_next);
    assert_eq!(c.check(), Ok(false));
}

#[test]
fn tampered_signature_is_rejected() {
    let s = scenario(100, 10, 1);
    let mut t = s.slot.clone();
    t.tx.sig.s.bytes[0] ^= 1;
    assert!(!t.apply(&s.state).0);
}

#[test]
fn replayed_nonce_is_rejected() {
    // Signed properly, but over a nonce that is not withdraw nonce + 1.
    let s = scenario(100, 10, 2);
    assert!(!s.slot.apply(&s.state).0);
    let s0 = scenario(100, 10, 0);
    assert!(!s0.slot.apply(&s0.state).0);
}

#[test]
fn reversed_order_changes_the_root() {
    let a = scenario(100, 10, 1).slot;
    let mut b = scenario(100, 10, 1).slot;
    b.tx.fee.amount = 2;
    let state = sc(9);
    let ab = Batch::new(vec![a.clone(), b.clone()]);
    let ba = Batch::new(vec![b, a]);
    let (_, r1) = ab.apply(&state);
    let (_, r2) = ba.apply(&state);
    assert!(!same(&r1, &r2));
}

#[test]
fn commitment_depends_on_slot_position() {
    let s = scenario(100, 10, 1);
    let first = Batch::new(vec![s.slot.clone()]);
    let second = Batch::new(vec![Slot::default(), s.slot.clone()]);
    assert!(!same(&first.commitment(), &second.commitment()));
}

#[test]
fn wrong_batch_size_is_a_shape_error() {
    let s = scenario(100, 10, 1);
    let slots = vec![s.slot.clone(); 5];
    let c = circuit(slots, s.state, sc(0), s.state);
    assert_eq!(c.check(), Err(ShapeError::BatchSize));
    let short = WithdrawCircuit::<1, 1, 1> {
        height: 0,
        state: s.state,
        aux_data: sc(0),
        next_state: s.state,
        transitions: Box::new(WithdrawTransitionBatch(vec![Slot::default(); 3])),
    };
    assert_eq!(short.check(), Err(ShapeError::BatchSize));
}

#[test]
fn wrong_proof_depth_is_a_shape_error() {
    let s = scenario(100, 10, 1);
    let mut t = s.slot.clone();
    t.fee_balance_proof.levels.push(Siblings { s0: sc(0), s1: sc(0), s2: sc(0) });
    let c = circuit(vec![t], s.state, sc(0), s.state);
    assert_eq!(c.check(), Err(ShapeError::ProofDepth));
}

#[test]
fn padding_is_disabled_and_shaped() {
    let d = WithdrawTransition::<2, 3>::default();
    assert!(!d.enabled);
    assert_eq!(d.proof.levels.len(), 2);
    assert_eq!(d.token_balance_proof.levels.len(), 3);
    assert_eq!(d.fee_balance_proof.levels.len(), 3);
    assert_eq!(d.tx.nonce, d.before.withdraw_nonce + 1);
    let b = WithdrawTransitionBatch::<2, 1, 1>::new(vec![]);
    assert_eq!(b.0.len(), 16);
    assert_eq!(WithdrawTransitionBatch::<2, 1, 1>::capacity_exec(), 16);
    assert_eq!(Batch::capacity_exec(), 4);
}

#[test]
fn underflowing_balance_is_not_rechecked() {
    // 5 - 10 wraps around the field; the circuit does not catch it.
    let s = scenario(5, 10, 1);
    let (ok, root) = s.slot.apply(&s.state);
    assert!(ok);
    assert!(!same(&root, &s.state));
    let wrapped = sc(5).sub(&sc(10));
    assert!(same(&wrapped.add(&sc(5)), &sc(0)));
}

#[test]
fn field_arithmetic() {
    assert!(same(&sc(3).add(&sc(4)), &sc(7)));
    assert!(same(&sc(6).mul(&sc(7)), &sc(42)));
    assert!(same(&sc(10).sub(&sc(4)), &sc(6)));
    assert!(sc(12).equals(&sc(12)));
    assert!(!sc(12).equals(&sc(13)));
    assert!(same(&Scalar::zero(), &Scalar { bytes: [0u8; 32] }));
    assert_eq!(sc(258).bytes[0], 2);
    assert_eq!(sc(258).bytes[1], 1);
}

#[test]
fn from_bytes_takes_canonical_encodings_only() {
    let modulus = sc(0).sub(&sc(1)).add(&sc(0));
    let mut p = modulus.bytes;
    p[0] = p[0].wrapping_add(1);
    assert!(Scalar::from_bytes(p).is_none());
    assert!(Scalar::from_bytes(modulus.bytes).is_some());
    assert!(Scalar::from_bytes([0xff; 32]).is_none());
}

#[test]
fn index_width_checks() {
    assert!(index_fits(15, 2));
    assert!(!index_fits(16, 2));
    assert!(index_fits(0, 0));
    assert!(!index_fits(1, 0));
    assert!(index_fits(u64::MAX, 32));
    assert!(!index_fits(u64::MAX, 31));
}

#[test]
fn curve_membership() {
    let base = point(&zeekit::eddsa::BASE);
    assert!(is_on_curve(&base.x, &base.y));
    assert!(!is_on_curve(&sc(1), &sc(1)));
    assert!(is_on_curve(&sc(0), &sc(1)));
}

#[test]
fn merkle_root_from_each_position() {
    let leaves = [sc(11), sc(22), sc(33), sc(44)];
    let root = h(&leaves);
    for pos in 0..4 {
        let r = calc_root(pos as u64, &leaves[pos], &sibs(&leaves, pos));
        assert!(same(&r, &root));
    }
    let empty = MerkleProof { levels: vec![] };
    assert!(same(&calc_root(3, &sc(5), &empty), &sc(5)));
}

#[test]
fn new_leaf_keeps_account_address() {
    // The account's address differs from the key that signs.
    let address = point(&zeekit::eddsa::BASE);
    let s = scenario_at(100, 10, 1, address);
    assert!(!same(&s.slot.tx.pub_key.x, &address.x));
    let (ok, next) = s.slot.apply(&s.state);
    assert!(ok);
    assert!(same(&next, &s.expected_next));
    let p = padding_leaf();
    let aux = h(&[slot_leaf(&s.slot), p, p, p]);
    let c = circuit(vec![s.slot.clone()], s.state, aux, s.expected_next);
    assert_eq!(c.check(), Ok(true));
}

#[test]
fn default_batch_is_all_padding() {
    let b = Batch::default();
    assert_eq!(b.0.len(), 4);
    let p = padding_leaf();
    assert!(same(&b.commitment(), &h(&[p, p, p, p])));
    assert_eq!(WithdrawTransitionBatch::<40, 1, 1>::capacity_checked(), None);
    assert_eq!(WithdrawTransitionBatch::<40, 1, 1>::default().0.len(), 0);
    assert_eq!(Batch::capacity_checked(), Some(4));
}

#[test]
fn padding_is_the_same_record_everywhere() {
    let s = scenario(100, 10, 1);
    let t = scenario(100, 20, 1);
    let a = Batch::new(vec![s.slot.clone()]);
    let b = Batch::new(vec![t.slot.clone()]);
    for i in 1..4 {
        let (x, y) = (&a.0[i], &b.0[i]);
        assert!(!x.enabled && !y.enabled);
        assert_eq!(x.tx.nonce, 1);
        assert!(same(&x.tx.pub_key.x, &Scalar::zero()));
        assert!(same(&x.before_token_hash, &y.before_token_hash));
        assert_eq!(x.proof.levels.len(), y.proof.levels.len());
        assert!(same(&x.fee_balance_proof.levels[0].s1, &Scalar::zero()));
    }
}
