//! The hash, the signature check and the curve of the proof system, as
//! `zeekit` provides them natively.
use crate::field::{limbs_value, modulus, Scalar};
use ff::PrimeField;
use vstd::arithmetic::div_mod::{
    lemma_add_mod_noop_right, lemma_mul_mod_noop, lemma_mul_mod_noop_right,
    lemma_sub_mod_noop,
};
use vstd::prelude::*;

verus! {

/// What `zeekit::mimc::mimc` returns on field elements of these values.
pub uninterp spec fn mimc_of(inputs: Seq<int>) -> int;

/// Whether `zeekit::eddsa::verify` accepts the signature `(r, s)` of `msg`
/// under the public key `(pk_x, pk_y)`.
pub uninterp spec fn eddsa_accepts(pk_x: int, pk_y: int, msg: int, r_x: int, r_y: int, s: int) -> bool;

/// The values of a sequence of scalars.
pub open spec fn values(s: Seq<Scalar>) -> Seq<int> {
    s.map_values(|x: Scalar| x.fe())
}

/// All scalars of the sequence are well formed.
pub open spec fn all_wf(s: Seq<Scalar>) -> bool {
    forall|i: int| 0 <= i < s.len() ==> (#[trigger] s[i]).wf()
}

/// Relies on `zeekit::mimc::mimc`, which asks for at least two inputs and
/// returns a field element that depends on their values alone.
#[verifier::external_body]
pub fn hash(inputs: &Vec<Scalar>) -> (r: Scalar)
    requires
        inputs@.len() >= 2,
        all_wf(inputs@),
    ensures
        r.wf(),
        r.fe() == mimc_of(values(inputs@)),
{
    let v: Vec<zeekit::Fr> =
        inputs.iter().map(|s| zeekit::Fr::from_repr(zeekit::FrRepr(s.bytes)).unwrap()).collect();
    Scalar { bytes: zeekit::mimc::mimc(&v).to_repr().0 }
}

/// The hash of two elements.
pub fn hash2(a: &Scalar, b: &Scalar) -> (r: Scalar)
    requires
        a.wf(),
        b.wf(),
    ensures
        r.wf(),
        r.fe() == mimc_of(seq![a.fe(), b.fe()]),
{
    let v = vec![*a, *b];
    assert(values(v@) =~= seq![a.fe(), b.fe()]);
    hash(&v)
}

/// The hash of four elements.
pub fn hash4(a: &Scalar, b: &Scalar, c: &Scalar, d: &Scalar) -> (r: Scalar)
    requires
        a.wf(),
        b.wf(),
        c.wf(),
        d.wf(),
    ensures
        r.wf(),
        r.fe() == mimc_of(seq![a.fe(), b.fe(), c.fe(), d.fe()]),
{
    let v = vec![*a, *b, *c, *d];
    assert(values(v@) =~= seq![a.fe(), b.fe(), c.fe(), d.fe()]);
    hash(&v)
}

/// The hash of five elements.
pub fn hash5(a: &Scalar, b: &Scalar, c: &Scalar, d: &Scalar, e: &Scalar) -> (r: Scalar)
    requires
        a.wf(),
        b.wf(),
        c.wf(),
        d.wf(),
        e.wf(),
    ensures
        r.wf(),
        r.fe() == mimc_of(seq![a.fe(), b.fe(), c.fe(), d.fe(), e.fe()]),
{
    let v = vec![*a, *b, *c, *d, *e];
    assert(values(v@) =~= seq![a.fe(), b.fe(), c.fe(), d.fe(), e.fe()]);
    hash(&v)
}

/// The hash of six elements.
pub fn hash6(a: &Scalar, b: &Scalar, c: &Scalar, d: &Scalar, e: &Scalar, f: &Scalar) -> (r: Scalar)
    requires
        a.wf(),
        b.wf(),
        c.wf(),
        d.wf(),
        e.wf(),
        f.wf(),
    ensures
        r.wf(),
        r.fe() == mimc_of(seq![a.fe(), b.fe(), c.fe(), d.fe(), e.fe(), f.fe()]),
{
    let v = vec![*a, *b, *c, *d, *e, *f];
    assert(values(v@) =~= seq![a.fe(), b.fe(), c.fe(), d.fe(), e.fe(), f.fe()]);
    hash(&v)
}

/// The hash of seven elements.
pub fn hash7(
    a: &Scalar,
    b: &Scalar,
    c: &Scalar,
    d: &Scalar,
    e: &Scalar,
    f: &Scalar,
    g: &Scalar,
) -> (r: Scalar)
    requires
        a.wf(),
        b.wf(),
        c.wf(),
        d.wf(),
        e.wf(),
        f.wf(),
        g.wf(),
    ensures
        r.wf(),
        r.fe() == mimc_of(seq![a.fe(), b.fe(), c.fe(), d.fe(), e.fe(), f.fe(), g.fe()]),
{
    let v = vec![*a, *b, *c, *d, *e, *f, *g];
    assert(values(v@) =~= seq![a.fe(), b.fe(), c.fe(), d.fe(), e.fe(), f.fe(), g.fe()]);
    hash(&v)
}

/// The coefficient `d` of the twisted Edwards curve `-x^2 + y^2 = 1 + d x^2 y^2`.
pub open spec fn edwards_d() -> int {
    limbs_value(0x1065fd6d6343eb1, 0x292d7f6d37579d26, 0xf5fd9207e6bd7fd4, 0x2a9318e74bfa2b48)
}

/// The point `(x, y)` lies on the curve.
pub open spec fn on_curve(x: int, y: int) -> bool {
    (y * y - x * x) % modulus() == (1 + edwards_d() * (x * x) * (y * y)) % modulus()
}

/// Relies on `zeekit::eddsa::D`, the curve's coefficient `d`.
#[verifier::external_body]
fn curve_d() -> (r: Scalar)
    ensures
        r.wf(),
        r.fe() == edwards_d(),
{
    Scalar { bytes: zeekit::eddsa::D.to_repr().0 }
}

/// Whether `(x, y)` lies on the curve.
pub fn is_on_curve(x: &Scalar, y: &Scalar) -> (r: bool)
    requires
        x.wf(),
        y.wf(),
    ensures
        r == on_curve(x.fe(), y.fe()),
{
    let d = curve_d();
    let one = Scalar::from_u64(1);
    let xx = x.mul(x);
    let yy = y.mul(y);
    let lhs = yy.sub(&xx);
    let dxx = d.mul(&xx);
    let dxxyy = dxx.mul(&yy);
    let rhs = one.add(&dxxyy);
    let ghost m = modulus();
    proof {
        let (xv, yv, dv) = (x.fe(), y.fe(), d.fe());
        lemma_sub_mod_noop(yv * yv, xv * xv, m);
        lemma_mul_mod_noop_right(dv, xv * xv, m);
        assert(dxx.fe() == (dv * (xv * xv)) % m);
        lemma_mul_mod_noop(dv * (xv * xv), yv * yv, m);
        assert(dxxyy.fe() == (dv * (xv * xv) * (yv * yv)) % m);
        lemma_add_mod_noop_right(1, dv * (xv * xv) * (yv * yv), m);
        assert(lhs.fe() == (yv * yv - xv * xv) % m);
        assert(rhs.fe() == (1 + dv * (xv * xv) * (yv * yv)) % m);
    }
    lhs.equals(&rhs)
}

/// Relies on `zeekit::eddsa::verify`, which it hands the compressed key.
/// Both points lie on the curve, where that function does not panic.
#[verifier::external_body]
pub fn verify_signature(
    pk_x: &Scalar,
    pk_y: &Scalar,
    msg: &Scalar,
    r_x: &Scalar,
    r_y: &Scalar,
    s: &Scalar,
) -> (r: bool)
    requires
        pk_x.wf(),
        pk_y.wf(),
        msg.wf(),
        r_x.wf(),
        r_y.wf(),
        s.wf(),
        on_curve(pk_x.fe(), pk_y.fe()),
        on_curve(r_x.fe(), r_y.fe()),
    ensures
        r == eddsa_accepts(pk_x.fe(), pk_y.fe(), msg.fe(), r_x.fe(), r_y.fe(), s.fe()),
{
    let fr = |v: &Scalar| zeekit::Fr::from_repr(zeekit::FrRepr(v.bytes)).unwrap();
    let pk = zeekit::eddsa::PointAffine(fr(pk_x), fr(pk_y));
    let sig = zeekit::eddsa::Signature { r: zeekit::eddsa::PointAffine(fr(r_x), fr(r_y)), s: fr(s) };
    zeekit::eddsa::verify(&zeekit::eddsa::PublicKey(pk.compress()), fr(msg), &sig)
}

} // verus!
