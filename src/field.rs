//! Elements of the scalar field of BLS12-381, held as canonical
//! little-endian bytes, with the arithmetic of `zeekit::Fr`.
use ff::PrimeField;
use vstd::array::spec_array_fill_for_copy_type;
use vstd::prelude::*;

verus! {

/// The order of the scalar field of BLS12-381.
pub open spec fn modulus() -> int {
    limbs_value(0xffffffff00000001, 0x53bda402fffe5bfe, 0x3339d80809a1d805, 0x73eda753299d7d48)
}

/// `2^64`, the base of a 64-bit limb.
pub open spec fn limb_base() -> int {
    0x1_0000_0000int * 0x1_0000_0000int
}

/// The integer that four little-endian 64-bit limbs denote.
pub open spec fn limbs_value(l0: int, l1: int, l2: int, l3: int) -> int {
    l0 + limb_base() * (l1 + limb_base() * (l2 + limb_base() * l3))
}

/// The integer that little-endian bytes denote.
pub open spec fn le_value(b: Seq<u8>) -> int
    decreases b.len(),
{
    if b.len() == 0 {
        0
    } else {
        b[0] as int + 256 * le_value(b.drop_first())
    }
}

proof fn lemma_le_value_of_zeros(b: Seq<u8>)
    requires
        forall|i: int| 0 <= i < b.len() ==> b[i] == 0,
    ensures
        le_value(b) == 0,
    decreases b.len(),
{
    if b.len() > 0 {
        assert forall|i: int| 0 <= i < b.drop_first().len() implies b.drop_first()[i] == 0 by {
            assert(b.drop_first()[i] == b[i + 1]);
        }
        lemma_le_value_of_zeros(b.drop_first());
    }
}

/// A field element, as the 32 little-endian bytes of its canonical value.
#[derive(Clone, Copy, Debug)]
pub struct Scalar {
    pub bytes: [u8; 32],
}

impl Scalar {
    /// The element's value, an integer in `[0, modulus())` when well formed.
    pub open spec fn fe(self) -> int {
        le_value(self.bytes@)
    }

    /// A scalar is well formed when its bytes are the canonical encoding.
    pub open spec fn wf(self) -> bool {
        self.fe() < modulus()
    }

    /// Relies on `From<u64> for zeekit::Fr` and `PrimeField::to_repr`:
    /// the element whose value is `n`.
    #[verifier::external_body]
    pub fn from_u64(n: u64) -> (r: Scalar)
        ensures
            r.wf(),
            r.fe() == n as int,
    {
        Scalar { bytes: zeekit::Fr::from(n).to_repr().0 }
    }

    /// Relies on `PrimeField::from_repr` of `zeekit::Fr`, which accepts
    /// exactly the canonical encodings.
    #[verifier::external_body]
    pub fn from_bytes(bytes: [u8; 32]) -> (r: Option<Scalar>)
        ensures
            r.is_some() == (le_value(bytes@) < modulus()),
            r.is_some() ==> r.unwrap().bytes@ == bytes@,
    {
        let f: Option<zeekit::Fr> = zeekit::Fr::from_repr(zeekit::FrRepr(bytes)).into();
        f.map(|_| Scalar { bytes })
    }

    /// The zero element, whose bytes are all zero.
    pub open spec fn spec_zero() -> Scalar {
        Scalar { bytes: spec_array_fill_for_copy_type::<u8, 32>(0u8) }
    }

    /// The zero element.
    pub fn zero() -> (r: Scalar)
        ensures
            r == Scalar::spec_zero(),
            r.wf(),
            r.fe() == 0,
    {
        let r = Scalar { bytes: [0u8; 32] };
        proof {
            lemma_le_value_of_zeros(r.bytes@);
        }
        r
    }

    /// Relies on `PartialEq for zeekit::Fr`: equality of field elements.
    #[verifier::external_body]
    pub fn equals(&self, other: &Scalar) -> (r: bool)
        requires
            self.wf(),
            other.wf(),
        ensures
            r == (self.fe() == other.fe()),
    {
        let a = zeekit::Fr::from_repr(zeekit::FrRepr(self.bytes)).unwrap();
        let b = zeekit::Fr::from_repr(zeekit::FrRepr(other.bytes)).unwrap();
        a == b
    }

    /// Relies on `Add for zeekit::Fr`: addition modulo the field order.
    #[verifier::external_body]
    pub fn add(&self, other: &Scalar) -> (r: Scalar)
        requires
            self.wf(),
            other.wf(),
        ensures
            r.wf(),
            r.fe() == (self.fe() + other.fe()) % modulus(),
    {
        let a = zeekit::Fr::from_repr(zeekit::FrRepr(self.bytes)).unwrap();
        let b = zeekit::Fr::from_repr(zeekit::FrRepr(other.bytes)).unwrap();
        Scalar { bytes: (a + b).to_repr().0 }
    }

    /// Relies on `Sub for zeekit::Fr`: subtraction modulo the field order.
    #[verifier::external_body]
    pub fn sub(&self, other: &Scalar) -> (r: Scalar)
        requires
            self.wf(),
            other.wf(),
        ensures
            r.wf(),
            r.fe() == (self.fe() - other.fe()) % modulus(),
    {
        let a = zeekit::Fr::from_repr(zeekit::FrRepr(self.bytes)).unwrap();
        let b = zeekit::Fr::from_repr(zeekit::FrRepr(other.bytes)).unwrap();
        Scalar { bytes: (a - b).to_repr().0 }
    }

    /// Relies on `Mul for zeekit::Fr`: multiplication modulo the field order.
    #[verifier::external_body]
    pub fn mul(&self, other: &Scalar) -> (r: Scalar)
        requires
            self.wf(),
            other.wf(),
        ensures
            r.wf(),
            r.fe() == (self.fe() * other.fe()) % modulus(),
    {
        let a = zeekit::Fr::from_repr(zeekit::FrRepr(self.bytes)).unwrap();
        let b = zeekit::Fr::from_repr(zeekit::FrRepr(other.bytes)).unwrap();
        Scalar { bytes: (a * b).to_repr().0 }
    }
}

} // verus!
