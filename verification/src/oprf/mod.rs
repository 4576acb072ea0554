//! The protocol: a server that evaluates blinded elements under its secret
//! key, and a client that blinds inputs, checks the server's proof, unblinds
//! and derives the output.

pub mod ciphersuite;
pub mod groups;

use vstd::prelude::*;
use vstd::arithmetic::div_mod::{lemma_mul_mod_noop_left, lemma_mul_mod_noop_right};
use vstd::string::{is_ascii_spec_bytes, StrSliceExecFns, StringSliceAdditionalSpecFns};
use crate::errors::{err_internal, err_verification, ErrorKind, OprfError};
use crate::oprf::ciphersuite::{hmac_sha512, Ciphersuite};
use crate::oprf::groups::ristretto::{
    batch_dleq_proof, batch_dleq_verifies, dleq_proof, dleq_verifies, encodings, proof_encoding,
    ristretto_hash_to_group, ristretto_mul, GroupElement,
};
use crate::oprf::groups::scalar::{group_order, is_inverse_of, scalar_inverse, scalar_value};
use crate::oprf::groups::PrimeOrderGroup;
use crate::utils::bytes::{append_bytes, clone_bytes};

verus! {

/// The label under which the output key is derived.
pub const OPRF_DST: &'static str = "oprf_derive_output";

/// The bytes of the derivation label: the ASCII of `oprf_derive_output`.
pub open spec fn oprf_dst() -> Seq<u8> {
    seq![
        111u8, 112u8, 114u8, 102u8, 95u8, 100u8, 101u8, 114u8, 105u8,
        118u8, 101u8, 95u8, 111u8, 117u8, 116u8, 112u8, 117u8, 116u8,
    ]
}

/// The bytes of the derivation label.
fn oprf_dst_bytes() -> (label: Vec<u8>)
    ensures
        label@ == oprf_dst(),
{
    let label = OPRF_DST.as_bytes_vec();
    proof {
        reveal_strlit("oprf_derive_output");
        is_ascii_spec_bytes(OPRF_DST);
        assert(label@ =~= oprf_dst());
    }
    label
}

/// A server's secret key: 32 uniform bytes, which stand for a scalar.
pub struct SecretKey(Vec<u8>);

/// A server's public key: the generator multiplied by the secret scalar.
#[derive(Clone, Copy, Debug)]
pub struct PublicKey(GroupElement);

impl View for SecretKey {
    type V = Seq<u8>;

    closed spec fn view(&self) -> Seq<u8> {
        self.0@
    }
}

impl View for PublicKey {
    type V = Seq<u8>;

    closed spec fn view(&self) -> Seq<u8> {
        self.0@
    }
}

impl SecretKey {
    #[verifier::type_invariant]
    spec fn sized(self) -> bool {
        self.0@.len() == 32
    }

    /// A fresh key for the group `pog`.
    pub fn new(pog: PrimeOrderGroup) -> (key: SecretKey)
        ensures
            key@.len() == 32,
    {
        SecretKey(pog.uniform_bytes())
    }

    /// The key that `bytes` hold, if they are 32.
    pub fn from_bytes(bytes: Vec<u8>) -> (key: Option<SecretKey>)
        ensures
            key is Some <==> bytes@.len() == 32,
            key matches Some(k) ==> k@ == bytes@,
    {
        if bytes.len() == 32 {
            Some(SecretKey(bytes))
        } else {
            None
        }
    }

    /// The public key that belongs to this key in the group `pog`.
    pub fn pub_key(&self, pog: PrimeOrderGroup) -> (public: PublicKey)
        ensures
            public@ == ristretto_mul(pog.generator@, scalar_value(self@)),
    {
        proof {
            use_type_invariant(self);
        }
        PublicKey(pog.scalar_mult(pog.generator, clone_bytes(&self.0)))
    }
}

impl PublicKey {
    /// The public key that is the element `elem`.
    pub fn new(elem: GroupElement) -> (public: PublicKey)
        ensures
            public@ == elem@,
    {
        PublicKey(elem)
    }

    /// The element that is this key.
    pub fn elem(&self) -> (elem: GroupElement)
        ensures
            elem@ == self@,
    {
        self.0
    }
}

/// A blinded input: the input, the blind and the blinded element.
#[derive(Debug)]
pub struct Input {
    input: Vec<u8>,
    elem: GroupElement,
    blind: Vec<u8>,
}

impl Input {
    #[verifier::type_invariant]
    spec fn blinded(self) -> bool {
        &&& self.blind@.len() >= 32
        &&& self.elem@ == ristretto_mul(
            ristretto_hash_to_group(self.input@),
            scalar_value(self.blind@),
        )
    }

    /// The client's input.
    pub closed spec fn spec_input(&self) -> Seq<u8> {
        self.input@
    }

    /// The encoding of the blinded element.
    pub closed spec fn spec_elem(&self) -> Seq<u8> {
        self.elem@
    }

    /// The scalar material of the blind.
    pub closed spec fn spec_blind(&self) -> Seq<u8> {
        self.blind@
    }

    /// Whether the element is the input's hash multiplied by the blind.
    pub open spec fn well_formed(&self) -> bool {
        &&& self.spec_blind().len() >= 32
        &&& self.spec_elem() == ristretto_mul(
            ristretto_hash_to_group(self.spec_input()),
            scalar_value(self.spec_blind()),
        )
    }

    /// The client's input.
    pub fn input(&self) -> (input: &Vec<u8>)
        ensures
            input@ == self.spec_input(),
    {
        &self.input
    }

    /// The blinded element, which goes to the server.
    pub fn elem(&self) -> (elem: GroupElement)
        ensures
            elem@ == self.spec_elem(),
            self.well_formed(),
    {
        proof {
            use_type_invariant(self);
        }
        self.elem
    }

    /// The blind, which stays with the client.
    pub fn blind(&self) -> (blind: &Vec<u8>)
        ensures
            blind@ == self.spec_blind(),
            self.well_formed(),
    {
        proof {
            use_type_invariant(self);
        }
        &self.blind
    }
}

impl Clone for Input {
    fn clone(&self) -> (copy: Input)
        ensures
            copy.spec_input() == self.spec_input(),
            copy.spec_elem() == self.spec_elem(),
            copy.spec_blind() == self.spec_blind(),
    {
        proof {
            use_type_invariant(self);
        }
        Input {
            input: clone_bytes(&self.input),
            elem: self.elem,
            blind: clone_bytes(&self.blind),
        }
    }
}

/// What the server returns: the evaluated elements and, in verifiable mode,
/// the proof that one key evaluated them all.
#[derive(Debug, Clone)]
pub struct Evaluation {
    pub elems: Vec<GroupElement>,
    pub proof: Option<[Vec<u8>; 2]>,
}

/// A participant of the protocol: a ciphersuite and the key it holds.
pub struct Participant<K> {
    ciph: Ciphersuite,
    key: K,
}

impl<K> Participant<K> {
    /// The participant's ciphersuite.
    pub closed spec fn ciphersuite(&self) -> Ciphersuite {
        self.ciph
    }

    /// The key that the participant holds.
    pub closed spec fn key(&self) -> K {
        self.key
    }
}

/// The server holds the secret key.
pub type Server = Participant<SecretKey>;

/// The client holds the server's public key, if it verifies proofs.
pub type Client = Participant<Option<PublicKey>>;

/// The proof that the server attaches, made with the nonce `t`: the single
/// proof for one pair, the batched proof for more.
pub open spec fn evaluation_proof(
    t: nat,
    k: nat,
    y: Seq<u8>,
    ms: Seq<Seq<u8>>,
    zs: Seq<Seq<u8>>,
) -> Seq<Seq<u8>> {
    if ms.len() == 1 {
        dleq_proof(t, k, y, ms[0], zs[0])
    } else {
        batch_dleq_proof(t, k, y, ms, zs)
    }
}

/// Whether `proof` is what the server attaches to the evaluations `zs` of
/// `ms`: nothing in plain mode or for an empty batch, and else a proof made
/// with some nonce.
pub open spec fn attached_proof(
    verifiable: bool,
    k: nat,
    y: Seq<u8>,
    ms: Seq<Seq<u8>>,
    zs: Seq<Seq<u8>>,
    proof: Option<[Vec<u8>; 2]>,
) -> bool {
    if !verifiable || ms.len() == 0 {
        proof is None
    } else {
        proof matches Some(p) && exists|nonce: Seq<u8>|
            nonce.len() == 32 && proof_encoding(p) == #[trigger] evaluation_proof(
                scalar_value(nonce),
                k,
                y,
                ms,
                zs,
            )
    }
}

impl Server {
    /// A server for `ciph` with a fresh secret key.
    pub fn setup(ciph: Ciphersuite) -> (server: Server)
        ensures
            server.ciphersuite() == ciph,
            server.key()@.len() == 32,
    {
        let pog = ciph.pog;
        Server { ciph: ciph, key: SecretKey::new(pog) }
    }

    /// A server for `ciph` with the secret key `key`.
    pub fn from_key(ciph: Ciphersuite, key: SecretKey) -> (server: Server)
        ensures
            server.ciphersuite() == ciph,
            server.key() == key,
    {
        Server { ciph: ciph, key: key }
    }

    /// The public key: the generator multiplied by the secret scalar.
    pub fn public_key(&self) -> (public: PublicKey)
        ensures
            public@ == ristretto_mul(
                self.ciphersuite().pog.generator@,
                scalar_value(self.key()@),
            ),
    {
        self.key.pub_key(self.ciph.pog)
    }

    /// Each of `elems_inp` multiplied by the secret scalar.
    fn evaluate_elements(&self, elems_inp: &Vec<GroupElement>) -> (elems_out: Vec<GroupElement>)
        ensures
            elems_out@.len() == elems_inp@.len(),
            forall|i: int|
                0 <= i < elems_inp@.len() ==> (#[trigger] elems_out@[i])@ == ristretto_mul(
                    elems_inp@[i]@,
                    scalar_value(self.key()@),
                ),
    {
        proof {
            use_type_invariant(&self.key);
        }
        let mut elems_out: Vec<GroupElement> = Vec::new();
        let pog = self.ciph.pog;
        let key = &self.key.0;
        let mut i: usize = 0;
        while i < elems_inp.len()
            invariant
                i <= elems_inp.len(),
                key@.len() == 32,
                elems_out@.len() == i,
                forall|j: int|
                    0 <= j < i ==> (#[trigger] elems_out@[j])@ == ristretto_mul(
                        elems_inp@[j]@,
                        scalar_value(key@),
                    ),
            decreases elems_inp.len() - i,
        {
            elems_out.push(pog.scalar_mult(elems_inp[i], clone_bytes(key)));
            i = i + 1;
        }
        elems_out
    }

    /// The proof that goes with the evaluations `elems_out` of `elems_inp`.
    fn attach_proof(&self, elems_inp: Vec<GroupElement>, elems_out: &Vec<GroupElement>) -> (proof:
        Option<[Vec<u8>; 2]>)
        requires
            elems_inp@.len() == elems_out@.len(),
            elems_inp@.len() <= u32::MAX,
        ensures
            attached_proof(
                self.ciphersuite().verifiable,
                scalar_value(self.key()@),
                ristretto_mul(self.ciphersuite().pog.generator@, scalar_value(self.key()@)),
                encodings(elems_inp@),
                encodings(elems_out@),
                proof,
            ),
    {
        proof {
            use_type_invariant(&self.key);
        }
        let n = elems_inp.len();
        if !self.ciph.verifiable || n == 0 {
            return None;
        }
        let pog = self.ciph.pog;
        let y = self.key.pub_key(pog).elem();
        let key = clone_bytes(&self.key.0);
        let ghost k = scalar_value(key@);
        let ghost ms = encodings(elems_inp@);
        let ghost zs = encodings(elems_out@);
        if n == 1 {
            let proof = pog.dleq_generate(key, y, elems_inp[0], elems_out[0]);
            proof {
                let nonce = choose|nonce: Seq<u8>|
                    nonce.len() == 32 && proof_encoding(proof) == #[trigger] dleq_proof(
                        scalar_value(nonce),
                        k,
                        y@,
                        ms[0],
                        zs[0],
                    );
                assert(proof_encoding(proof) == evaluation_proof(
                    scalar_value(nonce),
                    k,
                    y@,
                    ms,
                    zs,
                ));
            }
            Some(proof)
        } else {
            let proof = pog.batch_dleq_generate(key, y, elems_inp, elems_out.clone());
            proof {
                let nonce = choose|nonce: Seq<u8>|
                    nonce.len() == 32 && proof_encoding(proof) == #[trigger] batch_dleq_proof(
                        scalar_value(nonce),
                        k,
                        y@,
                        ms,
                        zs,
                    );
                assert(proof_encoding(proof) == evaluation_proof(
                    scalar_value(nonce),
                    k,
                    y@,
                    ms,
                    zs,
                ));
            }
            Some(proof)
        }
    }

    /// Evaluates the blinded elements: each multiplied by the secret scalar.
    /// In verifiable mode the evaluation of a batch that is not empty carries
    /// a proof, the single one for one element and the batched one for more.
    pub fn eval(&self, elems_inp: Vec<GroupElement>) -> (evaluation: Evaluation)
        requires
            elems_inp@.len() <= u32::MAX,
        ensures
            evaluation.elems@.len() == elems_inp@.len(),
            forall|i: int|
                0 <= i < elems_inp@.len() ==> (#[trigger] evaluation.elems@[i])@ == ristretto_mul(
                    elems_inp@[i]@,
                    scalar_value(self.key()@),
                ),
            attached_proof(
                self.ciphersuite().verifiable,
                scalar_value(self.key()@),
                ristretto_mul(self.ciphersuite().pog.generator@, scalar_value(self.key()@)),
                encodings(elems_inp@),
                encodings(evaluation.elems@),
                evaluation.proof,
            ),
    {
        let elems_out = self.evaluate_elements(&elems_inp);
        let proof = self.attach_proof(elems_inp, &elems_out);
        Evaluation { elems: elems_out, proof: proof }
    }
}

/// The blinded elements of `inputs`, in their order.
pub open spec fn blinded_elements(inputs: Seq<Input>) -> Seq<Seq<u8>> {
    Seq::new(inputs.len(), |i: int| inputs[i].spec_elem())
}

/// Whether a client with the public key `key` accepts the evaluations `zs`
/// of the blinded elements `ms` with `proof`. In plain mode, and for an empty
/// batch, there is nothing to check. In verifiable mode the client needs its
/// key and a proof, and the proof has to verify: the single one for one pair,
/// the batched one for more.
pub open spec fn proof_accepted(
    verifiable: bool,
    key: Option<PublicKey>,
    ms: Seq<Seq<u8>>,
    zs: Seq<Seq<u8>>,
    proof: Option<[Vec<u8>; 2]>,
) -> bool {
    ||| !verifiable
    ||| ms.len() == 0
    ||| {
        &&& key matches Some(y)
        &&& proof matches Some(p)
        &&& if ms.len() == 1 {
            dleq_verifies(y@, ms[0], zs[0], proof_encoding(p))
        } else {
            batch_dleq_verifies(y@, ms, zs, proof_encoding(p))
        }
    }
}

/// The evaluated element `z` with the blind taken off: `z` multiplied by the
/// inverse of the scalar that `blind` stands for.
pub open spec fn unblinded(z: Seq<u8>, blind: Seq<u8>) -> Seq<u8> {
    ristretto_mul(z, scalar_inverse(scalar_value(blind)))
}

/// The scalars by which blinding, evaluation and unblinding multiply, one
/// after another, come to the key: the blind and its inverse cancel.
pub proof fn lemma_blind_cancels_in_scalars(r: nat, k: nat)
    requires
        is_inverse_of(scalar_inverse(r), r),
    ensures
        (((r * k) % group_order()) * scalar_inverse(r)) % group_order() == k % group_order(),
{
    let l = group_order() as int;
    let x = scalar_inverse(r) as int;
    let ri = r as int;
    let ki = k as int;
    lemma_mul_mod_noop_left(ri * ki, x, l);
    assert((ri * ki) * x == ki * (x * ri)) by (nonlinear_arith);
    lemma_mul_mod_noop_right(ki, x * ri, l);
    assert(ki * 1 == ki);
}

/// The output for the input `x`, the unblinded element `n` and the auxiliary
/// data `aux`: the tag of `aux` under the key that is the tag of `x` and `n`
/// under the derivation label.
pub open spec fn finalize_output(x: Seq<u8>, n: Seq<u8>, aux: Seq<u8>) -> Seq<u8> {
    hmac_sha512(hmac_sha512(oprf_dst(), x + n), aux)
}

/// The output is a function of the input, the element and the auxiliary
/// data: the same three give the same output.
pub proof fn lemma_finalize_deterministic(
    x1: Seq<u8>,
    n1: Seq<u8>,
    aux1: Seq<u8>,
    x2: Seq<u8>,
    n2: Seq<u8>,
    aux2: Seq<u8>,
)
    requires
        x1 == x2,
        n1 == n2,
        aux1 == aux2,
    ensures
        finalize_output(x1, n1, aux1) == finalize_output(x2, n2, aux2),
{
}

impl Client {
    /// A client for `ciph`. In verifiable mode it needs the server's public key.
    pub fn setup(ciph: Ciphersuite, pub_key: Option<PublicKey>) -> (client: Client)
        ensures
            client.ciphersuite() == ciph,
            client.key() == pub_key,
    {
        Client { ciph: ciph, key: pub_key }
    }

    /// Blinds the input `x` with the scalar that `r` stands for.
    pub fn blind_with(&self, x: Vec<u8>, r: Vec<u8>) -> (blinded: Input)
        requires
            r@.len() >= 32,
        ensures
            blinded.spec_input() == x@,
            blinded.spec_blind() == r@,
            blinded.well_formed(),
    {
        let ciph = &self.ciph;
        let pog = ciph.pog;
        let t = ciph.h1(clone_bytes(&x));
        let p = pog.scalar_mult(t, clone_bytes(&r));
        Input { input: x, elem: p, blind: r }
    }

    /// Blinds every input, each with a fresh random scalar of its own.
    pub fn blind(&self, inputs: Vec<Vec<u8>>) -> (blinded_inputs: Vec<Input>)
        ensures
            blinded_inputs@.len() == inputs@.len(),
            forall|i: int|
                #![trigger blinded_inputs@[i]]
                0 <= i < inputs@.len() ==> {
                    &&& blinded_inputs@[i].spec_input() == inputs@[i]@
                    &&& blinded_inputs@[i].spec_blind().len() == 32
                    &&& blinded_inputs@[i].well_formed()
                },
    {
        let mut blinded_inputs: Vec<Input> = Vec::new();
        let pog = self.ciph.pog;
        let mut i: usize = 0;
        while i < inputs.len()
            invariant
                i <= inputs.len(),
                blinded_inputs@.len() == i,
                forall|j: int|
                    #![trigger blinded_inputs@[j]]
                    0 <= j < i ==> {
                        &&& blinded_inputs@[j].spec_input() == inputs@[j]@
                        &&& blinded_inputs@[j].spec_blind().len() == 32
                        &&& blinded_inputs@[j].well_formed()
                    },
            decreases inputs.len() - i,
        {
            let r = pog.uniform_bytes();
            let x = clone_bytes(&inputs[i]);
            blinded_inputs.push(self.blind_with(x, r));
            i = i + 1;
        }
        blinded_inputs
    }

    /// Whether the evaluations `elems` of the blinded `inputs` are accepted
    /// with `proof`.
    fn proof_is_accepted(
        &self,
        inputs: &Vec<Input>,
        elems: &Vec<GroupElement>,
        proof: Option<[Vec<u8>; 2]>,
    ) -> (ok: bool)
        requires
            inputs@.len() == elems@.len(),
        ensures
            ok == proof_accepted(
                self.ciphersuite().verifiable,
                self.key(),
                blinded_elements(inputs@),
                encodings(elems@),
                proof,
            ),
    {
        let n = inputs.len();
        if !self.ciph.verifiable || n == 0 {
            return true;
        }
        let pog = self.ciph.pog;
        let mut ms: Vec<GroupElement> = Vec::new();
        let mut i: usize = 0;
        while i < n
            invariant
                i <= n,
                n == inputs@.len(),
                ms@.len() == i,
                forall|j: int| 0 <= j < i ==> (#[trigger] ms@[j])@ == inputs@[j].spec_elem(),
            decreases n - i,
        {
            ms.push(inputs[i].elem());
            i = i + 1;
        }
        assert(encodings(ms@) =~= blinded_elements(inputs@));
        match (&self.key, proof) {
            (Some(y), Some(p)) => {
                if n == 1 {
                    pog.dleq_verify(y.elem(), ms[0], elems[0], p)
                } else {
                    pog.batch_dleq_verify(y.elem(), ms, elems.clone(), p)
                }
            },
            _ => false,
        }
    }

    /// Each of `elems` with the blind of the input at its index taken off.
    fn unblind_elements(&self, inputs: &Vec<Input>, elems: &Vec<GroupElement>) -> (outs: Vec<
        GroupElement,
    >)
        requires
            inputs@.len() == elems@.len(),
        ensures
            outs@.len() == elems@.len(),
            forall|i: int|
                #![trigger outs@[i]]
                0 <= i < elems@.len() && scalar_value(inputs@[i].spec_blind()) != 0
                    ==> outs@[i]@ == unblinded(elems@[i]@, inputs@[i].spec_blind()),
    {
        let pog = self.ciph.pog;
        let mut outs: Vec<GroupElement> = Vec::new();
        let mut i: usize = 0;
        while i < elems.len()
            invariant
                i <= elems.len(),
                inputs@.len() == elems@.len(),
                outs@.len() == i,
                forall|j: int|
                    #![trigger outs@[j]]
                    0 <= j < i && scalar_value(inputs@[j].spec_blind()) != 0 ==> outs@[j]@
                        == unblinded(elems@[j]@, inputs@[j].spec_blind()),
            decreases elems.len() - i,
        {
            let elem = elems[i];
            let blind = clone_bytes(inputs[i].blind());
            outs.push(pog.inverse_mult(elem, blind));
            i = i + 1;
        }
        outs
    }

    /// Takes the blinds off the server's evaluations. In verifiable mode the
    /// proof is checked first, and no element is given out unless it holds.
    /// Fails with an internal error where the evaluation does not have one
    /// element for each input, with a verification error where the proof is
    /// not accepted.
    pub fn unblind(&self, inputs: Vec<Input>, eval: Evaluation) -> (res: Result<
        Vec<GroupElement>,
        OprfError,
    >)
        ensures
            match res {
                Ok(outs) => {
                    &&& inputs@.len() == eval.elems@.len()
                    &&& proof_accepted(
                        self.ciphersuite().verifiable,
                        self.key(),
                        blinded_elements(inputs@),
                        encodings(eval.elems@),
                        eval.proof,
                    )
                    &&& outs@.len() == inputs@.len()
                    &&& forall|i: int|
                        #![trigger outs@[i]]
                        0 <= i < inputs@.len() && scalar_value(inputs@[i].spec_blind()) != 0
                            ==> outs@[i]@ == unblinded(eval.elems@[i]@, inputs@[i].spec_blind())
                },
                Err(e) => if inputs@.len() != eval.elems@.len() {
                    e.kind == ErrorKind::Internal
                } else {
                    &&& e.kind == ErrorKind::Verification
                    &&& !proof_accepted(
                        self.ciphersuite().verifiable,
                        self.key(),
                        blinded_elements(inputs@),
                        encodings(eval.elems@),
                        eval.proof,
                    )
                },
            },
    {
        let Evaluation { elems, proof } = eval;
        if inputs.len() != elems.len() {
            return Err(err_internal());
        }
        if !self.proof_is_accepted(&inputs, &elems, proof) {
            return Err(err_verification());
        }
        Ok(self.unblind_elements(&inputs, &elems))
    }

    /// The output for `input`: the tag of `aux` under a key derived from the
    /// input and the unblinded element `elem`. 64 bytes.
    pub fn finalize(&self, input: Vec<u8>, elem: GroupElement, aux: Vec<u8>) -> (res: Result<
        Vec<u8>,
        OprfError,
    >)
        ensures
            res matches Ok(out) && out@ == finalize_output(input@, elem@, aux@) && out@.len()
                == 64,
    {
        let ciph = &self.ciph;
        let pog = ciph.pog;
        let mut message = input;
        let serialized = pog.serialize(elem);
        append_bytes(&mut message, &serialized);
        match ciph.h2(oprf_dst_bytes(), message) {
            Ok(dk) => {
                match ciph.h2(dk, aux) {
                    Ok(out) => Ok(out),
                    Err(_) => Err(err_internal()),
                }
            },
            Err(_) => Err(err_internal()),
        }
    }
}

} // verus!
