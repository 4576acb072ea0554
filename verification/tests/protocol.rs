use voprf::errors::ErrorKind;
use voprf::oprf::ciphersuite::Ciphersuite;
use voprf::oprf::groups::ristretto::GroupElement;
use voprf::oprf::groups::PrimeOrderGroup;
use voprf::oprf::{Client, Evaluation, Input, PublicKey, SecretKey, Server, OPRF_DST};

fn suite(verifiable: bool) -> Ciphersuite {
    Ciphersuite::new(PrimeOrderGroup::ristretto_255(), verifiable)
}

fn elems_of(blinded: &Vec<Input>) -> Vec<GroupElement> {
    blinded.iter().map(|b| b.elem()).collect()
}

fn fixed_key() -> Vec<u8> {
    (1u8..=32).collect()
}

#[test]
fn secret_key_is_32_bytes_and_gives_the_public_key() {
    let pog = PrimeOrderGroup::ristretto_255();
    assert!(SecretKey::from_bytes(vec![1u8; 31]).is_none());
    assert!(SecretKey::from_bytes(vec![1u8; 33]).is_none());
    let key = SecretKey::from_bytes(fixed_key()).unwrap();
    let public = key.pub_key(pog);
    assert_eq!(public.elem(), pog.scalar_mult(pog.generator, fixed_key()));
    let server = Server::from_key(suite(true), key);
    assert_eq!(server.public_key().elem(), public.elem());
    let fresh = SecretKey::new(pog);
    assert_ne!(fresh.pub_key(pog).elem(), public.elem());
    assert_eq!(PublicKey::new(pog.generator).elem(), pog.generator);
}

#[test]
fn eval_multiplies_by_the_key() {
    let pog = PrimeOrderGroup::ristretto_255();
    let server = Server::from_key(suite(false), SecretKey::from_bytes(fixed_key()).unwrap());
    let ms: Vec<GroupElement> = (0u8..3).map(|i| pog.encode_to_group(vec![i])).collect();
    let eval = server.eval(ms.clone());
    assert_eq!(eval.elems.len(), 3);
    for i in 0..3 {
        assert_eq!(eval.elems[i], pog.scalar_mult(ms[i], fixed_key()));
    }
    assert!(eval.proof.is_none());
}

#[test]
fn eval_of_nothing_is_empty() {
    for verifiable in [false, true] {
        let server = Server::setup(suite(verifiable));
        let eval = server.eval(Vec::new());
        assert!(eval.elems.is_empty());
        assert!(eval.proof.is_none());
    }
}

#[test]
fn eval_attaches_a_proof_in_verifiable_mode() {
    let pog = PrimeOrderGroup::ristretto_255();
    let server = Server::setup(suite(true));
    let y = server.public_key().elem();

    let one = vec![pog.random_element()];
    let eval = server.eval(one.clone());
    let proof = eval.proof.expect("a proof");
    assert_eq!(proof[0].len() + proof[1].len(), 64);
    assert!(pog.dleq_verify(y, one[0], eval.elems[0], proof));

    let many: Vec<GroupElement> = (0..5).map(|_| pog.random_element()).collect();
    let eval = server.eval(many.clone());
    let proof = eval.proof.expect("a proof");
    assert_eq!(proof[0].len() + proof[1].len(), 64);
    assert!(pog.batch_dleq_verify(y, many, eval.elems, proof));
}

#[test]
fn blind_keeps_the_input_and_multiplies_its_hash() {
    let pog = PrimeOrderGroup::ristretto_255();
    let client = Client::setup(suite(false), None);
    let inputs = vec![b"first".to_vec(), b"second".to_vec(), Vec::new()];
    let blinded = client.blind(inputs.clone());
    assert_eq!(blinded.len(), 3);
    for i in 0..3 {
        assert_eq!(blinded[i].input(), &inputs[i]);
        assert_eq!(blinded[i].blind().len(), 32);
        let t = pog.encode_to_group(inputs[i].clone());
        assert_eq!(blinded[i].elem(), pog.scalar_mult(t, blinded[i].blind().clone()));
    }
    assert_ne!(blinded[0].blind(), blinded[1].blind());
    let again = client.blind(inputs);
    assert_ne!(again[0].blind(), blinded[0].blind());
    assert_ne!(again[0].elem(), blinded[0].elem());
}

#[test]
fn blind_with_a_given_scalar() {
    let pog = PrimeOrderGroup::ristretto_255();
    let client = Client::setup(suite(false), None);
    let r = vec![0x33u8; 32];
    let blinded = client.blind_with(b"input".to_vec(), r.clone());
    assert_eq!(blinded.input(), &b"input".to_vec());
    assert_eq!(blinded.blind(), &r);
    assert_eq!(blinded.elem(), pog.scalar_mult(pog.encode_to_group(b"input".to_vec()), r));
    let copy = blinded.clone();
    assert_eq!(copy.input(), blinded.input());
    assert_eq!(copy.blind(), blinded.blind());
    assert_eq!(copy.elem(), blinded.elem());
}

#[test]
fn unblind_takes_the_blind_off() {
    let pog = PrimeOrderGroup::ristretto_255();
    let client = Client::setup(suite(false), None);
    let r = vec![0x33u8; 32];
    let blinded = vec![client.blind_with(b"input".to_vec(), r.clone())];
    let z = pog.encode_to_group(b"some evaluation".to_vec());
    let outs = client
        .unblind(blinded, Evaluation { elems: vec![z], proof: None })
        .unwrap();
    assert_eq!(outs, vec![pog.inverse_mult(z, r)]);
}

#[test]
fn oprf_blinding_cancels() {
    let pog = PrimeOrderGroup::ristretto_255();
    let ciph = suite(false);
    let server = Server::from_key(ciph.clone(), SecretKey::from_bytes(fixed_key()).unwrap());
    let client = Client::setup(ciph, None);
    let inputs = vec![vec![0u8; 32], b"another input".to_vec(), Vec::new()];
    let aux = b"auxiliary".to_vec();

    let blinded = client.blind(inputs.clone());
    let eval = server.eval(elems_of(&blinded));
    let unblinded = client.unblind(blinded, eval).unwrap();
    assert_eq!(unblinded.len(), 3);
    for i in 0..3 {
        let direct = pog.scalar_mult(client_h1(&inputs[i]), fixed_key());
        assert_eq!(unblinded[i], direct);
        let out = client.finalize(inputs[i].clone(), unblinded[i], aux.clone()).unwrap();
        let expected = client.finalize(inputs[i].clone(), direct, aux.clone()).unwrap();
        assert_eq!(out, expected);
        assert_eq!(out.len(), 64);
    }
}

fn client_h1(input: &Vec<u8>) -> GroupElement {
    suite(false).h1(input.clone())
}

#[test]
fn oprf_run_is_stable_for_a_fixed_key() {
    // plain mode, the input of 32 zero bytes, no auxiliary data
    let pog = PrimeOrderGroup::ristretto_255();
    let ciph = suite(false);
    let x = vec![0u8; 32];
    let mut outputs = Vec::new();
    for _ in 0..3 {
        let server = Server::from_key(ciph.clone(), SecretKey::from_bytes(fixed_key()).unwrap());
        let client = Client::setup(ciph.clone(), None);
        let blinded = client.blind(vec![x.clone()]);
        let eval = server.eval(elems_of(&blinded));
        let n = client.unblind(blinded, eval).unwrap();
        outputs.push(client.finalize(x.clone(), n[0], Vec::new()).unwrap());
    }
    assert_eq!(outputs[0], outputs[1]);
    assert_eq!(outputs[1], outputs[2]);

    // the direct path: hash, multiply by the key, derive
    let client = Client::setup(ciph.clone(), None);
    let direct = pog.scalar_mult(pog.encode_to_group(x.clone()), fixed_key());
    assert_eq!(client.finalize(x.clone(), direct, Vec::new()).unwrap(), outputs[0]);

    // by hand: two keyed hashes
    let mut message = x;
    message.extend(pog.serialize(direct));
    let dk = ciph.h2(OPRF_DST.as_bytes().to_vec(), message).unwrap();
    assert_eq!(ciph.h2(dk, Vec::new()).unwrap(), outputs[0]);
}

#[test]
fn finalize_is_deterministic_and_bound_to_its_inputs() {
    let pog = PrimeOrderGroup::ristretto_255();
    let client = Client::setup(suite(false), None);
    let n = pog.encode_to_group(b"n".to_vec());
    let other = pog.encode_to_group(b"other".to_vec());
    let out = client.finalize(b"x".to_vec(), n, b"aux".to_vec()).unwrap();
    assert_eq!(out.len(), 64);
    assert_eq!(client.finalize(b"x".to_vec(), n, b"aux".to_vec()).unwrap(), out);
    assert_ne!(client.finalize(b"y".to_vec(), n, b"aux".to_vec()).unwrap(), out);
    assert_ne!(client.finalize(b"x".to_vec(), other, b"aux".to_vec()).unwrap(), out);
    assert_ne!(client.finalize(b"x".to_vec(), n, b"aux2".to_vec()).unwrap(), out);
    assert_ne!(client.finalize(b"x".to_vec(), n, Vec::new()).unwrap(), out);
    // the verifiable suite derives the same output
    let verifying = Client::setup(suite(true), None);
    assert_eq!(verifying.finalize(b"x".to_vec(), n, b"aux".to_vec()).unwrap(), out);
}

#[test]
fn derivation_label() {
    assert_eq!(OPRF_DST, "oprf_derive_output");
    assert_eq!(OPRF_DST.len(), 18);
}

#[test]
fn unblind_refuses_unequal_lengths() {
    let pog = PrimeOrderGroup::ristretto_255();
    for verifiable in [false, true] {
        let server = Server::setup(suite(verifiable));
        let client = Client::setup(suite(verifiable), Some(server.public_key()));
        let blinded = client.blind(vec![b"a".to_vec(), b"b".to_vec()]);
        let mut eval = server.eval(elems_of(&blinded));
        eval.elems.push(pog.generator);
        assert_eq!(client.unblind(blinded.clone(), eval).unwrap_err().kind(), ErrorKind::Internal);
        let eval = Evaluation { elems: Vec::new(), proof: None };
        assert_eq!(client.unblind(blinded, eval).unwrap_err().kind(), ErrorKind::Internal);
    }
}

#[test]
fn voprf_single_evaluation() {
    let ciph = suite(true);
    let server = Server::setup(ciph.clone());
    let client = Client::setup(ciph, Some(server.public_key()));
    let x = b"single".to_vec();
    let blinded = client.blind(vec![x.clone()]);
    let eval = server.eval(elems_of(&blinded));
    assert!(eval.proof.is_some());
    let n = client.unblind(blinded, eval).unwrap();
    let direct = server.eval(vec![client_h1(&x)]);
    assert_eq!(n[0], direct.elems[0]);
}

#[test]
fn voprf_batch_of_ten_and_an_altered_evaluation() {
    let pog = PrimeOrderGroup::ristretto_255();
    let ciph = suite(true);
    let server = Server::setup(ciph.clone());
    let y = server.public_key();
    let client = Client::setup(ciph, Some(y));
    let inputs: Vec<Vec<u8>> = (0u8..10).map(|i| vec![i; 5]).collect();
    let blinded = client.blind(inputs.clone());
    let ms = elems_of(&blinded);
    let eval = server.eval(ms.clone());
    let proof = eval.proof.clone().expect("a proof");
    assert_eq!(
        pog.batch_dleq_verify(y.elem(), ms.clone(), eval.elems.clone(), proof.clone()),
        true
    );

    // flip a byte of the evaluation at index 5; where the bytes still encode
    // an element, the proof no longer verifies and unblinding fails
    let mut bytes = pog.serialize(eval.elems[5]);
    let mut altered = None;
    for position in 0..32 {
        bytes[position] ^= 0x02;
        if let Ok(p) = pog.deserialize(bytes.clone()) {
            altered = Some(p);
            break;
        }
        bytes[position] ^= 0x02;
    }
    let z5 = altered.unwrap_or(pog.add(eval.elems[5], pog.generator));
    let mut elems = eval.elems.clone();
    elems[5] = z5;
    assert_eq!(pog.batch_dleq_verify(y.elem(), ms, elems.clone(), proof.clone()), false);
    let tampered = Evaluation { elems: elems, proof: Some(proof) };
    let err = client.unblind(blinded.clone(), tampered).unwrap_err();
    assert_eq!(err.kind(), ErrorKind::Verification);

    // the evaluation as the server sent it is accepted
    let outs = client.unblind(blinded, eval).unwrap();
    assert_eq!(outs.len(), 10);
    for i in 0..10 {
        let direct = server.eval(vec![client_h1(&inputs[i])]);
        assert_eq!(outs[i], direct.elems[0]);
    }
}

#[test]
fn voprf_client_needs_key_and_proof() {
    let ciph = suite(true);
    let server = Server::setup(ciph.clone());
    let blind_client = Client::setup(ciph.clone(), None);
    let blinded = blind_client.blind(vec![b"a".to_vec()]);
    let eval = server.eval(elems_of(&blinded));

    // no public key
    let err = blind_client.unblind(blinded.clone(), eval.clone()).unwrap_err();
    assert_eq!(err.kind(), ErrorKind::Verification);

    // no proof
    let client = Client::setup(ciph.clone(), Some(server.public_key()));
    let stripped = Evaluation { elems: eval.elems.clone(), proof: None };
    assert_eq!(client.unblind(blinded.clone(), stripped).unwrap_err().kind(), ErrorKind::Verification);

    // the key of another server
    let other = Server::setup(ciph.clone());
    let wrong = Client::setup(ciph, Some(other.public_key()));
    assert_eq!(wrong.unblind(blinded.clone(), eval.clone()).unwrap_err().kind(), ErrorKind::Verification);

    assert!(client.unblind(blinded, eval).is_ok());
}

#[test]
fn voprf_empty_batch_has_nothing_to_check() {
    let ciph = suite(true);
    let server = Server::setup(ciph.clone());
    let client = Client::setup(ciph, Some(server.public_key()));
    let blinded = client.blind(Vec::new());
    assert!(blinded.is_empty());
    let eval = server.eval(Vec::new());
    assert_eq!(client.unblind(blinded, eval), Ok(Vec::new()));
}

#[test]
fn plain_client_ignores_a_proof() {
    let plain = suite(false);
    let server = Server::setup(suite(true));
    let client = Client::setup(plain, None);
    let blinded = client.blind(vec![b"a".to_vec(), b"b".to_vec()]);
    let eval = server.eval(elems_of(&blinded));
    assert!(eval.proof.is_some());
    assert_eq!(client.unblind(blinded, eval).unwrap().len(), 2);
}
