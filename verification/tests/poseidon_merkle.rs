use privacy_circuits::continuity::schema::commitment_hash_v2;
use privacy_circuits::field::FieldElement;
use privacy_circuits::merkle::compute_root;
use privacy_circuits::poseidon::{
    commitment_hash, leaf_hash, node_hash, poseidon_hash_leaf, poseidon_hash_leaf_v2,
    poseidon_hash_native, poseidon_hash_node, poseidon_params,
};
use privacy_circuits::unlinkability::schema::tag_hash;

fn fe(n: u64) -> FieldElement {
    FieldElement::from_u64(n)
}

#[test]
fn poseidon_merkle_leaf_node_domain_separation() {
    let params = poseidon_params();
    let leaf = fe(42);
    let leaf_hash = poseidon_hash_leaf(&params, leaf);
    let node_hash = poseidon_hash_node(&params, leaf, fe(0));

    assert_ne!(leaf_hash, node_hash);
}

#[test]
fn poseidon_merkle_node_order_sensitive() {
    let params = poseidon_params();
    let left = fe(1);
    let right = fe(2);

    let hash_lr = poseidon_hash_node(&params, left, right);
    let hash_rl = poseidon_hash_node(&params, right, left);

    assert_ne!(hash_lr, hash_rl);
}

#[test]
fn parameters_are_the_declared_ones() {
    let params = poseidon_params();
    assert_eq!(params.rate(), 3);
    assert_eq!(params.capacity(), 1);
    assert_eq!(params.alpha(), 5);
    assert_eq!(params.full_rounds(), 8);
    assert_eq!(params.partial_rounds(), 56);
    assert_eq!(params.ark().len(), 64);
    assert!(params.ark().iter().all(|row| row.len() == 4));
    assert_eq!(params.mds().len(), 4);
    assert!(params.mds().iter().all(|row| row.len() == 4));
    assert_eq!(params, poseidon_params());
}

#[test]
fn named_hashes_are_the_tagged_sponge() {
    let params = poseidon_params();
    let (a, b, c) = (fe(5), fe(6), fe(7));
    assert_eq!(commitment_hash(&params, a, b), poseidon_hash_native(&params, &vec![fe(1), a, b]));
    assert_eq!(leaf_hash(&params, a), poseidon_hash_native(&params, &vec![fe(2), a, fe(0)]));
    assert_eq!(poseidon_hash_leaf(&params, a), leaf_hash(&params, a));
    assert_eq!(node_hash(&params, a, b), poseidon_hash_native(&params, &vec![fe(3), a, b]));
    assert_eq!(poseidon_hash_node(&params, a, b), node_hash(&params, a, b));
    assert_eq!(
        poseidon_hash_leaf_v2(&params, a, b, c),
        poseidon_hash_native(&params, &vec![a, b, c])
    );
    assert_eq!(tag_hash(&params, a, b, c), poseidon_hash_native(&params, &vec![a, b, c]));
    assert_eq!(
        commitment_hash_v2(&params, a, b, c),
        poseidon_hash_native(&params, &vec![fe(1), a, b, c])
    );
}

#[test]
fn hash_is_deterministic_and_depends_on_its_inputs() {
    let params = poseidon_params();
    let first = commitment_hash(&params, fe(5), fe(6));
    assert_eq!(first, commitment_hash(&poseidon_params(), fe(5), fe(6)));
    assert_ne!(first, commitment_hash(&params, fe(6), fe(5)));
    assert_ne!(first, fe(5));
    assert_ne!(first, fe(6));
    assert_ne!(first, fe(1));
    assert_ne!(
        poseidon_hash_native(&params, &vec![fe(1), fe(5), fe(6)]),
        poseidon_hash_native(&params, &vec![fe(1), fe(5), fe(6), fe(0)])
    );
}

#[test]
fn sponge_does_not_pad_its_input() {
    let params = poseidon_params();
    let nothing = poseidon_hash_native(&params, &vec![]);
    assert_eq!(
        nothing.to_bytes(),
        [
            39, 72, 124, 122, 108, 52, 138, 101, 9, 119, 115, 135, 139, 236, 190, 235, 158, 169,
            42, 140, 83, 36, 77, 166, 65, 239, 72, 243, 72, 212, 113, 108
        ]
    );
    assert_eq!(nothing, poseidon_hash_native(&params, &vec![fe(0)]));
    assert_eq!(nothing, poseidon_hash_native(&params, &vec![fe(0), fe(0), fe(0)]));
    assert_ne!(nothing, poseidon_hash_native(&params, &vec![fe(0), fe(0), fe(0), fe(0)]));
    assert_eq!(
        poseidon_hash_native(&params, &vec![fe(9)]),
        poseidon_hash_native(&params, &vec![fe(9), fe(0)])
    );
}

#[test]
fn tagged_hashes_have_their_known_values() {
    let params = poseidon_params();
    assert_eq!(
        commitment_hash(&params, fe(5), fe(6)).to_bytes(),
        [
            9, 32, 125, 24, 209, 1, 249, 57, 72, 148, 217, 149, 193, 199, 255, 67, 192, 81, 104,
            196, 35, 139, 68, 211, 217, 163, 143, 113, 224, 162, 55, 206
        ]
    );
    assert_eq!(
        leaf_hash(&params, fe(5)).to_bytes(),
        [
            36, 80, 40, 80, 108, 63, 102, 56, 133, 46, 192, 93, 211, 144, 51, 136, 255, 227, 147,
            166, 48, 113, 81, 219, 88, 198, 167, 31, 134, 117, 113, 103
        ]
    );
    assert_eq!(
        node_hash(&params, fe(1), fe(2)).to_bytes(),
        [
            1, 186, 75, 45, 248, 19, 187, 24, 64, 110, 205, 102, 90, 91, 182, 236, 131, 141, 209,
            36, 162, 123, 97, 29, 34, 114, 208, 167, 184, 251, 52, 134
        ]
    );
    assert_eq!(
        commitment_hash_v2(&params, fe(1), fe(2), fe(3)).to_bytes(),
        [
            16, 67, 243, 201, 148, 89, 183, 168, 244, 74, 150, 99, 179, 91, 166, 4, 214, 20, 224,
            239, 198, 40, 205, 137, 64, 122, 171, 86, 14, 108, 40, 156
        ]
    );
    assert_eq!(
        tag_hash(&params, fe(1), fe(2), fe(3)).to_bytes(),
        [
            7, 176, 184, 107, 65, 236, 127, 223, 230, 193, 126, 230, 204, 221, 220, 228, 228, 126,
            116, 142, 73, 62, 84, 47, 154, 67, 91, 13, 222, 2, 42, 13
        ]
    );
}

#[test]
fn root_is_the_fold_of_the_path() {
    let params = poseidon_params();
    let leaf = leaf_hash(&params, commitment_hash(&params, fe(5), fe(6)));
    assert_eq!(compute_root(&params, leaf, &vec![]), leaf);

    let sibling_1 = fe(7);
    let sibling_2 = fe(8);
    let root = compute_root(&params, leaf, &vec![(sibling_1, false), (sibling_2, true)]);
    let expected = node_hash(&params, sibling_2, node_hash(&params, leaf, sibling_1));
    assert_eq!(root, expected);

    let flipped = compute_root(&params, leaf, &vec![(sibling_1, true), (sibling_2, true)]);
    assert_ne!(flipped, root);
    assert_eq!(flipped, node_hash(&params, sibling_2, node_hash(&params, sibling_1, leaf)));
}
