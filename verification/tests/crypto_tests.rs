use giveaways::utils::crypto::{
    build_merkle_tree, build_reveal_plaintext, compute_candidate_rank, compute_finalization_seed,
    compute_reveal_digest, compute_winner_seed, select_winners, verify_merkle_proof,
    verify_reveal, xor_reveal_digests, WinnerEntry,
};
use sha2::{Digest, Sha256};
use solana_program::pubkey::Pubkey;

#[test]
fn reveal_commitment_uses_unit_separator() {
    let lucky_words = "fortune";
    let salt = b"abc123";
    let plaintext = build_reveal_plaintext(lucky_words, salt).unwrap();
    assert_eq!(plaintext, b"fortune\x1fabc123");

    let commitment: [u8; 32] = Sha256::digest(&plaintext).into();
    assert!(verify_reveal(&commitment, lucky_words, salt).unwrap());
}

#[test]
fn reveal_digest_aggregate_is_order_independent() {
    let wallet_a = Pubkey::new_unique().to_bytes();
    let wallet_b = Pubkey::new_unique().to_bytes();
    let digest_a = compute_reveal_digest(&wallet_a, b"one\x1fa");
    let digest_b = compute_reveal_digest(&wallet_b, b"two\x1fb");

    assert_eq!(
        xor_reveal_digests([0u8; 32], &[digest_a, digest_b]),
        xor_reveal_digests([0u8; 32], &[digest_b, digest_a])
    );
}

#[test]
fn winner_selection_is_deterministic_without_replacement() {
    let mut participants = vec![
        Pubkey::new_unique().to_bytes(),
        Pubkey::new_unique().to_bytes(),
        Pubkey::new_unique().to_bytes(),
        Pubkey::new_unique().to_bytes(),
    ];
    participants.sort();
    let seed = compute_winner_seed(7, [9u8; 32], &participants);

    let winners_a = select_winners(&seed, &participants, 3);
    let winners_b = select_winners(&seed, &participants, 3);
    assert_eq!(winners_a, winners_b);

    let unique = winners_a
        .iter()
        .copied()
        .collect::<std::collections::HashSet<_>>();
    assert_eq!(unique.len(), winners_a.len());
}

#[test]
fn candidate_rank_is_deterministic_and_wallet_specific() {
    let wallet_a = Pubkey::new_unique().to_bytes();
    let wallet_b = Pubkey::new_unique().to_bytes();
    let seed = compute_finalization_seed(1, [3u8; 32]);

    let rank_a = compute_candidate_rank(&seed, &wallet_a);
    assert_eq!(rank_a, compute_candidate_rank(&seed, &wallet_a));
    assert_ne!(rank_a, compute_candidate_rank(&seed, &wallet_b));
}

#[test]
fn single_winner_merkle_root_matches_verifier() {
    let winner = Pubkey::new_unique().to_bytes();
    let entry = WinnerEntry {
        index: 0,
        recipient: winner,
        amount: 42,
    };
    let root = build_merkle_tree(&[entry]).expect("root");

    assert!(verify_merkle_proof(0, &winner, 42, &[], &root));
    assert!(!verify_merkle_proof(1, &winner, 42, &[], &root));
}

fn sibling_paths(leaves: Vec<[u8; 32]>) -> Vec<Vec<Vec<u8>>> {
    let n = leaves.len();
    let mut paths = vec![Vec::new(); n];
    let mut positions: Vec<usize> = (0..n).collect();
    let mut level = leaves;
    while level.len() > 1 {
        for (i, pos) in positions.iter_mut().enumerate() {
            let p = *pos;
            let sibling = if p % 2 == 0 { level[(p + 1).min(level.len() - 1)] } else { level[p - 1] };
            paths[i].push(sibling.to_vec());
            *pos = p / 2;
        }
        level = level
            .chunks(2)
            .map(|pair| {
                let right = if pair.len() == 2 { pair[1] } else { pair[0] };
                let mut bytes = pair[0].to_vec();
                bytes.extend_from_slice(&right);
                Sha256::digest(&bytes).into()
            })
            .collect();
    }
    paths
}

#[test]
fn every_path_of_a_built_tree_verifies() {
    for n in 1..=7u32 {
        let entries: Vec<WinnerEntry> = (0..n)
            .map(|i| WinnerEntry { index: i, recipient: Pubkey::new_unique().to_bytes(), amount: 10 + i as u64 })
            .collect();
        let root = build_merkle_tree(&entries).unwrap();
        let leaves: Vec<[u8; 32]> = entries
            .iter()
            .map(|e| {
                let mut leaf = e.index.to_le_bytes().to_vec();
                leaf.extend_from_slice(&e.recipient);
                leaf.extend_from_slice(&e.amount.to_le_bytes());
                Sha256::digest(&leaf).into()
            })
            .collect();
        let paths = sibling_paths(leaves);
        for (i, e) in entries.iter().enumerate() {
            assert!(verify_merkle_proof(e.index, &e.recipient, e.amount, &paths[i], &root));
        }
    }
    assert!(build_merkle_tree(&[]).is_err());
}
