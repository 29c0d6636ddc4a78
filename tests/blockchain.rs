use monero_p2p::blockchain::{
    chain_height, cumulative_generated_coins, top_block_height, BlockHeightsTable, BlockInfo,
    BlockInfosTable, RuntimeError,
};

fn info(coins: u64) -> BlockInfo {
    BlockInfo { timestamp: 0, cumulative_generated_coins: coins, weight: 0, cumulative_difficulty: 0 }
}

#[test]
fn all_blockchain_functions() {
    let mut heights = BlockHeightsTable::new();
    let mut infos = BlockInfosTable::new();

    assert!(matches!(top_block_height(&heights), Err(RuntimeError::KeyNotFound)));
    assert_eq!(0, cumulative_generated_coins(&0, &infos).unwrap());

    let coins = [14_535_350_982_449u64, 17_939_125_004_612, 18_539_125_004_612];
    for (i, c) in coins.iter().enumerate() {
        heights.push([i as u8; 32]);
        infos.push(info(*c));
    }
    let blocks_len = 3u64;

    assert_eq!(blocks_len, chain_height(&heights).unwrap());
    assert_eq!(blocks_len - 1, top_block_height(&heights).unwrap());
    assert_eq!(cumulative_generated_coins(&0, &infos).unwrap(), 14_535_350_982_449);
    assert_eq!(cumulative_generated_coins(&1, &infos).unwrap(), 17_939_125_004_612);
    assert_eq!(cumulative_generated_coins(&2, &infos).unwrap(), 18_539_125_004_612);
    assert!(matches!(cumulative_generated_coins(&3, &infos), Err(RuntimeError::KeyNotFound)));
}

#[test]
fn empty_chain_has_height_zero() {
    let heights = BlockHeightsTable::new();
    assert_eq!(chain_height(&heights), Ok(0));
    let infos = BlockInfosTable::new();
    assert_eq!(cumulative_generated_coins(&1, &infos), Err(RuntimeError::KeyNotFound));
}
