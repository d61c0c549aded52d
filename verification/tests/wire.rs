use block_decode::Reader;
use block_decode::block_hex::{Block, Transaction};
use block_decode::hexcode::decode_hex_digits;

// A witness-flagged coinbase transaction and a legacy 1-input/4-output
// transaction, as broadcast on the network.
const TX_WITNESS_COINBASE: &str = "020000000001010000000000000000000000000000000000000000000000000000000000000000ffffffff4d0360820904ab2d7e5e322f537069646572506f6f6cfabe6d6d664b0f8173a95a4ac375a977f76bcfe417f01b90097c8cd6245774e00e2f0af9020000008df9e4830ec0434099eb0e0000000000ffffffff0396f8fb4c0000000017a9144f0dd555d6f74016b8c57b265b17615dc092fa76870000000000000000266a24aa21a9ed1a90d574bff31c8aaf87630560799d1d949f5d9c7a87722a831dcf9ebb24f3ed0000000000000000266a24b9e11b6d93c98d94ff4693be57b5d99f1f4febb5dd1e867c4ed081c70059fd97f3c5e8df0120000000000000000000000000000000000000000000000000000000000000000000000000";
const TX_LEGACY: &str = "02000000014d8004262a6686f9daa8935f68ee6bfc9363b4e162b8696e5e891af9f77a2947000000006b483045022100d957a36572fcf69714ca4f5ef014959a9945b59c416e30ba1904e9e18d9db848022008d7aab903ade3b64036d3e2513f5708b2589762c822f68e8f54c3398a91c3d7012103a0c53fcc4704ba78331a896c3bd684328b44890b25f91cfb853ab0bb301c7875ffffffff0490350f00000000001976a914b0f90d990d7c41d95128d6f2f74384e5514b05e788ac51281d00000000001976a9142ab4e140a02e677a388e5f54798445398d7ebf6188ac3df445160000000017a914015bd7fecbd9d1e2ae5eb595c4de144a5679f4c1875f671509000000001976a91443849383122ebb8a28268a89700c9f723663b5b888ac00000000";

fn unhex(s: &str) -> Vec<u8> {
    decode_hex_digits(s.as_bytes()).unwrap()
}

#[test]
fn parse_tx() {
    let txs = [TX_WITNESS_COINBASE, TX_LEGACY];

    for tx_data in txs.iter() {
        let bytes = unhex(tx_data);
        let mut r = Reader::new(&bytes);
        let _tx = Transaction::from_bytes(&mut r).unwrap();
        assert_eq!(r.remaining(), 0);
    }
}

#[test]
fn varuint_boundaries() {
    let cases: [(&[u8], u64); 5] = [
        (&[0x00], 0),
        (&[0xfc], 252),
        (&[0xfd, 0x00, 0x01], 256),
        (&[0xfe, 0x00, 0x00, 0x01, 0x00], 65536),
        (&[0xff, 0xff, 0xff, 0xff, 0xff, 0xff, 0xff, 0xff, 0xff], u64::MAX),
    ];
    for (bytes, expected) in cases.iter() {
        let mut r = Reader::new(bytes);
        assert_eq!(r.get_varuint(), Some(*expected));
        assert_eq!(r.remaining(), 0);
    }
}

#[test]
fn varuint_underrun() {
    let cases: [&[u8]; 4] = [&[], &[0xfd, 0x00], &[0xfe, 0x00, 0x00, 0x01], &[0xff]];
    for bytes in cases.iter() {
        let mut r = Reader::new(bytes);
        assert_eq!(r.get_varuint(), None);
        assert_eq!(r.remaining(), bytes.len());
    }
}

#[test]
fn witness_detection() {
    // Marker path: empty first input list, flags byte, real input list.
    let bytes = unhex(TX_WITNESS_COINBASE);
    let mut r = Reader::new(&bytes);
    let tx = Transaction::from_bytes(&mut r).unwrap();
    assert_eq!(tx.version, 2);
    assert_eq!(tx.inputs.len(), 1);
    assert!(tx.inputs[0].witness.is_some());

    // Legacy path: a non-empty first input list leaves every witness unset.
    let bytes = unhex(TX_LEGACY);
    let mut r = Reader::new(&bytes);
    let tx = Transaction::from_bytes(&mut r).unwrap();
    assert_eq!(tx.inputs.len(), 1);
    assert!(tx.inputs.iter().all(|i| i.witness.is_none()));
}

#[test]
fn decode_sample_transactions_exactly() {
    let bytes = unhex(TX_WITNESS_COINBASE);
    let mut r = Reader::new(&bytes);
    let tx = Transaction::from_bytes(&mut r).unwrap();
    assert_eq!(r.remaining(), 0);
    assert_eq!(tx.version, 2);
    assert_eq!(tx.locktime, 0);
    assert_eq!(tx.inputs.len(), 1);
    let input = &tx.inputs[0];
    assert_eq!(input.hash.0, vec![0u8; 32]);
    assert_eq!(input.index, 0xffffffff);
    assert_eq!(input.script.len(), 77);
    assert_eq!(input.sequence, 0xffffffff);
    let witness = input.witness.as_ref().unwrap();
    assert_eq!(witness.len(), 1);
    assert_eq!(witness[0], vec![0u8; 32]);
    assert_eq!(tx.outputs.len(), 3);
    assert_eq!(tx.outputs[0].value, 1291581590);
    assert_eq!(tx.outputs[0].script.len(), 23);
    assert_eq!(tx.outputs[1].value, 0);
    assert_eq!(tx.outputs[1].script.len(), 38);

    let bytes = unhex(TX_LEGACY);
    let mut r = Reader::new(&bytes);
    let tx = Transaction::from_bytes(&mut r).unwrap();
    assert_eq!(r.remaining(), 0);
    assert_eq!(tx.version, 2);
    assert_eq!(tx.locktime, 0);
    assert_eq!(tx.inputs.len(), 1);
    let input = &tx.inputs[0];
    assert_eq!(
        input.hash.0,
        unhex("4d8004262a6686f9daa8935f68ee6bfc9363b4e162b8696e5e891af9f77a2947")
    );
    assert_eq!(input.index, 0);
    assert_eq!(input.script.len(), 107);
    assert_eq!(input.sequence, 0xffffffff);
    assert!(input.witness.is_none());
    assert_eq!(tx.outputs.len(), 4);
    assert_eq!(tx.outputs[0].value, 996752);
    assert_eq!(tx.outputs[1].value, 1910865);
    assert_eq!(tx.outputs[2].value, 373683261);
    assert_eq!(tx.outputs[3].value, 152397663);
    assert_eq!(tx.outputs[0].script.len(), 25);
}

#[test]
fn truncated_buffers_fail() {
    for tx_data in [TX_WITNESS_COINBASE, TX_LEGACY].iter() {
        let bytes = unhex(tx_data);
        for k in 0..bytes.len() {
            let mut r = Reader::new(&bytes[..k]);
            assert!(Transaction::from_bytes(&mut r).is_none());
        }
    }
}

fn sample_block_bytes() -> Vec<u8> {
    let mut bytes = Vec::new();
    bytes.extend_from_slice(&0x20000000u32.to_le_bytes());
    let prev_hash: Vec<u8> = (0u8..32).collect();
    let merkle_root: Vec<u8> = (32u8..64).collect();
    bytes.extend_from_slice(&prev_hash);
    bytes.extend_from_slice(&merkle_root);
    bytes.extend_from_slice(&1584284481u32.to_le_bytes());
    bytes.extend_from_slice(&0x17110119u32.to_le_bytes());
    bytes.extend_from_slice(&2084852653u32.to_le_bytes());
    bytes.push(1);
    bytes.extend_from_slice(&unhex(TX_LEGACY));
    bytes
}

#[test]
fn block_field_fidelity() {
    let bytes = sample_block_bytes();
    let mut r = Reader::new(&bytes);
    let block = Block::from_bytes(&mut r).unwrap();
    assert_eq!(r.remaining(), 0);
    assert_eq!(block.header.version, 0x20000000);
    assert_eq!(block.header.prev_hash.0, (0u8..32).collect::<Vec<u8>>());
    assert_eq!(block.header.merkle_root.0, (32u8..64).collect::<Vec<u8>>());
    assert_eq!(block.header.timestamp, 1584284481);
    assert_eq!(block.header.bits, 0x17110119);
    assert_eq!(block.header.nonce, 2084852653);
    assert_eq!(block.transactions.len(), 1);
    let tx = &block.transactions[0];
    assert_eq!(tx.version, 2);
    assert_eq!(tx.inputs.len(), 1);
    assert_eq!(tx.outputs.len(), 4);
    assert_eq!(tx.outputs[0].value, 996752);
    assert_eq!(tx.locktime, 0);
}

#[test]
fn truncated_block_fails() {
    let bytes = sample_block_bytes();
    for k in 0..bytes.len() {
        let mut r = Reader::new(&bytes[..k]);
        assert!(Block::from_bytes(&mut r).is_none());
    }
}

#[test]
fn block_with_long_zero_tx_count() {
    // tx_count encoded redundantly as 0xff + eight zero bytes, then
    // end-of-buffer: an empty transaction list, read to completion.
    let mut bytes = Vec::new();
    bytes.extend_from_slice(&[0u8; 80]);
    bytes.push(0xff);
    bytes.extend_from_slice(&[0u8; 8]);
    let mut r = Reader::new(&bytes);
    let block = Block::from_bytes(&mut r).unwrap();
    assert_eq!(block.transactions.len(), 0);
    assert_eq!(r.remaining(), 0);
}
