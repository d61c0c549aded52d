use block_decode::block_json::{InputAccumulator, InputField, JsonError, TransactionInput,
    TransactionInputScript};
use block_decode::hash256::H256;
use block_decode::hexcode::{HexError, decode_hex_digits, hex_decode, hex_decode_symbol};

#[test]
fn hex_symbols() {
    assert_eq!(hex_decode_symbol(b'0'), 0);
    assert_eq!(hex_decode_symbol(b'9'), 9);
    assert_eq!(hex_decode_symbol(b'a'), 10);
    assert_eq!(hex_decode_symbol(b'f'), 15);
}

#[test]
fn hex_decode_pairs() {
    assert_eq!(hex_decode("00ff10"), vec![0x00, 0xff, 0x10]);
    assert_eq!(hex_decode(""), Vec::<u8>::new());
    assert_eq!(hex_decode("deadbeef"), vec![0xde, 0xad, 0xbe, 0xef]);
}

#[test]
fn hex_digits_total_decoder() {
    assert_eq!(decode_hex_digits(b"AbCd"), Ok(vec![0xab, 0xcd]));
    assert_eq!(decode_hex_digits(b"abc"), Err(HexError::InvalidLength));
    assert_eq!(decode_hex_digits(b"zz"), Err(HexError::InvalidContent));
}

#[test]
fn h256_from_hex() {
    let hex64 = "4d8004262a6686f9daa8935f68ee6bfc9363b4e162b8696e5e891af9f77a2947";
    let h = H256::from_hex(hex64.as_bytes()).unwrap();
    assert_eq!(h.0, decode_hex_digits(hex64.as_bytes()).unwrap());
    assert_eq!(
        H256::from_hex(b"abcd").unwrap_err(),
        HexError::InvalidLength
    );
    let mut bad = hex64.to_string();
    bad.replace_range(0..1, "g");
    assert_eq!(
        H256::from_hex(bad.as_bytes()).unwrap_err(),
        HexError::InvalidContent
    );
    // Case-insensitive.
    let upper = hex64.to_uppercase();
    let h2 = H256::from_hex(upper.as_bytes()).unwrap();
    assert!(h == h2);
    assert!(h != H256::zero());
    assert_eq!(H256::zero().0, vec![0u8; 32]);
}

#[test]
fn h256_ordering_by_raw_bytes() {
    let a = H256::zero();
    let mut b = H256::zero();
    b.0[31] = 1;
    assert!(a < b);
    assert!(b > a);
    assert_eq!(a.partial_cmp(&H256::zero()), Some(std::cmp::Ordering::Equal));
}

#[test]
fn coinbase_input_selected_by_field_presence() {
    let mut acc = InputAccumulator::new();
    acc.set_coinbase("aabb").unwrap();
    acc.set_sequence(7).unwrap();
    match acc.finish().unwrap() {
        TransactionInput::Coinbase { hex, sequence } => {
            assert_eq!(hex, vec![0xaa, 0xbb]);
            assert_eq!(sequence, 7);
        },
        _ => panic!("expected a coinbase input"),
    }
}

#[test]
fn usual_input_selected_by_field_presence() {
    let hex64 = "4d8004262a6686f9daa8935f68ee6bfc9363b4e162b8696e5e891af9f77a2947";
    let mut acc = InputAccumulator::new();
    acc.set_txid(hex64).unwrap();
    acc.set_vout(1).unwrap();
    acc.set_script_sig(TransactionInputScript { assembly: "0".to_string(), hex: vec![0] })
        .unwrap();
    acc.set_sequence(5).unwrap();
    acc.set_txinwitness(&vec!["aa".to_string(), "0102".to_string()]).unwrap();
    match acc.finish().unwrap() {
        TransactionInput::Usual { txid, vout, script, sequence, txinwitness } => {
            assert_eq!(txid.unwrap().0, decode_hex_digits(hex64.as_bytes()).unwrap());
            assert_eq!(vout, 1);
            assert_eq!(script.hex, vec![0]);
            assert_eq!(sequence, 5);
            assert_eq!(txinwitness, Some(vec![vec![0xaa], vec![0x01, 0x02]]));
        },
        _ => panic!("expected a usual input"),
    }
}

#[test]
fn duplicate_field_is_an_error() {
    let mut acc = InputAccumulator::new();
    acc.set_vout(1).unwrap();
    assert!(matches!(
        acc.set_vout(2),
        Err(JsonError::DuplicateField(InputField::Vout))
    ));
    let mut acc = InputAccumulator::new();
    acc.set_coinbase("aa").unwrap();
    assert!(matches!(
        acc.set_coinbase("bb"),
        Err(JsonError::DuplicateField(InputField::Coinbase))
    ));
}

#[test]
fn mixed_variants_are_an_error() {
    let hex64 = "4d8004262a6686f9daa8935f68ee6bfc9363b4e162b8696e5e891af9f77a2947";
    let mut acc = InputAccumulator::new();
    acc.set_coinbase("aa").unwrap();
    acc.set_sequence(1).unwrap();
    acc.set_txid(hex64).unwrap();
    match acc.finish() {
        Err(JsonError::UnknownField(f)) => assert_eq!(f, "txid"),
        other => panic!("expected an unknown-field error, got {:?}", other),
    }
}

#[test]
fn missing_fields_are_an_error() {
    let hex64 = "4d8004262a6686f9daa8935f68ee6bfc9363b4e162b8696e5e891af9f77a2947";

    let acc = InputAccumulator::new();
    assert!(matches!(acc.finish(), Err(JsonError::MissingField(InputField::Txid))));

    let mut acc = InputAccumulator::new();
    acc.set_txid(hex64).unwrap();
    assert!(matches!(acc.finish(), Err(JsonError::MissingField(InputField::Vout))));

    let mut acc = InputAccumulator::new();
    acc.set_txid(hex64).unwrap();
    acc.set_vout(0).unwrap();
    assert!(matches!(acc.finish(), Err(JsonError::MissingField(InputField::ScriptSig))));

    let mut acc = InputAccumulator::new();
    acc.set_coinbase("aa").unwrap();
    assert!(matches!(acc.finish(), Err(JsonError::MissingField(InputField::Sequence))));
}

#[test]
fn ill_formed_hex_fields_are_errors() {
    let mut acc = InputAccumulator::new();
    assert!(matches!(
        acc.set_coinbase("abc"),
        Err(JsonError::InvalidHexLength(InputField::Coinbase))
    ));
    assert!(matches!(
        acc.set_coinbase("zz"),
        Err(JsonError::InvalidHexContent(InputField::Coinbase))
    ));
    assert!(matches!(
        acc.set_txid("abcd"),
        Err(JsonError::InvalidHexLength(InputField::Txid))
    ));
    assert!(matches!(
        acc.set_txinwitness(&vec!["aa".to_string(), "abc".to_string()]),
        Err(JsonError::InvalidHexLength(InputField::Txinwitness))
    ));
    assert!(matches!(
        acc.set_txinwitness(&vec!["q".repeat(2)]),
        Err(JsonError::InvalidHexContent(InputField::Txinwitness))
    ));
}

#[test]
fn type_mismatch_names_the_field() {
    let e = JsonError::TypeMismatch("vout".to_string());
    match e {
        JsonError::TypeMismatch(f) => assert_eq!(f, "vout"),
        _ => unreachable!(),
    }
}
