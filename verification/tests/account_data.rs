use base64::Engine;
use ore_stats::account_data::{
    decode_ui_account, encoding_to_str, AccountDecodeError, AccountEncoding, UiAccount, UiAccountData,
};

const OWNER: &str = "oreV3EG1i9BEgiAJ8b177Z2S2rMarzak4NMv1kULvWv";

fn account(data: UiAccountData, owner: &str) -> UiAccount {
    UiAccount { data, lamports: 42, owner: owner.to_string(), executable: false, rent_epoch: 7 }
}

#[test]
fn encoding_names() {
    assert_eq!(encoding_to_str(AccountEncoding::Base58), "base58");
    assert_eq!(encoding_to_str(AccountEncoding::Base64), "base64");
    assert_eq!(encoding_to_str(AccountEncoding::Base64Zstd), "base64+zstd");
    assert_eq!(encoding_to_str(AccountEncoding::JsonParsed), "jsonParsed");
    assert_eq!(encoding_to_str(AccountEncoding::Binary), "base64");
}

#[test]
fn decodes_base64_base58_and_zstd() {
    let a = decode_ui_account(&account(UiAccountData::List(Some("AQID".to_string())), OWNER), "base64").unwrap();
    assert_eq!(a.data, vec![1u8, 2, 3]);
    assert_eq!((a.lamports, a.rent_epoch, a.executable), (42, 7, false));
    assert_eq!(a.owner.to_vec(), bs58::decode(OWNER).into_vec().unwrap());

    let a = decode_ui_account(&account(UiAccountData::Text("Ldp".to_string()), OWNER), "base58").unwrap();
    assert_eq!(a.data, bs58::decode("Ldp").into_vec().unwrap());

    let payload = vec![9u8; 300];
    let compressed = zstd::encode_all(payload.as_slice(), 3).unwrap();
    let text = base64::engine::general_purpose::STANDARD.encode(&compressed);
    let a = decode_ui_account(&account(UiAccountData::List(Some(text)), OWNER), "base64+zstd").unwrap();
    assert_eq!(a.data, payload);
}

#[test]
fn decode_errors() {
    let bad = |data: UiAccountData, owner: &str, enc: &str| decode_ui_account(&account(data, owner), enc).unwrap_err();
    assert!(matches!(bad(UiAccountData::List(None), OWNER, "base64"), AccountDecodeError::InvalidDataFormat));
    match bad(UiAccountData::Unexpected("Null".to_string()), OWNER, "base64") {
        AccountDecodeError::UnexpectedDataFormat(d) => assert_eq!(d, "Null"),
        e => panic!("{:?}", e),
    }
    match bad(UiAccountData::Text("AQID".to_string()), OWNER, "jsonParsed") {
        AccountDecodeError::UnsupportedEncoding(e) => assert_eq!(e, "jsonParsed"),
        e => panic!("{:?}", e),
    }
    match bad(UiAccountData::Text("***".to_string()), OWNER, "base64") {
        AccountDecodeError::Base64(m) => {
            let expected = base64::engine::general_purpose::STANDARD.decode("***").unwrap_err().to_string();
            assert_eq!(m, expected);
        },
        e => panic!("{:?}", e),
    }
    assert!(matches!(bad(UiAccountData::Text("AQID".to_string()), OWNER, "base64+zstd"), AccountDecodeError::Zstd(_)));
    assert!(matches!(bad(UiAccountData::Text("0".to_string()), OWNER, "base58"), AccountDecodeError::Base58(_)));
    match bad(UiAccountData::Text("AQID".to_string()), "not a key", "base64") {
        AccountDecodeError::InvalidOwner(o) => assert_eq!(o, "not a key"),
        e => panic!("{:?}", e),
    }
}
