use starstream_core::code::{CodeCache, CodeHash, ContractCode};
use starstream_core::contracts::{
    LinkedListNode, PayToPublicKeyHash, TokenMint, blacklist_empty, blacklist_insert, is_in_range,
};
use starstream_core::ids::{IdentityTable, UtxoId};
use starstream_core::linker::{ImportKind, classify_import};
use starstream_core::types::LinkerDialect;

#[test]
fn code_hash_is_sha256_of_the_blob() {
    let code = CodeHash::from_content(&b"abc".to_vec());
    let expected: [u8; 32] = [
        0xba, 0x78, 0x16, 0xbf, 0x8f, 0x01, 0xcf, 0xea, 0x41, 0x41, 0x40, 0xde, 0x5d, 0xae, 0x22,
        0x23, 0xb0, 0x03, 0x61, 0xa3, 0x96, 0x17, 0x7a, 0x9c, 0xb4, 0x10, 0xff, 0x61, 0xf2, 0x00,
        0x15, 0xad,
    ];
    assert_eq!(code.raw(), expected.to_vec());
}

#[test]
fn reparsing_code_yields_the_same_hash() {
    let blob = b"(module)".to_vec();
    let a = ContractCode::load(blob.clone());
    let b = ContractCode::load(blob);
    assert_eq!(a.hash().raw(), b.hash().raw());
    assert_ne!(
        a.hash().raw(),
        ContractCode::load(b"(module )".to_vec()).hash().raw()
    );
}

#[test]
fn code_cache_deduplicates_and_looks_up() {
    let mut cache = CodeCache::new();
    let h1 = cache.load_from_bytes(b"first blob".to_vec());
    let h2 = cache.load_from_bytes(b"first blob".to_vec());
    assert_eq!(h1.raw(), h2.raw());
    assert_eq!(cache.entries.len(), 1);
    let h3 = cache.load_from_bytes(b"second blob".to_vec());
    assert_eq!(cache.entries.len(), 2);
    assert!(cache.get(&h1).is_some());
    assert!(cache.get(&h3).is_some());
    let absent = CodeHash::from_content(&b"never loaded".to_vec());
    assert!(cache.get(&absent).is_none());
}

#[test]
fn identity_table_round_trip() {
    let mut table: IdentityTable<UtxoId> = IdentityTable::new();
    let id = UtxoId(0x0123_4567_89ab_cdef_fedc_ba98_7654_3210);
    let alias = table.encode(id);
    assert_eq!(table.decode(alias), Some(id));
    let other = table.encode(UtxoId(42));
    assert_eq!(table.decode(other), Some(UtxoId(42)));
    assert_eq!(table.decode(alias), Some(id));
}

#[test]
fn fabricated_alias_decodes_to_nothing() {
    let table: IdentityTable<UtxoId> = IdentityTable::new();
    assert_eq!(table.decode(0xdead_beef), None);
}

#[test]
fn coordination_imports_classify_by_prefix() {
    let m = b"starstream_utxo:example_contract".to_vec();
    let cases: [(&[u8], ImportKind); 7] = [
        (b"starstream_new_MyMain_new", ImportKind::UtxoNew),
        (b"starstream_resume_StarToken", ImportKind::UtxoResume),
        (b"starstream_query_MyMain_get_supply", ImportKind::UtxoQuery),
        (b"starstream_mutate_StarNftMint_mint", ImportKind::UtxoMutate),
        (b"starstream_consume_StarToken_burn", ImportKind::UtxoConsume),
        (b"starstream_status_MyMain", ImportKind::Reserved),
        (b"starstream_frobnicate", ImportKind::Malformed),
    ];
    for (name, expected) in cases {
        let (kind, contract) =
            classify_import(LinkerDialect::Coordination, &m, &name.to_vec());
        assert_eq!(kind, expected, "name {:?}", String::from_utf8_lossy(name));
        if kind != ImportKind::Reserved && kind != ImportKind::Malformed {
            assert_eq!(contract, b"example_contract".to_vec());
        }
    }
    let (kind, _) = classify_import(
        LinkerDialect::Coordination,
        &b"env".to_vec(),
        &b"abort".to_vec(),
    );
    assert_eq!(kind, ImportKind::Base);
    let (kind, _) = classify_import(
        LinkerDialect::Coordination,
        &b"wasi_snapshot_preview1".to_vec(),
        &b"fd_write".to_vec(),
    );
    assert_eq!(kind, ImportKind::Unavailable);
}

#[test]
fn utxo_and_token_imports_classify_by_prefix() {
    let tm = b"starstream_token:example_contract".to_vec();
    let (kind, contract) = classify_import(
        LinkerDialect::Utxo,
        &tm,
        &b"starstream_bind_StarNft".to_vec(),
    );
    assert_eq!(kind, ImportKind::TokenBind);
    assert_eq!(contract, b"example_contract".to_vec());
    let (kind, _) = classify_import(
        LinkerDialect::Utxo,
        &tm,
        &b"starstream_unbind_StarNft".to_vec(),
    );
    assert_eq!(kind, ImportKind::TokenUnbind);
    let (kind, _) = classify_import(
        LinkerDialect::Utxo,
        &b"starstream_utxo_env".to_vec(),
        &b"starstream_yield".to_vec(),
    );
    assert_eq!(kind, ImportKind::Base);
    // The token dialect links only the base environment.
    let (kind, _) = classify_import(
        LinkerDialect::Token,
        &tm,
        &b"starstream_bind_StarNft".to_vec(),
    );
    assert_eq!(kind, ImportKind::Unavailable);
}

#[test]
fn blacklist_insert_splits_the_range() {
    let root = blacklist_empty();
    assert_eq!(root.get_key(), 0);
    assert_eq!(root.get_next(), i32::MAX);
    let (low, high) = blacklist_insert(root, 1000);
    assert_eq!(low.get_key(), 0);
    assert_eq!(low.get_next(), 1000);
    assert_eq!(high.get_key(), 1000);
    assert_eq!(high.get_next(), i32::MAX);
    assert!(is_in_range(low, 500));
    assert!(!is_in_range(low, 1000));
    assert!(is_in_range(high, 2000));
}

#[test]
fn pay_to_public_key_hash_holds_one_token() {
    let mut mint = TokenMint::new();
    let intermediate = mint.mint(64);
    assert_eq!(intermediate.amount, 64);
    let mut utxo = PayToPublicKeyHash::new(7);
    assert_eq!(utxo.get_owner(), 7);
    assert!(utxo.token.is_none());
    utxo.attach(intermediate);
    assert_eq!(utxo.token, Some(intermediate));
    assert_eq!(utxo.get_owner(), 7);
    utxo.burn();
}

#[test]
fn linked_list_node_accessors() {
    let node = LinkedListNode::new(3, 9);
    assert_eq!(node.get_key(), 3);
    assert_eq!(node.get_next(), 9);
    node.burn();
}
