use universal_nft::bridge::{Bridge, CrossChainMessage, HOME_CHAIN_ID};
use universal_nft::codec::encode_inbound;
use universal_nft::errors::{BridgeError, LedgerError, RegistryError};
use universal_nft::identity::Identity;
use universal_nft::ledger::TokenLedger;
use universal_nft::registry::{MetadataRecord, MetadataRegistry};

fn ident(n: u64) -> Identity {
    Identity { w0: n, w1: n + 1, w2: n + 2, w3: n + 3 }
}

fn inbound_msg(payload: Vec<u8>) -> CrossChainMessage {
    CrossChainMessage {
        origin_chain_id: 7000,
        origin_address: ident(77),
        destination_chain_id: HOME_CHAIN_ID,
        destination_address: Vec::new(),
        payload,
    }
}

fn zeta_payload(recipient: Identity) -> Vec<u8> {
    encode_inbound(
        recipient,
        &b"Zeta NFT".to_vec(),
        &b"ZNFT".to_vec(),
        &b"https://zetachain.com/nft.json".to_vec(),
    )
}

#[test]
fn scenario_inbound_mint() {
    let authority = ident(1);
    let gateway = ident(10);
    let recipient = ident(20);
    let mut b = Bridge::new();
    assert!(b.initialize(authority, gateway).is_ok());

    let msg = inbound_msg(zeta_payload(recipient));
    let inst = b.on_inbound_message(gateway, &msg, 42).unwrap();

    assert_eq!(inst.asset, 42);
    assert_eq!(inst.supply, 1);
    assert_eq!(inst.holder, recipient);
    assert_eq!(inst.name, b"Zeta NFT".to_vec());
    assert_eq!(inst.symbol, b"ZNFT".to_vec());
    assert_eq!(inst.uri, b"https://zetachain.com/nft.json".to_vec());
    assert_eq!(inst.mint_authority, b.custody_account());

    assert_eq!(b.balance_of(42, recipient), 1);
    let meta = b.metadata_of(42).unwrap();
    assert_eq!(meta.name, b"Zeta NFT".to_vec());
    assert_eq!(meta.symbol, b"ZNFT".to_vec());
    assert_eq!(meta.uri, b"https://zetachain.com/nft.json".to_vec());
    assert!(meta.is_mutable);
    assert_eq!(meta.collection_size, 0);
    assert_eq!(meta.mint_authority, b.custody_account());
    assert_eq!(meta.update_authority, b.custody_account());
}

#[test]
fn scenario_inbound_wrong_gateway() {
    let authority = ident(1);
    let gateway = ident(10);
    let not_gateway = ident(11);
    let recipient = ident(20);
    let mut b = Bridge::new();
    assert!(b.initialize(authority, gateway).is_ok());

    let msg = inbound_msg(zeta_payload(recipient));
    let r = b.on_inbound_message(not_gateway, &msg, 42);
    assert_eq!(r.unwrap_err(), BridgeError::InvalidGateway);
    assert_eq!(b.balance_of(42, recipient), 0);
    assert!(b.metadata_of(42).is_none());
}

#[test]
fn scenario_outbound_lock() {
    let authority = ident(1);
    let gateway = ident(10);
    let holder = ident(20);
    let mut b = Bridge::new();
    assert!(b.initialize(authority, gateway).is_ok());
    let msg = inbound_msg(zeta_payload(holder));
    b.on_inbound_message(gateway, &msg, 42).unwrap();
    assert_eq!(b.balance_of(42, holder), 1);

    let dest = vec![0xAAu8, 0xBB, 0xCC];
    let out = b.send_outbound(holder, 42, 7, dest.clone(), gateway).unwrap();

    assert_eq!(b.balance_of(42, holder), 0);
    assert_eq!(b.balance_of(42, b.custody_account()), 1);
    assert_eq!(out.destination_chain_id, 7);
    assert_eq!(out.destination_address, dest);
    assert_eq!(out.origin_chain_id, HOME_CHAIN_ID);
    assert_eq!(out.origin_address, b.custody_account());
    // Outbound payload: big-endian asset key, then the original holder.
    assert_eq!(out.payload.len(), 40);
    assert_eq!(&out.payload[0..8], &[0, 0, 0, 0, 0, 0, 0, 42]);
    assert_eq!(&out.payload[8..16], &[0, 0, 0, 0, 0, 0, 0, 20]);
    assert_eq!(&out.payload[16..24], &[0, 0, 0, 0, 0, 0, 0, 21]);
}

#[test]
fn scenario_outbound_no_tokens() {
    let authority = ident(1);
    let gateway = ident(10);
    let holder = ident(20);
    let other = ident(30);
    let mut b = Bridge::new();
    assert!(b.initialize(authority, gateway).is_ok());
    let msg = inbound_msg(zeta_payload(holder));
    b.on_inbound_message(gateway, &msg, 42).unwrap();

    // `other` has balance 0 for the asset: the send is rejected, nothing moves.
    let r = b.send_outbound(other, 42, 7, vec![1, 2], gateway);
    assert_eq!(r.unwrap_err(), BridgeError::NoTokens);
    assert_eq!(b.balance_of(42, holder), 1);
    assert_eq!(b.balance_of(42, other), 0);
    assert_eq!(b.balance_of(42, b.custody_account()), 0);
}

#[test]
fn outbound_unknown_asset_is_no_tokens() {
    let mut b = Bridge::new();
    assert!(b.initialize(ident(1), ident(10)).is_ok());
    let r = b.send_outbound(ident(20), 99, 7, vec![1], ident(10));
    assert_eq!(r.unwrap_err(), BridgeError::NoTokens);
}

#[test]
fn outbound_wrong_endpoint() {
    let authority = ident(1);
    let gateway = ident(10);
    let holder = ident(20);
    let mut b = Bridge::new();
    assert!(b.initialize(authority, gateway).is_ok());
    let msg = inbound_msg(zeta_payload(holder));
    b.on_inbound_message(gateway, &msg, 42).unwrap();

    let r = b.send_outbound(holder, 42, 7, vec![1, 2], ident(11));
    assert_eq!(r.unwrap_err(), BridgeError::InvalidGateway);
    assert_eq!(b.balance_of(42, holder), 1);
    assert_eq!(b.balance_of(42, b.custody_account()), 0);
}

#[test]
fn initialize_twice_rejected() {
    let mut b = Bridge::new();
    assert!(b.initialize(ident(1), ident(10)).is_ok());
    let r = b.initialize(ident(2), ident(11));
    assert_eq!(r.unwrap_err(), BridgeError::AlreadyInitialized);
    // The configuration record is unchanged by the rejected call.
    assert_eq!(b.gateway_address(), ident(10));
    let cfg = b.config.as_ref().unwrap();
    assert_eq!(cfg.authority, ident(1));
    assert_eq!(cfg.gateway_address, ident(10));
}

#[test]
fn inbound_malformed_payload() {
    let mut b = Bridge::new();
    assert!(b.initialize(ident(1), ident(10)).is_ok());
    let msg = inbound_msg(vec![0u8; 33]);
    let r = b.on_inbound_message(ident(10), &msg, 42);
    assert_eq!(r.unwrap_err(), BridgeError::MalformedPayload);
    assert!(b.metadata_of(42).is_none());
}

#[test]
fn inbound_duplicate_asset_atomic() {
    let gateway = ident(10);
    let first = ident(20);
    let second = ident(30);
    let mut b = Bridge::new();
    assert!(b.initialize(ident(1), gateway).is_ok());
    b.on_inbound_message(gateway, &inbound_msg(zeta_payload(first)), 42).unwrap();

    // Replaying the asset key fails at registration, and no mint happens.
    let payload = encode_inbound(second, &b"Other".to_vec(), &b"OTH".to_vec(), &b"u".to_vec());
    let r = b.on_inbound_message(gateway, &inbound_msg(payload), 42);
    assert_eq!(
        r.unwrap_err(),
        BridgeError::Registry(RegistryError::DuplicateAsset)
    );
    assert_eq!(b.balance_of(42, second), 0);
    assert_eq!(b.balance_of(42, first), 1);
    let meta = b.metadata_of(42).unwrap();
    assert_eq!(meta.name, b"Zeta NFT".to_vec());
}

#[test]
fn custody_identity_is_deterministic() {
    let mut b1 = Bridge::new();
    let mut b2 = Bridge::new();
    assert!(b1.initialize(ident(1), ident(10)).is_ok());
    assert!(b2.initialize(ident(2), ident(11)).is_ok());
    // The signing identity is re-derived from the well-known seed alone.
    assert_eq!(b1.custody_account(), b2.custody_account());
}

#[test]
fn wrong_gateway_rejected_before_decode() {
    // A caller that is not the gateway is rejected even when the payload is
    // also malformed: authentication is the first gate.
    let mut b = Bridge::new();
    assert!(b.initialize(ident(1), ident(10)).is_ok());
    let msg = inbound_msg(Vec::new());
    let r = b.on_inbound_message(ident(11), &msg, 42);
    assert_eq!(r.unwrap_err(), BridgeError::InvalidGateway);
}

#[test]
fn no_tokens_rejected_before_endpoint_check() {
    // A holder without the unit is rejected even when the endpoint is also
    // wrong: the balance check comes first.
    let mut b = Bridge::new();
    assert!(b.initialize(ident(1), ident(10)).is_ok());
    let r = b.send_outbound(ident(20), 99, 7, vec![1], ident(11));
    assert_eq!(r.unwrap_err(), BridgeError::NoTokens);
}

#[test]
fn registry_duplicate_fails_directly() {
    let rec = |owner: Identity| MetadataRecord {
        asset: 5,
        name: b"n".to_vec(),
        symbol: b"s".to_vec(),
        uri: b"u".to_vec(),
        is_mutable: true,
        collection_size: 0,
        mint_authority: owner,
        update_authority: owner,
    };
    let mut reg = MetadataRegistry::new();
    assert!(reg.register(rec(ident(1))).is_ok());
    let r = reg.register(rec(ident(2)));
    assert_eq!(r.unwrap_err(), RegistryError::DuplicateAsset);
    // The first registration is untouched.
    assert_eq!(reg.lookup(5).unwrap().mint_authority, ident(1));
}

#[test]
fn ledger_mint_duplicate_fails() {
    let mut l = TokenLedger::new();
    assert!(l.mint(5, ident(1)).is_ok());
    let r = l.mint(5, ident(2));
    assert_eq!(r.unwrap_err(), LedgerError::AssetAlreadyExists);
    assert_eq!(l.balance_of(5, ident(1)), 1);
    assert_eq!(l.balance_of(5, ident(2)), 0);
}

#[test]
fn ledger_transfer_without_balance_fails() {
    let mut l = TokenLedger::new();
    assert!(l.mint(5, ident(1)).is_ok());
    let r = l.transfer(5, ident(2), ident(3));
    assert_eq!(r.unwrap_err(), LedgerError::InsufficientBalance);
    let r2 = l.transfer(9, ident(1), ident(3));
    assert_eq!(r2.unwrap_err(), LedgerError::InsufficientBalance);
    assert_eq!(l.balance_of(5, ident(1)), 1);
}
