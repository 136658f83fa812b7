use vstd::pervasive::unreached;
use vstd::prelude::*;

use crate::codec::clone_bytes;
use crate::codec::decode_payload;
use crate::codec::decode_spec;
use crate::codec::encode_outbound;
use crate::codec::outbound_payload;
use crate::config::BridgeConfig;
use crate::config::config_seed;
use crate::errors::BridgeError;
use crate::errors::RegistryError;
use crate::identity::Identity;
use crate::ledger::TokenLedger;
use crate::ledger::spec_balance;
use crate::registry::MetadataRecord;
use crate::registry::MetadataRegistry;
use crate::registry::MetadataView;

verus! {

/// Chain id under which this ledger appears in cross-chain messages.
pub const HOME_CHAIN_ID: u64 = 1;

/// One freshly minted non-fungible asset-instance, as the inbound handler
/// reports it.
#[derive(Debug)]
pub struct AssetInstance {
    pub asset: u64,
    pub name: Vec<u8>,
    pub symbol: Vec<u8>,
    pub uri: Vec<u8>,
    pub mint_authority: Identity,
    pub holder: Identity,
    pub supply: u64,
}

/// A transient cross-chain message. Inbound instances are consumed by the
/// inbound handler; outbound instances are produced by the outbound handler
/// and handed to the transport by the caller.
#[derive(Debug)]
pub struct CrossChainMessage {
    pub origin_chain_id: u64,
    pub origin_address: Identity,
    pub destination_chain_id: u64,
    pub destination_address: Vec<u8>,
    pub payload: Vec<u8>,
}

/// The whole bridge deployment: its one configuration record (once
/// initialized) and the ledger and registry state the handlers act on.
pub struct Bridge {
    pub config: Option<BridgeConfig>,
    pub ledger: TokenLedger,
    pub registry: MetadataRegistry,
}

impl Bridge {
    pub open spec fn is_initialized(&self) -> bool {
        self.config is Some
    }

    pub open spec fn spec_config(&self) -> BridgeConfig {
        self.config->0
    }

    /// The only identity trusted as inbound message origin and outbound
    /// routing endpoint.
    pub open spec fn spec_gateway(&self) -> Identity {
        self.spec_config().gateway_address
    }

    /// The custody account: the derived signing identity. An asset-instance
    /// held by it is locked.
    pub open spec fn custody(&self) -> Identity {
        self.spec_config().spec_derived()
    }

    pub open spec fn spec_balance_of(&self, asset: u64, owner: Identity) -> u64 {
        spec_balance(self.ledger.holders(), asset, owner)
    }

    /// Deployment invariant: ledger and registry are well-formed and agree on
    /// which asset keys exist (an instance is minted exactly when its
    /// metadata is registered); before initialization nothing exists; and
    /// every registered instance names the derived signer as both mint and
    /// update authority.
    pub open spec fn wf(&self) -> bool {
        &&& self.ledger.wf()
        &&& self.registry.wf()
        &&& self.ledger.holders().dom() == self.registry.table().dom()
        &&& match self.config {
            None => self.ledger.records@.len() == 0 && self.registry.records@.len() == 0,
            Some(c) => c.wf() && forall|a: u64|
                #[trigger] self.registry.table().dom().contains(a) ==> self.registry.table()[
                    a
                ].mint_authority == c.spec_derived() && self.registry.table()[a].update_authority
                    == c.spec_derived(),
        }
    }

    /// A fresh, uninitialized deployment: nothing is minted or registered.
    pub fn new() -> (r: Bridge)
        ensures
            r.wf(),
            !r.is_initialized(),
            forall|asset: u64, owner: Identity| r.spec_balance_of(asset, owner) == 0,
            forall|asset: u64| !r.registry.table().dom().contains(asset),
    {
        let r = Bridge {
            config: None,
            ledger: TokenLedger::new(),
            registry: MetadataRegistry::new(),
        };
        proof {
            assert(r.ledger.holders().dom() =~= r.registry.table().dom());
        }
        r
    }

    /// Current balance of `owner` for `asset`.
    pub fn balance_of(&self, asset: u64, owner: Identity) -> (r: u64)
        requires
            self.wf(),
        ensures
            r == self.spec_balance_of(asset, owner),
    {
        self.ledger.balance_of(asset, owner)
    }

    /// The custody account's identity: the derived signer.
    pub fn custody_account(&self) -> (r: Identity)
        requires
            self.is_initialized(),
        ensures
            r == self.custody(),
    {
        match &self.config {
            Some(c) => c.derived_signer(),
            None => unreached(),
        }
    }

    /// The configured gateway identity.
    pub fn gateway_address(&self) -> (r: Identity)
        requires
            self.is_initialized(),
        ensures
            r == self.spec_gateway(),
    {
        match &self.config {
            Some(c) => c.gateway_address,
            None => unreached(),
        }
    }

    /// The registered metadata for `asset`, if any.
    pub fn metadata_of(&self, asset: u64) -> (r: Option<&MetadataRecord>)
        requires
            self.wf(),
        ensures
            match r {
                Some(m) => self.registry.table().dom().contains(asset) && self.registry.table()[
                    asset
                ] == m@ && m.asset == asset,
                None => !self.registry.table().dom().contains(asset),
            },
    {
        self.registry.lookup(asset)
    }

    /// Create the deployment's configuration record: executed once; a second
    /// call is rejected and leaves the record untouched.
    pub fn initialize(&mut self, caller_identity: Identity, gateway_address: Identity) -> (r:
        Result<(), BridgeError>)
        requires
            old(self).wf(),
        ensures
            final(self).wf(),
            final(self).ledger == old(self).ledger,
            final(self).registry == old(self).registry,
            old(self).is_initialized() ==> r == Err::<(), BridgeError>(
                BridgeError::AlreadyInitialized,
            ) && *final(self) == *old(self),
            !old(self).is_initialized() ==> {
                &&& r is Ok
                &&& final(self).is_initialized()
                &&& final(self).spec_config().authority == caller_identity
                &&& final(self).spec_config().gateway_address == gateway_address
                &&& final(self).spec_config().wf()
            },
    {
        match &self.config {
            Some(_) => Err(BridgeError::AlreadyInitialized),
            None => {
                self.config = Some(
                    BridgeConfig {
                        authority: caller_identity,
                        gateway_address,
                        signing_seed: config_seed(),
                    },
                );
                Ok(())
            },
        }
    }

    /// Handle an inbound cross-chain message: authenticate the caller as the
    /// configured gateway, decode the payload, register the new instance's
    /// metadata under the derived signer's authority, and mint its single
    /// unit to the decoded recipient. `asset` is the fresh instance key the
    /// transport created for this message. Any failure leaves the deployment
    /// exactly as it was.
    pub fn on_inbound_message(
        &mut self,
        caller_identity: Identity,
        message: &CrossChainMessage,
        asset: u64,
    ) -> (r: Result<AssetInstance, BridgeError>)
        requires
            old(self).wf(),
            old(self).is_initialized(),
        ensures
            final(self).wf(),
            final(self).config == old(self).config,
            caller_identity != old(self).spec_gateway() ==> r == Err::<AssetInstance, BridgeError>(
                BridgeError::InvalidGateway,
            ) && *final(self) == *old(self),
            caller_identity == old(self).spec_gateway() && decode_spec(message.payload@) is None
                ==> r == Err::<AssetInstance, BridgeError>(BridgeError::MalformedPayload)
                && *final(self) == *old(self),
            caller_identity == old(self).spec_gateway() && decode_spec(message.payload@) is Some
                && old(self).registry.table().dom().contains(asset) ==> r == Err::<
                AssetInstance,
                BridgeError,
            >(BridgeError::Registry(RegistryError::DuplicateAsset)) && *final(self) == *old(self),
            caller_identity == old(self).spec_gateway() && decode_spec(message.payload@) is Some
                && !old(self).registry.table().dom().contains(asset) ==> {
                let d = decode_spec(message.payload@)->0;
                &&& (r matches Ok(inst) && inst.asset == asset && inst.supply == 1 && inst.name@
                    == d.name && inst.symbol@ == d.symbol && inst.uri@ == d.uri && inst.holder
                    == d.recipient && inst.mint_authority == old(self).custody())
                &&& final(self).ledger.holders() == old(self).ledger.holders().insert(
                    asset,
                    d.recipient,
                )
                &&& final(self).registry.table() == old(self).registry.table().insert(
                    asset,
                    MetadataView {
                        name: d.name,
                        symbol: d.symbol,
                        uri: d.uri,
                        is_mutable: true,
                        collection_size: 0,
                        mint_authority: old(self).custody(),
                        update_authority: old(self).custody(),
                    },
                )
            },
    {
        let (gateway_address, derived) = match &self.config {
            Some(c) => (c.gateway_address, c.derived_signer()),
            None => unreached(),
        };
        if caller_identity != gateway_address {
            return Err(BridgeError::InvalidGateway);
        }
        let decoded = match decode_payload(&message.payload) {
            Ok(d) => d,
            Err(e) => {
                return Err(e);
            },
        };
        let name = clone_bytes(&decoded.name);
        let symbol = clone_bytes(&decoded.symbol);
        let uri = clone_bytes(&decoded.uri);
        match self.registry.register(
            MetadataRecord {
                asset,
                name: decoded.name,
                symbol: decoded.symbol,
                uri: decoded.uri,
                is_mutable: true,
                collection_size: 0,
                mint_authority: derived,
                update_authority: derived,
            },
        ) {
            Ok(()) => {},
            Err(e) => {
                return Err(BridgeError::Registry(e));
            },
        }
        match self.ledger.mint(asset, decoded.recipient) {
            Ok(()) => {},
            Err(_) => {
                return unreached();
            },
        }
        proof {
            assert(self.ledger.holders().dom() =~= self.registry.table().dom());
        }
        Ok(
            AssetInstance {
                asset,
                name,
                symbol,
                uri,
                mint_authority: derived,
                holder: decoded.recipient,
                supply: 1,
            },
        )
    }

    /// Handle a holder's outbound request: check the holder owns the unit,
    /// check the routing endpoint is the configured gateway, move the unit
    /// into custody (the lock), and produce the outbound message for the
    /// transport. Any failure leaves the deployment exactly as it was.
    ///
    /// The lock is the durable state change; handing the returned message to
    /// the transport is the caller's step. If that step fails, the asset
    /// stays locked with no message sent — the caller sees both facts and
    /// must surface them; nothing here retries.
    pub fn send_outbound(
        &mut self,
        caller_identity: Identity,
        asset: u64,
        destination_chain_id: u64,
        destination_address: Vec<u8>,
        transport_endpoint: Identity,
    ) -> (r: Result<CrossChainMessage, BridgeError>)
        requires
            old(self).wf(),
            old(self).is_initialized(),
        ensures
            final(self).wf(),
            final(self).config == old(self).config,
            final(self).registry == old(self).registry,
            old(self).spec_balance_of(asset, caller_identity) == 0 ==> r == Err::<
                CrossChainMessage,
                BridgeError,
            >(BridgeError::NoTokens) && *final(self) == *old(self),
            old(self).spec_balance_of(asset, caller_identity) == 1 && transport_endpoint != old(
                self,
            ).spec_gateway() ==> r == Err::<CrossChainMessage, BridgeError>(
                BridgeError::InvalidGateway,
            ) && *final(self) == *old(self),
            old(self).spec_balance_of(asset, caller_identity) == 1 && transport_endpoint == old(
                self,
            ).spec_gateway() ==> {
                &&& (r matches Ok(m) && m.origin_chain_id == HOME_CHAIN_ID && m.origin_address
                    == old(self).custody() && m.destination_chain_id == destination_chain_id
                    && m.destination_address@ == destination_address@ && m.payload@
                    == outbound_payload(asset, caller_identity))
                &&& final(self).ledger.holders() == old(self).ledger.holders().insert(
                    asset,
                    old(self).custody(),
                )
            },
    {
        let (gateway_address, derived) = match &self.config {
            Some(c) => (c.gateway_address, c.derived_signer()),
            None => unreached(),
        };
        if self.ledger.balance_of(asset, caller_identity) == 0 {
            return Err(BridgeError::NoTokens);
        }
        if transport_endpoint != gateway_address {
            return Err(BridgeError::InvalidGateway);
        }
        match self.ledger.transfer(asset, caller_identity, derived) {
            Ok(()) => {},
            Err(_) => {
                return unreached();
            },
        }
        proof {
            assert(self.ledger.holders().dom() =~= self.registry.table().dom());
        }
        let payload = encode_outbound(asset, caller_identity);
        Ok(
            CrossChainMessage {
                origin_chain_id: HOME_CHAIN_ID,
                origin_address: derived,
                destination_chain_id,
                destination_address,
                payload,
            },
        )
    }
}

} // verus!
