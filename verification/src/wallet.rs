//! The issuer's record store.
//!
//! All persisted objects live here, each type keyed by id: definitions with
//! their private keys and correctness proofs, staged rotation bundles,
//! schemas, and the four co-located registry records. The executor carries
//! out typed store commands; every operation is verified against the map
//! views of the stores it touches.

use vstd::prelude::*;
use crate::cred_def::{
    CredentialDefinitionCorrectnessProof,
    CredentialDefinitionPrivateKey,
    CredentialDefinitionV1,
    TemporaryCredentialDefinition,
};
use crate::record_map::RecordMap;
use crate::registry::{
    RevocationRegistryDefinitionPrivate,
    RevocationRegistryDefinitionV1,
    RevocationRegistryInfo,
    RevocationRegistryV1,
};
use crate::schema::SchemaV1;

verus! {

/// A typed store command: each persisted object type can be added under a
/// fresh id, read, replaced or deleted.
pub enum WalletCommand {
    AddSchema(String, SchemaV1),
    AddCredDef(String, CredentialDefinitionV1),
    AddCredDefPriv(String, CredentialDefinitionPrivateKey),
    AddCredDefProof(String, CredentialDefinitionCorrectnessProof),
    AddTempCredDef(String, TemporaryCredentialDefinition),
    DeleteTempCredDef(String),
}

/// The issuer's record store: one typed store per persisted object type,
/// each keyed by id.
pub struct WalletCommandExecutor {
    pub schemas: RecordMap<SchemaV1>,
    pub schema_ids: RecordMap<String>,
    pub cred_defs: RecordMap<CredentialDefinitionV1>,
    pub cred_def_privs: RecordMap<CredentialDefinitionPrivateKey>,
    pub cred_def_proofs: RecordMap<CredentialDefinitionCorrectnessProof>,
    pub temp_cred_defs: RecordMap<TemporaryCredentialDefinition>,
    pub rev_reg_defs: RecordMap<RevocationRegistryDefinitionV1>,
    pub rev_regs: RecordMap<RevocationRegistryV1>,
    pub rev_reg_privs: RecordMap<RevocationRegistryDefinitionPrivate>,
    pub rev_reg_infos: RecordMap<RevocationRegistryInfo>,
}

impl WalletCommandExecutor {
    /// An empty store: no record of any type.
    pub fn new() -> (r: WalletCommandExecutor)
        ensures
            r.schemas@ == Map::<Seq<char>, SchemaV1>::empty(),
            r.schema_ids@ == Map::<Seq<char>, String>::empty(),
            r.cred_defs@ == Map::<Seq<char>, CredentialDefinitionV1>::empty(),
            r.cred_def_privs@ == Map::<Seq<char>, CredentialDefinitionPrivateKey>::empty(),
            r.cred_def_proofs@ == Map::<Seq<char>, CredentialDefinitionCorrectnessProof>::empty(),
            r.temp_cred_defs@ == Map::<Seq<char>, TemporaryCredentialDefinition>::empty(),
            r.rev_reg_defs@ == Map::<Seq<char>, RevocationRegistryDefinitionV1>::empty(),
            r.rev_regs@ == Map::<Seq<char>, RevocationRegistryV1>::empty(),
            r.rev_reg_privs@ == Map::<Seq<char>, RevocationRegistryDefinitionPrivate>::empty(),
            r.rev_reg_infos@ == Map::<Seq<char>, RevocationRegistryInfo>::empty(),
    {
        WalletCommandExecutor {
            schemas: RecordMap::new(),
            schema_ids: RecordMap::new(),
            cred_defs: RecordMap::new(),
            cred_def_privs: RecordMap::new(),
            cred_def_proofs: RecordMap::new(),
            temp_cred_defs: RecordMap::new(),
            rev_reg_defs: RecordMap::new(),
            rev_regs: RecordMap::new(),
            rev_reg_privs: RecordMap::new(),
            rev_reg_infos: RecordMap::new(),
        }
    }

    /// Carries out one typed store command; reports whether it changed the
    /// store. An add of a taken id and a delete of a missing id change
    /// nothing.
    pub fn execute(&mut self, command: WalletCommand) -> (r: bool)
        ensures
            match command {
                WalletCommand::AddSchema(id, v) => r == !old(self).schemas@.contains_key(id@)
                    && final(self).schemas@ == if r {
                    old(self).schemas@.insert(id@, v)
                } else {
                    old(self).schemas@
                } && final(self).cred_defs@ == old(self).cred_defs@ && final(self).temp_cred_defs@
                    == old(self).temp_cred_defs@,
                WalletCommand::AddCredDef(id, v) => r == !old(self).cred_defs@.contains_key(id@)
                    && final(self).cred_defs@ == if r {
                    old(self).cred_defs@.insert(id@, v)
                } else {
                    old(self).cred_defs@
                } && final(self).schemas@ == old(self).schemas@ && final(self).temp_cred_defs@
                    == old(self).temp_cred_defs@,
                WalletCommand::AddCredDefPriv(id, v) => r == !old(
                    self,
                ).cred_def_privs@.contains_key(id@) && final(self).cred_def_privs@ == if r {
                    old(self).cred_def_privs@.insert(id@, v)
                } else {
                    old(self).cred_def_privs@
                } && final(self).cred_defs@ == old(self).cred_defs@ && final(self).temp_cred_defs@
                    == old(self).temp_cred_defs@,
                WalletCommand::AddCredDefProof(id, v) => r == !old(
                    self,
                ).cred_def_proofs@.contains_key(id@) && final(self).cred_def_proofs@ == if r {
                    old(self).cred_def_proofs@.insert(id@, v)
                } else {
                    old(self).cred_def_proofs@
                } && final(self).cred_defs@ == old(self).cred_defs@ && final(self).temp_cred_defs@
                    == old(self).temp_cred_defs@,
                WalletCommand::AddTempCredDef(id, v) => r == !old(
                    self,
                ).temp_cred_defs@.contains_key(id@) && final(self).temp_cred_defs@ == if r {
                    old(self).temp_cred_defs@.insert(id@, v)
                } else {
                    old(self).temp_cred_defs@
                } && final(self).cred_defs@ == old(self).cred_defs@,
                WalletCommand::DeleteTempCredDef(id) => r == old(
                    self,
                ).temp_cred_defs@.contains_key(id@) && final(self).temp_cred_defs@ == if r {
                    old(self).temp_cred_defs@.remove(id@)
                } else {
                    old(self).temp_cred_defs@
                } && final(self).cred_defs@ == old(self).cred_defs@,
            },
    {
        match command {
            WalletCommand::AddSchema(id, v) => self.schemas.add(id.as_str(), v),
            WalletCommand::AddCredDef(id, v) => self.cred_defs.add(id.as_str(), v),
            WalletCommand::AddCredDefPriv(id, v) => self.cred_def_privs.add(id.as_str(), v),
            WalletCommand::AddCredDefProof(id, v) => self.cred_def_proofs.add(id.as_str(), v),
            WalletCommand::AddTempCredDef(id, v) => self.temp_cred_defs.add(id.as_str(), v),
            WalletCommand::DeleteTempCredDef(id) => self.temp_cred_defs.delete(id.as_str()),
        }
    }
}

} // verus!
