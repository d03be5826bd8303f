//! Key lifecycle management: generation, lookup, rotation, signing and
//! multi-signature keys, with a hardware security module where configured.
//! The modules and the software signer here are simulated. Times are
//! seconds since the UNIX epoch.
use vstd::prelude::*;
use crate::clock::now_secs;
use crate::encoding::{be8, copy_bytes, decimal_chars, to_be_vec, u64_to_string};
use crate::keyed::{keyed_map, keys_distinct, lemma_keyed_map_absent, lemma_keyed_map_index, lemma_keyed_map_update, lemma_keys_distinct_push};

verus! {

/// Key types
#[derive(Debug, Clone, Copy, PartialEq, Eq, Structural)]
pub enum KeyType {
    Ed25519,
    Secp256k1,
    Dilithium,
    RSA,
}

/// Key purposes
#[derive(Debug, Clone, Copy, PartialEq, Eq, Structural)]
pub enum KeyPurpose {
    Signing,
    Encryption,
    Authentication,
    MultiSig,
    Master,
}

/// Key status
#[derive(Debug, Clone, Copy, PartialEq, Eq, Structural)]
pub enum KeyStatus {
    Active,
    Inactive,
    Rotated,
    Compromised,
    Expired,
}

/// Key strength levels, weakest first.
#[derive(Debug, Clone, Copy, PartialEq, Eq, Structural)]
pub enum KeyStrength {
    Basic,
    Standard,
    High,
    Military,
}

/// Backup status
#[derive(Debug, Clone, Copy, PartialEq, Eq, Structural)]
pub enum BackupStatus {
    NotBackedUp,
    BackedUp,
    BackupFailed,
}

/// HSM providers
#[derive(Debug, Clone, Copy, PartialEq, Eq, Structural)]
pub enum HSMProvider {
    YubiHSM2,
    AWSCloudHSM,
    AzureKeyVault,
    Gemalto,
}

/// The name of a key type in lower case.
pub open spec fn key_type_text(t: KeyType) -> Seq<char> {
    match t {
        KeyType::Ed25519 => seq!['e', 'd', '2', '5', '5', '1', '9'],
        KeyType::Secp256k1 => seq!['s', 'e', 'c', 'p', '2', '5', '6', 'k', '1'],
        KeyType::Dilithium => seq!['d', 'i', 'l', 'i', 't', 'h', 'i', 'u', 'm'],
        KeyType::RSA => seq!['r', 's', 'a'],
    }
}

/// The name of a key purpose in lower case.
pub open spec fn purpose_text(p: KeyPurpose) -> Seq<char> {
    match p {
        KeyPurpose::Signing => seq!['s', 'i', 'g', 'n', 'i', 'n', 'g'],
        KeyPurpose::Encryption => seq!['e', 'n', 'c', 'r', 'y', 'p', 't', 'i', 'o', 'n'],
        KeyPurpose::Authentication => seq![
            'a', 'u', 't', 'h', 'e', 'n', 't', 'i', 'c', 'a', 't', 'i', 'o', 'n',
        ],
        KeyPurpose::MultiSig => seq!['m', 'u', 'l', 't', 'i', 's', 'i', 'g'],
        KeyPurpose::Master => seq!['m', 'a', 's', 't', 'e', 'r'],
    }
}

impl KeyType {
    /// The type's name in lower case.
    pub fn lower_name(&self) -> (r: &'static str)
        ensures
            r@ == key_type_text(*self),
    {
        match self {
            KeyType::Ed25519 => {
                proof { reveal_strlit("ed25519"); }
                "ed25519"
            },
            KeyType::Secp256k1 => {
                proof { reveal_strlit("secp256k1"); }
                "secp256k1"
            },
            KeyType::Dilithium => {
                proof { reveal_strlit("dilithium"); }
                "dilithium"
            },
            KeyType::RSA => {
                proof { reveal_strlit("rsa"); }
                "rsa"
            },
        }
    }
}

impl KeyPurpose {
    /// The purpose's name in lower case.
    pub fn lower_name(&self) -> (r: &'static str)
        ensures
            r@ == purpose_text(*self),
    {
        match self {
            KeyPurpose::Signing => {
                proof { reveal_strlit("signing"); }
                "signing"
            },
            KeyPurpose::Encryption => {
                proof { reveal_strlit("encryption"); }
                "encryption"
            },
            KeyPurpose::Authentication => {
                proof { reveal_strlit("authentication"); }
                "authentication"
            },
            KeyPurpose::MultiSig => {
                proof { reveal_strlit("multisig"); }
                "multisig"
            },
            KeyPurpose::Master => {
                proof { reveal_strlit("master"); }
                "master"
            },
        }
    }
}

/// Key management configuration
#[derive(Debug, Clone)]
pub struct KeyManagementConfig {
    pub enabled: bool,
    pub hsm_enabled: bool,
    pub key_rotation_enabled: bool,
    pub backup_enabled: bool,
    pub multi_sig_enabled: bool,
    pub key_rotation_interval_days: u64,
    pub backup_interval_hours: u64,
    pub min_key_strength: KeyStrength,
    pub hsm_provider: HSMProvider,
    pub master_key_id: String,
    pub emergency_key_access: bool,
}

impl Default for KeyManagementConfig {
    /// Everything on but emergency access; keys rotate every 90 days and
    /// back up every 24 hours; high strength; a YubiHSM 2; master key
    /// `master_key_001`.
    fn default() -> (r: KeyManagementConfig)
        ensures
            r.enabled && r.hsm_enabled && r.key_rotation_enabled && r.backup_enabled && r.multi_sig_enabled,
            r.key_rotation_interval_days == 90,
            r.backup_interval_hours == 24,
            r.min_key_strength == KeyStrength::High,
            r.hsm_provider == HSMProvider::YubiHSM2,
            r.master_key_id@ == "master_key_001"@,
            !r.emergency_key_access,
    {
        KeyManagementConfig {
            enabled: true,
            hsm_enabled: true,
            key_rotation_enabled: true,
            backup_enabled: true,
            multi_sig_enabled: true,
            key_rotation_interval_days: 90,
            backup_interval_hours: 24,
            min_key_strength: KeyStrength::High,
            hsm_provider: HSMProvider::YubiHSM2,
            master_key_id: String::from_str("master_key_001"),
            emergency_key_access: false,
        }
    }
}

/// Key metadata
#[derive(Debug, Clone)]
pub struct KeyMetadata {
    pub key_id: String,
    pub key_type: KeyType,
    pub purpose: KeyPurpose,
    pub created_at: u64,
    pub expires_at: Option<u64>,
    pub status: KeyStatus,
    pub strength: KeyStrength,
    pub algorithm: String,
    pub usage_count: u64,
    pub last_used: Option<u64>,
    pub rotation_count: u64,
    pub backup_status: BackupStatus,
    pub rotated_at: Option<u64>,
}

/// The view of key metadata.
pub struct MetadataView {
    pub key_id: Seq<char>,
    pub key_type: KeyType,
    pub purpose: KeyPurpose,
    pub created_at: u64,
    pub expires_at: Option<u64>,
    pub status: KeyStatus,
    pub strength: KeyStrength,
    pub algorithm: Seq<char>,
    pub usage_count: u64,
    pub last_used: Option<u64>,
    pub rotation_count: u64,
    pub backup_status: BackupStatus,
    pub rotated_at: Option<u64>,
}

impl View for KeyMetadata {
    type V = MetadataView;

    open spec fn view(&self) -> MetadataView {
        MetadataView {
            key_id: self.key_id@,
            key_type: self.key_type,
            purpose: self.purpose,
            created_at: self.created_at,
            expires_at: self.expires_at,
            status: self.status,
            strength: self.strength,
            algorithm: self.algorithm@,
            usage_count: self.usage_count,
            last_used: self.last_used,
            rotation_count: self.rotation_count,
            backup_status: self.backup_status,
            rotated_at: self.rotated_at,
        }
    }
}

/// Key handle for operations
#[derive(Debug, Clone)]
pub struct KeyHandle {
    pub key_id: String,
    pub key_type: KeyType,
    pub purpose: KeyPurpose,
    pub created_at: u64,
    pub expires_at: Option<u64>,
}

/// Multi-signature signature
#[derive(Debug, Clone)]
pub struct MultiSigSignature {
    pub signer_key_id: String,
    pub signature: Vec<u8>,
    pub signed_at: u64,
}

/// Errors of key management.
#[derive(Debug, Clone, Copy, PartialEq, Eq, Structural)]
pub enum KeyError {
    /// Key management is disabled.
    Disabled,
    /// No key has the id.
    NotFound,
    /// The key is not active.
    NotActive,
    /// Multi-signature keys are disabled.
    MultiSigDisabled,
}

/// The id of a key generated at `now`: `key_<type>_<purpose>_<now>`.
pub open spec fn key_id_for(t: KeyType, p: KeyPurpose, now: u64) -> Seq<char> {
    seq!['k', 'e', 'y', '_'] + key_type_text(t) + seq!['_'] + purpose_text(p) + seq!['_'] + decimal_chars(now as nat)
}

/// The id of a multi-signature key made at `now`:
/// `multisig_<type>_<threshold>_<total>_<now>`.
pub open spec fn multisig_id_for(t: KeyType, threshold: usize, total: usize, now: u64) -> Seq<char> {
    seq!['m', 'u', 'l', 't', 'i', 's', 'i', 'g', '_'] + key_type_text(t) + seq!['_'] + decimal_chars(threshold as nat)
        + seq!['_'] + decimal_chars(total as nat) + seq!['_'] + decimal_chars(now as nat)
}

/// The metadata recorded for a generated key.
pub open spec fn generated(m: MetadataView, id: Seq<char>, t: KeyType, p: KeyPurpose, now: u64, s: KeyStrength) -> MetadataView {
    MetadataView { key_id: id, key_type: t, purpose: p, created_at: now, status: KeyStatus::Active, strength: s, ..m }
}

/// The length of a software key of a type.
pub open spec fn software_key_len(t: KeyType) -> nat {
    match t {
        KeyType::Ed25519 => 32,
        KeyType::Secp256k1 => 32,
        KeyType::Dilithium => 64,
        KeyType::RSA => 2048,
    }
}

/// Byte `i` of a software key made at `now`: the clock reading modulo 256,
/// plus `i` for secp256k1.
pub open spec fn software_key_byte(t: KeyType, now: u64, i: int) -> u8 {
    match t {
        KeyType::Secp256k1 => ((now + i) % 256) as u8,
        _ => (now % 256) as u8,
    }
}

/// What the simulated software signer produces: the data, the key id's
/// bytes and the clock reading in eight big-endian bytes.
pub open spec fn software_signature(data: Seq<u8>, key_id: Seq<u8>, now: u64) -> Seq<u8> {
    data + key_id + be8(now)
}

/// What the simulated software verifier accepts: a signature that starts
/// with the data and ends with the key id's bytes.
pub open spec fn software_accepts(data: Seq<u8>, key_id: Seq<u8>, signature: Seq<u8>) -> bool {
    data.len() <= signature.len() && signature.take(data.len() as int) == data && key_id.len() <= signature.len()
        && signature.skip(signature.len() - key_id.len()) == key_id
}

/// A key is due for rotation at `now`: rotation is on and the key is at
/// least the rotation interval old, in whole days.
pub open spec fn due_for_rotation(enabled: bool, interval_days: u64, created_at: u64, now: u64) -> bool {
    enabled && (now - created_at) / 86400 >= interval_days
}

/// The interface of a hardware security module.
pub trait HSMInterface {
    fn connect(&self) -> Result<(), KeyError>;

    fn generate_key(&self, key_type: KeyType, key_id: &str) -> Result<Vec<u8>, KeyError>;

    fn sign_data(&self, key_id: &str, data: &[u8]) -> Result<Vec<u8>, KeyError>;

    fn verify_signature(&self, key_id: &str, data: &[u8], signature: &[u8]) -> Result<bool, KeyError>;

    fn get_key_info_at(&self, key_id: &str, now: u64) -> Result<KeyMetadata, KeyError>;
}

/// The metadata the simulated modules report for every key.
fn simulated_key_info(now: u64) -> (r: KeyMetadata)
    ensures
        r@.key_id == "test"@ && r@.key_type == KeyType::Ed25519 && r@.purpose == KeyPurpose::Signing
            && r@.created_at == now && r@.status == KeyStatus::Active && r@.strength == KeyStrength::High,
{
    KeyMetadata {
        key_id: String::from_str("test"),
        key_type: KeyType::Ed25519,
        purpose: KeyPurpose::Signing,
        created_at: now,
        expires_at: None,
        status: KeyStatus::Active,
        strength: KeyStrength::High,
        algorithm: String::from_str("Ed25519"),
        usage_count: 0,
        last_used: None,
        rotation_count: 0,
        backup_status: BackupStatus::NotBackedUp,
        rotated_at: None,
    }
}

/// A YubiHSM 2; simulated, accepting everything.
pub struct YubiHSM2Interface;

/// An AWS CloudHSM; simulated, accepting everything.
pub struct AWSCloudHSMInterface;

/// An Azure Key Vault; simulated, accepting everything.
pub struct AzureKeyVaultInterface;

/// A Gemalto HSM; simulated, accepting everything.
pub struct GemaltoHSMInterface;

impl YubiHSM2Interface {
    pub fn new() -> (r: YubiHSM2Interface) {
        YubiHSM2Interface
    }
}

impl AWSCloudHSMInterface {
    pub fn new() -> (r: AWSCloudHSMInterface) {
        AWSCloudHSMInterface
    }
}

impl AzureKeyVaultInterface {
    pub fn new() -> (r: AzureKeyVaultInterface) {
        AzureKeyVaultInterface
    }
}

impl GemaltoHSMInterface {
    pub fn new() -> (r: GemaltoHSMInterface) {
        GemaltoHSMInterface
    }
}

/// What every simulated module answers: keys of 32 zero bytes, the data
/// as its signature, and every signature valid.
fn simulated_key() -> (r: Vec<u8>)
    ensures
        r@ == Seq::new(32, |i: int| 0u8),
{
    let mut v: Vec<u8> = Vec::new();
    let mut i: usize = 0;
    while i < 32
        invariant
            0 <= i <= 32,
            v@ == Seq::new(i as nat, |j: int| 0u8),
        decreases 32 - i,
    {
        v.push(0);
        proof {
            assert(v@ =~= Seq::new((i + 1) as nat, |j: int| 0u8));
        }
        i = i + 1;
    }
    v
}

impl HSMInterface for YubiHSM2Interface {
    fn connect(&self) -> (r: Result<(), KeyError>)
        ensures
            r is Ok,
    {
        Ok(())
    }

    fn generate_key(&self, key_type: KeyType, key_id: &str) -> (r: Result<Vec<u8>, KeyError>)
        ensures
            r matches Ok(v) && v@ == Seq::new(32, |i: int| 0u8),
    {
        Ok(simulated_key())
    }

    fn sign_data(&self, key_id: &str, data: &[u8]) -> (r: Result<Vec<u8>, KeyError>)
        ensures
            r matches Ok(v) && v@ == data@,
    {
        Ok(copy_bytes(data))
    }

    fn verify_signature(&self, key_id: &str, data: &[u8], signature: &[u8]) -> (r: Result<bool, KeyError>)
        ensures
            r == Ok::<bool, KeyError>(true),
    {
        Ok(true)
    }

    fn get_key_info_at(&self, key_id: &str, now: u64) -> (r: Result<KeyMetadata, KeyError>) {
        Ok(simulated_key_info(now))
    }
}

impl HSMInterface for AWSCloudHSMInterface {
    fn connect(&self) -> (r: Result<(), KeyError>)
        ensures
            r is Ok,
    {
        Ok(())
    }

    fn generate_key(&self, key_type: KeyType, key_id: &str) -> (r: Result<Vec<u8>, KeyError>)
        ensures
            r matches Ok(v) && v@ == Seq::new(32, |i: int| 0u8),
    {
        Ok(simulated_key())
    }

    fn sign_data(&self, key_id: &str, data: &[u8]) -> (r: Result<Vec<u8>, KeyError>)
        ensures
            r matches Ok(v) && v@ == data@,
    {
        Ok(copy_bytes(data))
    }

    fn verify_signature(&self, key_id: &str, data: &[u8], signature: &[u8]) -> (r: Result<bool, KeyError>)
        ensures
            r == Ok::<bool, KeyError>(true),
    {
        Ok(true)
    }

    fn get_key_info_at(&self, key_id: &str, now: u64) -> (r: Result<KeyMetadata, KeyError>) {
        Ok(simulated_key_info(now))
    }
}

impl HSMInterface for AzureKeyVaultInterface {
    fn connect(&self) -> (r: Result<(), KeyError>)
        ensures
            r is Ok,
    {
        Ok(())
    }

    fn generate_key(&self, key_type: KeyType, key_id: &str) -> (r: Result<Vec<u8>, KeyError>)
        ensures
            r matches Ok(v) && v@ == Seq::new(32, |i: int| 0u8),
    {
        Ok(simulated_key())
    }

    fn sign_data(&self, key_id: &str, data: &[u8]) -> (r: Result<Vec<u8>, KeyError>)
        ensures
            r matches Ok(v) && v@ == data@,
    {
        Ok(copy_bytes(data))
    }

    fn verify_signature(&self, key_id: &str, data: &[u8], signature: &[u8]) -> (r: Result<bool, KeyError>)
        ensures
            r == Ok::<bool, KeyError>(true),
    {
        Ok(true)
    }

    fn get_key_info_at(&self, key_id: &str, now: u64) -> (r: Result<KeyMetadata, KeyError>) {
        Ok(simulated_key_info(now))
    }
}

impl HSMInterface for GemaltoHSMInterface {
    fn connect(&self) -> (r: Result<(), KeyError>)
        ensures
            r is Ok,
    {
        Ok(())
    }

    fn generate_key(&self, key_type: KeyType, key_id: &str) -> (r: Result<Vec<u8>, KeyError>)
        ensures
            r matches Ok(v) && v@ == Seq::new(32, |i: int| 0u8),
    {
        Ok(simulated_key())
    }

    fn sign_data(&self, key_id: &str, data: &[u8]) -> (r: Result<Vec<u8>, KeyError>)
        ensures
            r matches Ok(v) && v@ == data@,
    {
        Ok(copy_bytes(data))
    }

    fn verify_signature(&self, key_id: &str, data: &[u8], signature: &[u8]) -> (r: Result<bool, KeyError>)
        ensures
            r == Ok::<bool, KeyError>(true),
    {
        Ok(true)
    }

    fn get_key_info_at(&self, key_id: &str, now: u64) -> (r: Result<KeyMetadata, KeyError>) {
        Ok(simulated_key_info(now))
    }
}

/// Records when keys were last backed up.
pub struct BackupManager {
    last_backup: Option<u64>,
}

impl BackupManager {
    pub closed spec fn spec_last_backup(&self) -> Option<u64> {
        self.last_backup
    }

    /// A manager that has backed up nothing.
    pub fn new() -> (r: BackupManager)
        ensures
            r.spec_last_backup() is None,
    {
        BackupManager { last_backup: None }
    }

    /// Schedules the backup of a key at clock reading `now`.
    pub fn schedule_backup_at(&mut self, key_id: &str, now: u64) -> (r: Result<(), KeyError>)
        ensures
            r is Ok,
            final(self).spec_last_backup() == Some(now),
    {
        self.last_backup = Some(now);
        Ok(())
    }

    /// Starts the backup schedule.
    pub fn start_backup_scheduler(&self) -> (r: Result<(), KeyError>)
        ensures
            r is Ok,
    {
        Ok(())
    }

    /// When keys were last backed up.
    pub fn get_last_backup_time(&self) -> (r: Option<u64>)
        ensures
            r == self.spec_last_backup(),
    {
        self.last_backup
    }
}

/// Key rotation scheduler
pub struct KeyRotationScheduler;

impl KeyRotationScheduler {
    pub fn new() -> (r: KeyRotationScheduler) {
        KeyRotationScheduler
    }

    /// Starts the rotation schedule.
    pub fn start_scheduler(&self) -> (r: Result<(), KeyError>)
        ensures
            r is Ok,
    {
        Ok(())
    }
}

/// Multi-signature manager
pub struct MultiSigManager;

impl MultiSigManager {
    pub fn new() -> (r: MultiSigManager) {
        MultiSigManager
    }

    /// Names a multi-signature key of `total_keys` keys, `threshold` of which
    /// must sign, made at clock reading `now`.
    pub fn create_multi_sig_key_at(&self, key_type: KeyType, threshold: usize, total_keys: usize, now: u64) -> (r:
        Result<String, KeyError>)
        ensures
            r matches Ok(id) && id@ == multisig_id_for(key_type, threshold, total_keys, now),
    {
        let mut id = String::from_str("multisig_");
        id.append(key_type.lower_name());
        id.append("_");
        id.append(u64_to_string(threshold as u64).as_str());
        id.append("_");
        id.append(u64_to_string(total_keys as u64).as_str());
        id.append("_");
        id.append(u64_to_string(now).as_str());
        proof {
            reveal_strlit("multisig_");
            reveal_strlit("_");
            assert(id@ =~= multisig_id_for(key_type, threshold, total_keys, now));
        }
        Ok(id)
    }

    /// A signer's share of a multi-signature at clock reading `now`; the
    /// share is the data itself.
    pub fn sign_with_key_at(&self, multi_sig_id: &str, data: &[u8], signer_key_id: &str, now: u64) -> (r: Result<
        MultiSigSignature,
        KeyError,
    >)
        ensures
            r matches Ok(s) && s.signer_key_id@ == signer_key_id@ && s.signature@ == data@ && s.signed_at == now,
    {
        Ok(
            MultiSigSignature {
                signer_key_id: String::from_str(signer_key_id),
                signature: copy_bytes(data),
                signed_at: now,
            },
        )
    }

    /// Combines signature shares; the combination is 64 zero bytes.
    pub fn combine_signatures(&self, multi_sig_id: &str, signatures: Vec<MultiSigSignature>) -> (r: Result<
        Vec<u8>,
        KeyError,
    >)
        ensures
            r matches Ok(v) && v@ == Seq::new(64, |i: int| 0u8),
    {
        let mut v: Vec<u8> = Vec::new();
        let mut i: usize = 0;
        while i < 64
            invariant
                0 <= i <= 64,
                v@ == Seq::new(i as nat, |j: int| 0u8),
            decreases 64 - i,
        {
            v.push(0);
            proof {
                assert(v@ =~= Seq::new((i + 1) as nat, |j: int| 0u8));
            }
            i = i + 1;
        }
        Ok(v)
    }
}

/// Key counts and settings of an engine.
#[derive(Debug, Clone, Copy)]
pub struct KeyStatistics {
    pub total_keys: usize,
    pub active_keys: usize,
    pub rotated_keys: usize,
    pub compromised_keys: usize,
    pub hsm_enabled: bool,
    pub backup_enabled: bool,
    pub rotation_enabled: bool,
    pub rotation_count_total: u64,
    pub last_backup: Option<u64>,
}

/// The key of a metadata record: its id.
pub open spec fn metadata_key() -> spec_fn(MetadataView) -> Seq<char> {
    |m: MetadataView| m.key_id
}

/// The number of keys with a status.
pub open spec fn status_count(s: Seq<MetadataView>, st: KeyStatus) -> nat
    decreases s.len(),
{
    if s.len() == 0 {
        0
    } else {
        status_count(s.drop_last(), st) + if s.last().status == st { 1nat } else { 0nat }
    }
}

/// The rotations of all keys together.
pub open spec fn rotation_total(s: Seq<MetadataView>) -> nat
    decreases s.len(),
{
    if s.len() == 0 {
        0
    } else {
        rotation_total(s.drop_last()) + s.last().rotation_count as nat
    }
}

/// The store after a key was rotated: the new key recorded, then the old
/// one marked rotated at `now`.
pub open spec fn after_rotation(
    m: Map<Seq<char>, MetadataView>,
    old_id: Seq<char>,
    new_id: Seq<char>,
    new_key: MetadataView,
    now: u64,
) -> Map<Seq<char>, MetadataView> {
    let m1 = m.insert(new_id, new_key);
    m1.insert(old_id, MetadataView { status: KeyStatus::Rotated, rotated_at: Some(now), ..m1[old_id] })
}

/// The metadata a rotation asks for: the old key's type, purpose, strength
/// and algorithm, one more rotation, nothing used or backed up.
pub open spec fn rotation_request(old: MetadataView) -> MetadataView {
    MetadataView {
        key_id: Seq::empty(),
        key_type: old.key_type,
        purpose: old.purpose,
        created_at: 0,
        expires_at: None,
        status: KeyStatus::Active,
        strength: old.strength,
        algorithm: old.algorithm,
        usage_count: 0,
        last_used: None,
        rotation_count: (old.rotation_count + 1) as u64,
        backup_status: BackupStatus::NotBackedUp,
        rotated_at: None,
    }
}

/// What handing out the key `key_id` at clock reading `now` makes of `pre`,
/// returning `r`: unknown and inactive keys are refused; an active key
/// that is due for rotation is rotated first, unless keys are disabled; the
/// handle describes the key as it was.
pub open spec fn get_key_outcome(
    pre: KeyManagementEngine,
    post: KeyManagementEngine,
    key_id: Seq<char>,
    now: u64,
    r: Result<KeyHandle, KeyError>,
) -> bool {
    &&& post.spec_config() == pre.spec_config()
    &&& !pre.spec_keys().contains_key(key_id) ==> r == Err::<KeyHandle, KeyError>(KeyError::NotFound)
        && post == pre
    &&& pre.spec_keys().contains_key(key_id) ==> ({
        let o = pre.spec_keys()[key_id];
        let due = due_for_rotation(
            pre.spec_config().key_rotation_enabled,
            pre.spec_config().key_rotation_interval_days,
            o.created_at,
            now,
        );
        &&& o.status != KeyStatus::Active ==> r == Err::<KeyHandle, KeyError>(KeyError::NotActive)
            && post == pre
        &&& o.status == KeyStatus::Active && due && !pre.spec_config().enabled ==> r == Err::<
            KeyHandle,
            KeyError,
        >(KeyError::Disabled) && post == pre
        &&& o.status == KeyStatus::Active && due && pre.spec_config().enabled ==> post.spec_keys()
            == after_rotation(
            pre.spec_keys(),
            key_id,
            key_id_for(o.key_type, o.purpose, now),
            generated(
                rotation_request(o),
                key_id_for(o.key_type, o.purpose, now),
                o.key_type,
                o.purpose,
                now,
                pre.spec_config().min_key_strength,
            ),
            now,
        )
        &&& o.status == KeyStatus::Active && !due ==> post == pre
        &&& o.status == KeyStatus::Active && (!due || pre.spec_config().enabled) ==> (r matches Ok(h)
            && h.key_id@ == key_id && h.key_type == o.key_type && h.purpose == o.purpose && h.created_at
            == o.created_at && h.expires_at == o.expires_at)
    })
}

/// What generating a key of a type and purpose at clock reading `now`
/// makes of `pre`, returning `r`: refused with nothing changed while keys
/// are disabled; otherwise a key named after its type, purpose and `now`
/// is stored, and the backup time moves to `now` where backups are on.
pub open spec fn key_generated_outcome(pre: KeyManagementEngine, post: KeyManagementEngine, key_type: KeyType, purpose: KeyPurpose, metadata: MetadataView, now: u64, r: Result<String, KeyError>) -> bool {
    &&& post.spec_config() == pre.spec_config()
    &&& post.spec_hsm() == pre.spec_hsm()
    &&& !pre.spec_config().enabled ==> r == Err::<String, KeyError>(KeyError::Disabled) && post
        == pre
    &&& pre.spec_config().enabled ==> (r matches Ok(id) && id@ == key_id_for(key_type, purpose, now)
        && post.spec_keys() == pre.spec_keys().insert(
        id@,
        generated(metadata, id@, key_type, purpose, now, pre.spec_config().min_key_strength)
    ) && post.spec_last_backup() == if pre.spec_config().backup_enabled {
        Some(now)
    } else {
        pre.spec_last_backup()
    })
}

/// Whole days and seconds: an age of `age` seconds is at least `days`
/// whole days exactly when it is at least `days * 86400` seconds.
proof fn lemma_whole_days(age: int, days: int)
    requires
        age >= 0,
        days >= 0,
    ensures
        (age / 86400 >= days) == (age >= days * 86400),
{
    assert((age / 86400 >= days) == (age >= days * 86400)) by (nonlinear_arith)
        requires
            age >= 0,
            days >= 0,
    {
        assert(age == 86400 * (age / 86400) + age % 86400);
        assert(0 <= age % 86400 < 86400);
    }
}

/// Retrieving an active key rotates it exactly when rotation is on and the
/// key has lived at least the rotation interval, counted in whole days of
/// 86400 seconds. A younger key, or any key while rotation is off, is handed
/// out as it is and nothing changes; an old enough key, with keys enabled,
/// is handed out and marked rotated at `now`.
pub proof fn lemma_rotation_follows_key_age(
    pre: KeyManagementEngine,
    post: KeyManagementEngine,
    key_id: Seq<char>,
    now: u64,
    r: Result<KeyHandle, KeyError>,
)
    requires
        get_key_outcome(pre, post, key_id, now, r),
        pre.spec_keys().contains_key(key_id),
        pre.spec_keys()[key_id].status == KeyStatus::Active,
        pre.spec_keys()[key_id].created_at <= now,
    ensures
        !pre.spec_config().key_rotation_enabled || now - pre.spec_keys()[key_id].created_at
            < pre.spec_config().key_rotation_interval_days * 86400 ==> {
            &&& post == pre
            &&& r matches Ok(h) && h.key_id@ == key_id && h.created_at == pre.spec_keys()[key_id].created_at
                && h.key_type == pre.spec_keys()[key_id].key_type && h.purpose == pre.spec_keys()[key_id].purpose
        },
        pre.spec_config().key_rotation_enabled && pre.spec_config().enabled && now - pre.spec_keys()[key_id].created_at
            >= pre.spec_config().key_rotation_interval_days * 86400 ==> {
            &&& post.spec_keys().contains_key(key_id)
            &&& post.spec_keys()[key_id].status == KeyStatus::Rotated
            &&& post.spec_keys()[key_id].rotated_at == Some(now)
            &&& r matches Ok(h) && h.key_id@ == key_id && h.created_at == pre.spec_keys()[key_id].created_at
        },
{
    lemma_whole_days(
        now - pre.spec_keys()[key_id].created_at,
        pre.spec_config().key_rotation_interval_days as int,
    );
}

/// A key just generated is handed out as it was made (its type, purpose and
/// creation time) by a retrieval before it is one rotation interval old,
/// and that retrieval changes nothing.
pub proof fn lemma_generated_key_retrieved(
    pre: KeyManagementEngine,
    mid: KeyManagementEngine,
    post: KeyManagementEngine,
    key_type: KeyType,
    purpose: KeyPurpose,
    metadata: MetadataView,
    made: u64,
    later: u64,
    id: String,
    r2: Result<KeyHandle, KeyError>,
)
    requires
        key_generated_outcome(pre, mid, key_type, purpose, metadata, made, Ok(id)),
        get_key_outcome(mid, post, id@, later, r2),
        made <= later,
        later - made < pre.spec_config().key_rotation_interval_days * 86400,
    ensures
        post == mid,
        r2 matches Ok(h) && h.key_id@ == id@ && h.key_type == key_type && h.purpose == purpose && h.created_at == made,
{
    lemma_rotation_follows_key_age(mid, post, id@, later, r2);
}

/// Key management engine
pub struct KeyManagementEngine {
    config: KeyManagementConfig,
    key_store: Vec<KeyMetadata>,
    hsm_interface: Option<HSMProvider>,
    backup_manager: BackupManager,
    rotation_scheduler: KeyRotationScheduler,
    multi_sig_manager: MultiSigManager,
}

impl KeyManagementEngine {
    pub closed spec fn spec_config(&self) -> KeyManagementConfig {
        self.config
    }

    /// The keys in the order they were first generated.
    pub closed spec fn spec_key_list(&self) -> Seq<MetadataView> {
        self.key_store@.map_values(|m: KeyMetadata| m@)
    }

    /// The keys by id.
    pub open spec fn spec_keys(&self) -> Map<Seq<char>, MetadataView> {
        keyed_map(self.spec_key_list(), metadata_key())
    }

    /// The module in use, if any.
    pub closed spec fn spec_hsm(&self) -> Option<HSMProvider> {
        self.hsm_interface
    }

    /// When keys were last backed up.
    pub closed spec fn spec_last_backup(&self) -> Option<u64> {
        self.backup_manager.spec_last_backup()
    }

    /// One record per key id.
    pub closed spec fn wf(&self) -> bool {
        keys_distinct(self.spec_key_list(), metadata_key())
    }

    /// An engine with no keys, using the configured module where the module
    /// is enabled.
    pub fn new(config: KeyManagementConfig) -> (r: KeyManagementEngine)
        ensures
            r.wf(),
            r.spec_config() == config,
            r.spec_key_list().len() == 0,
            r.spec_hsm() == if config.hsm_enabled { Some(config.hsm_provider) } else { None },
            r.spec_last_backup() is None,
    {
        let hsm_interface = if config.hsm_enabled { Some(config.hsm_provider) } else { None };
        let r = KeyManagementEngine {
            config,
            key_store: Vec::new(),
            hsm_interface,
            backup_manager: BackupManager::new(),
            rotation_scheduler: KeyRotationScheduler::new(),
            multi_sig_manager: MultiSigManager::new(),
        };
        assert(r.spec_key_list() =~= Seq::<MetadataView>::empty());
        r
    }

    /// The configuration.
    pub fn config(&self) -> (r: &KeyManagementConfig)
        ensures
            *r == self.spec_config(),
    {
        &self.config
    }

    /// Connects the module, loads the stored keys and starts the schedules.
    pub fn initialize(&self) -> (r: Result<(), KeyError>)
        ensures
            r is Ok,
    {
        match self.hsm_interface {
            Some(p) => {
                let connected = match p {
                    HSMProvider::YubiHSM2 => YubiHSM2Interface::new().connect(),
                    HSMProvider::AWSCloudHSM => AWSCloudHSMInterface::new().connect(),
                    HSMProvider::AzureKeyVault => AzureKeyVaultInterface::new().connect(),
                    HSMProvider::Gemalto => GemaltoHSMInterface::new().connect(),
                };
                match connected {
                    Ok(()) => {},
                    Err(e) => return Err(e),
                }
            },
            None => {},
        }
        if self.config.key_rotation_enabled {
            match self.rotation_scheduler.start_scheduler() {
                Ok(()) => {},
                Err(e) => return Err(e),
            }
        }
        if self.config.backup_enabled {
            match self.backup_manager.start_backup_scheduler() {
                Ok(()) => {},
                Err(e) => return Err(e),
            }
        }
        Ok(())
    }

    /// Position of a key.
    fn find(&self, key_id: &str) -> (r: Option<usize>)
        requires
            self.wf(),
        ensures
            match r {
                Some(i) => i < self.key_store@.len() && self.spec_key_list()[i as int].key_id == key_id@
                    && self.spec_keys().contains_key(key_id@) && self.spec_keys()[key_id@]
                    == self.spec_key_list()[i as int],
                None => !self.spec_keys().contains_key(key_id@),
            },
    {
        let wanted = String::from_str(key_id);
        let mut i: usize = 0;
        while i < self.key_store.len()
            invariant
                0 <= i <= self.key_store@.len(),
                wanted@ == key_id@,
                self.wf(),
                forall|j: int| 0 <= j < i ==> (#[trigger] self.key_store@[j]).key_id@ != key_id@,
            decreases self.key_store@.len() - i,
        {
            if self.key_store[i].key_id == wanted {
                proof {
                    lemma_keyed_map_index(self.spec_key_list(), metadata_key(), i as int);
                }
                return Some(i);
            }
            i = i + 1;
        }
        proof {
            assert forall|j: int| 0 <= j < self.spec_key_list().len() implies (metadata_key())(
                self.spec_key_list()[j],
            ) != key_id@ by {
                assert(self.spec_key_list()[j].key_id == self.key_store@[j].key_id@);
            }
            lemma_keyed_map_absent(self.spec_key_list(), metadata_key(), key_id@);
        }
        None
    }

    /// Records a key's metadata, replacing the record with its id.
    fn store(&mut self, m: KeyMetadata)
        requires
            old(self).wf(),
        ensures
            final(self).wf(),
            final(self).spec_keys() == old(self).spec_keys().insert(m@.key_id, m@),
            final(self).spec_config() == old(self).spec_config(),
            final(self).spec_hsm() == old(self).spec_hsm(),
            final(self).spec_last_backup() == old(self).spec_last_backup(),
    {
        let ghost mv = m@;
        let ghost before = self.spec_key_list();
        match self.find(m.key_id.as_str()) {
            Some(i) => {
                self.key_store.set(i, m);
                proof {
                    assert(self.spec_key_list() =~= before.update(i as int, mv));
                    lemma_keyed_map_update(before, metadata_key(), i as int, mv);
                }
            },
            None => {
                proof {
                    lemma_keys_distinct_push(before, metadata_key(), mv);
                }
                self.key_store.push(m);
                proof {
                    assert(self.spec_key_list() =~= before.push(mv));
                    assert(self.spec_key_list().drop_last() =~= before);
                }
            },
        }
    }

    /// A software key of a type, made at clock reading `now`; for
    /// development only.
    fn generate_software_key(&self, key_type: KeyType, now: u64) -> (r: Vec<u8>)
        ensures
            r@.len() == software_key_len(key_type),
            forall|i: int| 0 <= i < r@.len() ==> r@[i] == software_key_byte(key_type, now, i),
    {
        let n: usize = match key_type {
            KeyType::Ed25519 => 32,
            KeyType::Secp256k1 => 32,
            KeyType::Dilithium => 64,
            KeyType::RSA => 2048,
        };
        let mut key: Vec<u8> = Vec::new();
        let mut i: usize = 0;
        while i < n
            invariant
                0 <= i <= n,
                n == software_key_len(key_type),
                key@.len() == i,
                forall|j: int| 0 <= j < i ==> key@[j] == software_key_byte(key_type, now, j),
            decreases n - i,
        {
            let b: u8 = match key_type {
                KeyType::Secp256k1 => ((now as u128 + i as u128) % 256) as u8,
                _ => (now % 256) as u8,
            };
            key.push(b);
            i = i + 1;
        }
        key
    }

    /// Generates a key of a type for a purpose at clock reading `now` and
    /// records it with the given metadata, its id, type, purpose, time,
    /// active status and the configured strength; schedules its backup.
    pub fn generate_key_at(&mut self, key_type: KeyType, purpose: KeyPurpose, metadata: KeyMetadata, now: u64) -> (r:
        Result<String, KeyError>)
        requires
            old(self).wf(),
        ensures
            final(self).wf(),
            key_generated_outcome(*old(self), *final(self), key_type, purpose, metadata@, now, r),
    {
        if !self.config.enabled {
            return Err(KeyError::Disabled);
        }
        let mut key_id = String::from_str("key_");
        key_id.append(key_type.lower_name());
        key_id.append("_");
        key_id.append(purpose.lower_name());
        key_id.append("_");
        key_id.append(u64_to_string(now).as_str());
        proof {
            reveal_strlit("key_");
            reveal_strlit("_");
            assert(key_id@ =~= key_id_for(key_type, purpose, now));
        }
        let _material = match self.hsm_interface {
            Some(p) => {
                let made = match p {
                    HSMProvider::YubiHSM2 => YubiHSM2Interface::new().generate_key(key_type, key_id.as_str()),
                    HSMProvider::AWSCloudHSM => AWSCloudHSMInterface::new().generate_key(key_type, key_id.as_str()),
                    HSMProvider::AzureKeyVault => AzureKeyVaultInterface::new().generate_key(key_type, key_id.as_str()),
                    HSMProvider::Gemalto => GemaltoHSMInterface::new().generate_key(key_type, key_id.as_str()),
                };
                match made {
                    Ok(v) => v,
                    Err(e) => return Err(e),
                }
            },
            None => self.generate_software_key(key_type, now),
        };
        let mut key_metadata = metadata;
        key_metadata.key_id = key_id.clone();
        key_metadata.key_type = key_type;
        key_metadata.purpose = purpose;
        key_metadata.created_at = now;
        key_metadata.status = KeyStatus::Active;
        key_metadata.strength = self.config.min_key_strength;
        self.store(key_metadata);
        if self.config.backup_enabled {
            match self.backup_manager.schedule_backup_at(key_id.as_str(), now) {
                Ok(()) => {},
                Err(e) => return Err(e),
            }
        }
        Ok(key_id)
    }

    /// Generates a key now.
    pub fn generate_key(&mut self, key_type: KeyType, purpose: KeyPurpose, metadata: KeyMetadata) -> (r: Result<
        String,
        KeyError,
    >)
        requires
            old(self).wf(),
        ensures
            final(self).wf(),
            exists|now: u64| #[trigger] key_generated_outcome(*old(self), *final(self), key_type, purpose, metadata@, now, r),
    {
        let now = now_secs();
        let ghost m = metadata@;
        let r = self.generate_key_at(key_type, purpose, metadata, now);
        assert(key_generated_outcome(*old(self), *self, key_type, purpose, m, now, r));
        r
    }

    /// Rotates a key at clock reading `now`: a new key of its type and
    /// purpose is generated, and the old one is marked rotated.
    pub fn rotate_key_at(&mut self, key_id: &str, now: u64) -> (r: Result<String, KeyError>)
        requires
            old(self).wf(),
            old(self).spec_keys().contains_key(key_id@) ==> old(self).spec_keys()[key_id@].rotation_count < u64::MAX,
        ensures
            final(self).wf(),
            final(self).spec_config() == old(self).spec_config(),
            final(self).spec_hsm() == old(self).spec_hsm(),
            !old(self).spec_keys().contains_key(key_id@) ==> r == Err::<String, KeyError>(KeyError::NotFound)
                && *final(self) == *old(self),
            old(self).spec_keys().contains_key(key_id@) && !old(self).spec_config().enabled ==> r == Err::<
                String,
                KeyError,
            >(KeyError::Disabled) && *final(self) == *old(self),
            old(self).spec_keys().contains_key(key_id@) && old(self).spec_config().enabled ==> ({
                let o = old(self).spec_keys()[key_id@];
                let new_id = key_id_for(o.key_type, o.purpose, now);
                &&& r matches Ok(id) && id@ == new_id
                &&& final(self).spec_keys() == after_rotation(
                    old(self).spec_keys(),
                    key_id@,
                    new_id,
                    generated(rotation_request(o), new_id, o.key_type, o.purpose, now, old(self).spec_config().min_key_strength),
                    now,
                )
            }),
    {
        let i = match self.find(key_id) {
            Some(i) => i,
            None => return Err(KeyError::NotFound),
        };
        let old_type = self.key_store[i].key_type;
        let old_purpose = self.key_store[i].purpose;
        let request = KeyMetadata {
            key_id: String::new(),
            key_type: old_type,
            purpose: old_purpose,
            created_at: 0,
            expires_at: None,
            status: KeyStatus::Active,
            strength: self.key_store[i].strength,
            algorithm: self.key_store[i].algorithm.clone(),
            usage_count: 0,
            last_used: None,
            rotation_count: self.key_store[i].rotation_count + 1,
            backup_status: BackupStatus::NotBackedUp,
            rotated_at: None,
        };
        proof {
            assert(request@.key_id =~= Seq::<char>::empty());
            assert(request@ == rotation_request(old(self).spec_keys()[key_id@]));
        }
        let new_key_id = match self.generate_key_at(old_type, old_purpose, request, now) {
            Ok(id) => id,
            Err(e) => return Err(e),
        };
        match self.find(key_id) {
            Some(j) => {
                let ghost before = self.spec_key_list();
                self.key_store[j].status = KeyStatus::Rotated;
                self.key_store[j].rotated_at = Some(now);
                proof {
                    let nv = MetadataView { status: KeyStatus::Rotated, rotated_at: Some(now), ..before[j as int] };
                    assert(self.spec_key_list() =~= before.update(j as int, nv));
                    lemma_keyed_map_update(before, metadata_key(), j as int, nv);
                }
            },
            None => {},
        }
        Ok(new_key_id)
    }

    /// Whether a key is due for rotation at `now`.
    fn needs_rotation(&self, metadata: &KeyMetadata, now: u64) -> (r: bool)
        requires
            self.spec_config().key_rotation_enabled ==> metadata.created_at <= now,
        ensures
            r == due_for_rotation(self.spec_config().key_rotation_enabled, self.spec_config().key_rotation_interval_days, metadata.created_at, now),
    {
        if !self.config.key_rotation_enabled {
            return false;
        }
        let age_days = (now - metadata.created_at) / (24 * 3600);
        age_days >= self.config.key_rotation_interval_days
    }

    /// A handle of an active key at clock reading `now`; a key due for
    /// rotation is rotated first, and the handle is that of the key asked
    /// for.
    pub fn get_key_at(&mut self, key_id: &str, now: u64) -> (r: Result<KeyHandle, KeyError>)
        requires
            old(self).wf(),
            old(self).spec_keys().contains_key(key_id@) && old(self).spec_config().key_rotation_enabled ==> old(
                self).spec_keys()[key_id@].created_at <= now,
            old(self).spec_keys().contains_key(key_id@) ==> old(self).spec_keys()[key_id@].rotation_count < u64::MAX,
        ensures
            final(self).wf(),
            get_key_outcome(*old(self), *final(self), key_id@, now, r),
    {
        let i = match self.find(key_id) {
            Some(i) => i,
            None => return Err(KeyError::NotFound),
        };
        if self.key_store[i].status != KeyStatus::Active {
            return Err(KeyError::NotActive);
        }
        let handle = KeyHandle {
            key_id: String::from_str(key_id),
            key_type: self.key_store[i].key_type,
            purpose: self.key_store[i].purpose,
            created_at: self.key_store[i].created_at,
            expires_at: self.key_store[i].expires_at,
        };
        let due = self.needs_rotation(&self.key_store[i], now);
        if due {
            match self.rotate_key_at(key_id, now) {
                Ok(_) => {},
                Err(e) => return Err(e),
            }
        }
        Ok(handle)
    }

    /// A key handle now; a clock reading earlier than the key's creation
    /// counts as the creation time.
    pub fn get_key(&mut self, key_id: &str) -> (r: Result<KeyHandle, KeyError>)
        requires
            old(self).wf(),
            old(self).spec_keys().contains_key(key_id@) ==> old(self).spec_keys()[key_id@].rotation_count < u64::MAX,
        ensures
            final(self).wf(),
            exists|now: u64|
                (old(self).spec_keys().contains_key(key_id@) ==> old(self).spec_keys()[key_id@].created_at <= now)
                    && #[trigger] get_key_outcome(*old(self), *final(self), key_id@, now, r),
    {
        let now = now_secs();
        let created = match self.find(key_id) {
            Some(i) => self.key_store[i].created_at,
            None => 0,
        };
        let now = if now < created { created } else { now };
        let r = self.get_key_at(key_id, now);
        assert(get_key_outcome(*old(self), *self, key_id@, now, r));
        r
    }

    /// Signs data with a key at clock reading `now`: through the module
    /// where there is one, else with the simulated software signer.
    pub fn sign_data_at(&self, key_id: &str, data: &[u8], now: u64) -> (r: Result<Vec<u8>, KeyError>)
        ensures
            r matches Ok(v) && v@ == if self.spec_hsm() is Some {
                data@
            } else {
                software_signature(data@, vstd::utf8::encode_utf8(key_id@), now)
            },
    {
        match self.hsm_interface {
            Some(p) => match p {
                HSMProvider::YubiHSM2 => YubiHSM2Interface::new().sign_data(key_id, data),
                HSMProvider::AWSCloudHSM => AWSCloudHSMInterface::new().sign_data(key_id, data),
                HSMProvider::AzureKeyVault => AzureKeyVaultInterface::new().sign_data(key_id, data),
                HSMProvider::Gemalto => GemaltoHSMInterface::new().sign_data(key_id, data),
            },
            None => {
                let mut signature = copy_bytes(data);
                let id_bytes = key_id.as_bytes();
                let mut i: usize = 0;
                while i < id_bytes.len()
                    invariant
                        0 <= i <= id_bytes@.len(),
                        signature@ == data@ + id_bytes@.take(i as int),
                    decreases id_bytes@.len() - i,
                {
                    signature.push(id_bytes[i]);
                    proof {
                        assert(signature@ =~= data@ + id_bytes@.take(i + 1));
                    }
                    i = i + 1;
                }
                assert(id_bytes@.take(id_bytes@.len() as int) =~= id_bytes@);
                let stamp = to_be_vec(now);
                let mut j: usize = 0;
                while j < stamp.len()
                    invariant
                        0 <= j <= stamp@.len(),
                        signature@ == data@ + id_bytes@ + stamp@.take(j as int),
                    decreases stamp@.len() - j,
                {
                    signature.push(stamp[j]);
                    proof {
                        assert(signature@ =~= data@ + id_bytes@ + stamp@.take(j + 1));
                    }
                    j = j + 1;
                }
                assert(stamp@.take(stamp@.len() as int) =~= stamp@);
                Ok(signature)
            },
        }
    }

    /// Verifies a signature: the module accepts every signature; the
    /// simulated software verifier checks that it starts with the data
    /// and ends with the key id.
    pub fn verify_signature(&self, key_id: &str, data: &[u8], signature: &[u8]) -> (r: Result<bool, KeyError>)
        ensures
            r == Ok::<bool, KeyError>(
                if self.spec_hsm() is Some {
                    true
                } else {
                    software_accepts(data@, vstd::utf8::encode_utf8(key_id@), signature@)
                },
            ),
    {
        match self.hsm_interface {
            Some(p) => match p {
                HSMProvider::YubiHSM2 => YubiHSM2Interface::new().verify_signature(key_id, data, signature),
                HSMProvider::AWSCloudHSM => AWSCloudHSMInterface::new().verify_signature(key_id, data, signature),
                HSMProvider::AzureKeyVault => AzureKeyVaultInterface::new().verify_signature(key_id, data, signature),
                HSMProvider::Gemalto => GemaltoHSMInterface::new().verify_signature(key_id, data, signature),
            },
            None => {
                let id = key_id.as_bytes();
                if data.len() > signature.len() || id.len() > signature.len() {
                    return Ok(false);
                }
                let mut i: usize = 0;
                while i < data.len()
                    invariant
                        0 <= i <= data@.len() <= signature@.len(),
                        id@.len() <= signature@.len(),
                        self.spec_hsm() is None,
                        id@ == vstd::utf8::encode_utf8(key_id@),
                        forall|k: int| 0 <= k < i ==> signature@[k] == data@[k],
                    decreases data@.len() - i,
                {
                    if signature[i] != data[i] {
                        proof {
                            assert(signature@.take(data@.len() as int)[i as int] != data@[i as int]);
                        }
                        return Ok(false);
                    }
                    i = i + 1;
                }
                assert(signature@.take(data@.len() as int) =~= data@);
                let off = signature.len() - id.len();
                let mut k: usize = 0;
                while k < id.len()
                    invariant
                        0 <= k <= id@.len(),
                        off + id@.len() == signature@.len(),
                        data@.len() <= signature@.len(),
                        signature@.take(data@.len() as int) == data@,
                        self.spec_hsm() is None,
                        id@ == vstd::utf8::encode_utf8(key_id@),
                        forall|m: int| 0 <= m < k ==> signature@[off + m] == id@[m],
                    decreases id@.len() - k,
                {
                    assert(off + k < signature@.len());
                    assert(signature@.len() == signature.len());
                    if signature[off + k] != id[k] {
                        proof {
                            assert(signature@.skip(off as int)[k as int] != id@[k as int]);
                        }
                        return Ok(false);
                    }
                    k = k + 1;
                }
                assert(signature@.skip(off as int) =~= id@);
                Ok(true)
            },
        }
    }

    /// Names a multi-signature key made at clock reading `now`, where
    /// multi-signature keys are enabled.
    pub fn create_multi_sig_key_at(&self, key_type: KeyType, threshold: usize, total_keys: usize, now: u64) -> (r:
        Result<String, KeyError>)
        ensures
            !self.spec_config().multi_sig_enabled ==> r == Err::<String, KeyError>(KeyError::MultiSigDisabled),
            self.spec_config().multi_sig_enabled ==> (r matches Ok(id) && id@ == multisig_id_for(
                key_type,
                threshold,
                total_keys,
                now,
            )),
    {
        if !self.config.multi_sig_enabled {
            return Err(KeyError::MultiSigDisabled);
        }
        self.multi_sig_manager.create_multi_sig_key_at(key_type, threshold, total_keys, now)
    }

    /// A signer's share of a multi-signature at clock reading `now`.
    pub fn multi_sig_sign_at(&self, multi_sig_id: &str, data: &[u8], signer_key_id: &str, now: u64) -> (r: Result<
        MultiSigSignature,
        KeyError,
    >)
        ensures
            r matches Ok(s) && s.signer_key_id@ == signer_key_id@ && s.signature@ == data@ && s.signed_at == now,
    {
        self.multi_sig_manager.sign_with_key_at(multi_sig_id, data, signer_key_id, now)
    }

    /// Combines signature shares.
    pub fn combine_multi_sig(&self, multi_sig_id: &str, signatures: Vec<MultiSigSignature>) -> (r: Result<
        Vec<u8>,
        KeyError,
    >)
        ensures
            r matches Ok(v) && v@ == Seq::new(64, |i: int| 0u8),
    {
        self.multi_sig_manager.combine_signatures(multi_sig_id, signatures)
    }

    /// Key counts and settings.
    pub fn get_key_statistics(&self) -> (r: Result<KeyStatistics, KeyError>)
        requires
            rotation_total(self.spec_key_list()) <= u64::MAX,
        ensures
            r matches Ok(st) && {
                &&& st.total_keys == self.spec_key_list().len()
                &&& st.active_keys == status_count(self.spec_key_list(), KeyStatus::Active)
                &&& st.rotated_keys == status_count(self.spec_key_list(), KeyStatus::Rotated)
                &&& st.compromised_keys == status_count(self.spec_key_list(), KeyStatus::Compromised)
                &&& st.hsm_enabled == self.spec_hsm() is Some
                &&& st.backup_enabled == self.spec_config().backup_enabled
                &&& st.rotation_enabled == self.spec_config().key_rotation_enabled
                &&& st.rotation_count_total == rotation_total(self.spec_key_list())
                &&& st.last_backup == self.spec_last_backup()
            },
    {
        let ghost s = self.spec_key_list();
        let mut active: usize = 0;
        let mut rotated: usize = 0;
        let mut compromised: usize = 0;
        let mut total: u64 = 0;
        let mut i: usize = 0;
        while i < self.key_store.len()
            invariant
                0 <= i <= self.key_store@.len(),
                s == self.spec_key_list(),
                rotation_total(s) <= u64::MAX,
                active == status_count(s.take(i as int), KeyStatus::Active),
                rotated == status_count(s.take(i as int), KeyStatus::Rotated),
                compromised == status_count(s.take(i as int), KeyStatus::Compromised),
                active <= i && rotated <= i && compromised <= i,
                total == rotation_total(s.take(i as int)),
            decreases self.key_store@.len() - i,
        {
            proof {
                assert(s.take(i + 1).drop_last() =~= s.take(i as int));
                assert(s[i as int] == self.key_store@[i as int]@);
                Self::lemma_rotation_prefix(s, i + 1);
            }
            let st = self.key_store[i].status;
            if st == KeyStatus::Active {
                active = active + 1;
            }
            if st == KeyStatus::Rotated {
                rotated = rotated + 1;
            }
            if st == KeyStatus::Compromised {
                compromised = compromised + 1;
            }
            total = total + self.key_store[i].rotation_count;
            i = i + 1;
        }
        assert(s.take(s.len() as int) =~= s);
        Ok(
            KeyStatistics {
                total_keys: self.key_store.len(),
                active_keys: active,
                rotated_keys: rotated,
                compromised_keys: compromised,
                hsm_enabled: self.hsm_interface.is_some(),
                backup_enabled: self.config.backup_enabled,
                rotation_enabled: self.config.key_rotation_enabled,
                rotation_count_total: total,
                last_backup: self.backup_manager.get_last_backup_time(),
            },
        )
    }

    /// A prefix of the keys has no more rotations than all.
    proof fn lemma_rotation_prefix(s: Seq<MetadataView>, k: int)
        requires
            0 <= k <= s.len(),
        ensures
            rotation_total(s.take(k)) <= rotation_total(s),
        decreases s.len(),
    {
        if k < s.len() {
            assert(s.drop_last().take(k) =~= s.take(k));
            Self::lemma_rotation_prefix(s.drop_last(), k);
        } else {
            assert(s.take(k) =~= s);
        }
    }
}

/// A simulated software signature starts with the data it signs and
/// ends with the signing time; so it is accepted under a key id exactly
/// when that id's bytes end the signature.
pub proof fn lemma_software_signature_shape(data: Seq<u8>, key_id: Seq<u8>, now: u64)
    ensures
        software_signature(data, key_id, now).take(data.len() as int) == data,
        software_signature(data, key_id, now).skip((data.len() + key_id.len()) as int) == be8(now),
        software_accepts(data, key_id, software_signature(data, key_id, now)) <==> key_id.len()
            <= software_signature(data, key_id, now).len() && software_signature(data, key_id, now).skip(
            software_signature(data, key_id, now).len() - key_id.len(),
        ) == key_id,
{
    let sig = software_signature(data, key_id, now);
    assert(sig.take(data.len() as int) =~= data);
    assert(sig.skip((data.len() + key_id.len()) as int) =~= be8(now));
}

} // verus!
