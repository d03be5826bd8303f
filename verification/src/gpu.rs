//! Batched cryptographic operations with a (simulated) GPU: device choice,
//! batch hashing, simulated range-proof checks, and the statistics of
//! which work ran on the GPU and which fell back to the CPU. Durations are
//! handed in by the caller, which owns the clock.
use vstd::prelude::*;
use crate::crypto::{blake3_digest, blake3_hash, keccak256, keccak256_digest, sha3_256, sha3_256_digest};
use crate::text::{contains_text, occurs_at};

verus! {

/// GPU acceleration configuration
#[derive(Debug, Clone)]
pub struct GpuConfig {
    pub enable_gpu_acceleration: bool,
    pub preferred_gpu_device: Option<String>,
    pub max_batch_size: usize,
    pub memory_limit_mb: usize,
    pub enable_async_operations: bool,
    pub fallback_to_cpu: bool,
}

impl Default for GpuConfig {
    /// Acceleration on, no preferred device, batches of up to 100000,
    /// 4 GB of memory, asynchronous operations, CPU fallback.
    fn default() -> (r: GpuConfig)
        ensures
            r.enable_gpu_acceleration,
            r.preferred_gpu_device is None,
            r.max_batch_size == 100_000,
            r.memory_limit_mb == 4096,
            r.enable_async_operations,
            r.fallback_to_cpu,
    {
        GpuConfig {
            enable_gpu_acceleration: true,
            preferred_gpu_device: None,
            max_batch_size: 100_000,
            memory_limit_mb: 4096,
            enable_async_operations: true,
            fallback_to_cpu: true,
        }
    }
}

/// GPU device information
#[derive(Debug, Clone)]
pub struct GpuDevice {
    pub name: String,
    pub memory_mb: usize,
    pub compute_units: usize,
    pub supports_fp64: bool,
    pub supports_int64: bool,
    pub max_workgroup_size: usize,
}

/// The view of a device.
pub struct GpuDeviceView {
    pub name: Seq<char>,
    pub memory_mb: usize,
    pub compute_units: usize,
    pub supports_fp64: bool,
    pub supports_int64: bool,
    pub max_workgroup_size: usize,
}

impl View for GpuDevice {
    type V = GpuDeviceView;

    open spec fn view(&self) -> GpuDeviceView {
        GpuDeviceView {
            name: self.name@,
            memory_mb: self.memory_mb,
            compute_units: self.compute_units,
            supports_fp64: self.supports_fp64,
            supports_int64: self.supports_int64,
            max_workgroup_size: self.max_workgroup_size,
        }
    }
}

impl GpuDevice {
    /// A copy of the device.
    pub fn duplicate(&self) -> (r: GpuDevice)
        ensures
            r@ == self@,
    {
        GpuDevice {
            name: self.name.clone(),
            memory_mb: self.memory_mb,
            compute_units: self.compute_units,
            supports_fp64: self.supports_fp64,
            supports_int64: self.supports_int64,
            max_workgroup_size: self.max_workgroup_size,
        }
    }
}

/// The views of a list of devices.
pub open spec fn device_views(v: Seq<GpuDevice>) -> Seq<GpuDeviceView> {
    v.map_values(|d: GpuDevice| d@)
}

/// GPU operation statistics
#[derive(Debug, Clone, Copy, PartialEq, Eq, Structural)]
pub struct GpuOperationStats {
    pub total_operations: u64,
    pub gpu_operations: u64,
    pub cpu_fallback_operations: u64,
    pub total_gpu_time_ms: u64,
    pub total_cpu_time_ms: u64,
    pub memory_transfers: u64,
    pub errors: u64,
}

impl Default for GpuOperationStats {
    /// All zero.
    fn default() -> (r: GpuOperationStats)
        ensures
            r == (GpuOperationStats {
                total_operations: 0,
                gpu_operations: 0,
                cpu_fallback_operations: 0,
                total_gpu_time_ms: 0,
                total_cpu_time_ms: 0,
                memory_transfers: 0,
                errors: 0,
            }),
    {
        GpuOperationStats {
            total_operations: 0,
            gpu_operations: 0,
            cpu_fallback_operations: 0,
            total_gpu_time_ms: 0,
            total_cpu_time_ms: 0,
            memory_transfers: 0,
            errors: 0,
        }
    }
}

/// Hash algorithms supported by GPU acceleration
#[derive(Debug, Clone, Copy, PartialEq, Eq, Structural)]
pub enum HashAlgorithm {
    Blake3,
    Sha3,
    Keccak,
}

/// Signature data for GPU verification
#[derive(Debug, Clone)]
pub struct GpuSignatureData {
    pub public_key: Vec<u8>,
    pub message: Vec<u8>,
    pub signature: Vec<u8>,
}

/// Why the accelerator could not start.
#[derive(Debug, Clone, Copy, PartialEq, Eq, Structural)]
pub enum GpuError {
    /// No device was found and CPU fallback is off.
    NoDevices,
}

/// The digest of one input under an algorithm.
pub open spec fn digest_of(alg: HashAlgorithm, data: Seq<u8>) -> Seq<u8> {
    match alg {
        HashAlgorithm::Blake3 => blake3_digest(data),
        HashAlgorithm::Sha3 => sha3_256_digest(data),
        HashAlgorithm::Keccak => keccak256_digest(data),
    }
}

/// Hash one input.
pub fn hash_with(alg: HashAlgorithm, data: &[u8]) -> (r: [u8; 32])
    ensures
        r@ == digest_of(alg, data@),
{
    match alg {
        HashAlgorithm::Blake3 => blake3_hash(data),
        HashAlgorithm::Sha3 => sha3_256(data),
        HashAlgorithm::Keccak => keccak256(data),
    }
}

/// The simulated range-proof check: the low bit of the first byte of the
/// BLAKE3 digest of proof and commitment is clear.
pub open spec fn range_proof_ok(proof: Seq<u8>, commitment: Seq<u8>) -> bool {
    blake3_digest(proof + commitment)[0] & 1u8 == 0
}

/// The devices the accelerator finds: an NVIDIA RTX 4090 and an AMD Radeon
/// RX 7900 XTX, each with 24 GB.
pub open spec fn simulated_devices() -> Seq<GpuDeviceView> {
    seq![
        GpuDeviceView {
            name: "NVIDIA RTX 4090"@,
            memory_mb: 24576,
            compute_units: 128,
            supports_fp64: true,
            supports_int64: true,
            max_workgroup_size: 1024,
        },
        GpuDeviceView {
            name: "AMD Radeon RX 7900 XTX"@,
            memory_mb: 24576,
            compute_units: 96,
            supports_fp64: true,
            supports_int64: true,
            max_workgroup_size: 1024,
        },
    ]
}

/// A device's name contains the preferred text.
pub open spec fn name_matches(d: GpuDeviceView, preferred: Seq<char>) -> bool {
    exists|at: int| occurs_at(d.name, preferred, at)
}

/// The view of an optional text.
pub open spec fn opt_text_view(o: Option<String>) -> Option<Seq<char>> {
    match o {
        Some(p) => Some(p@),
        None => None,
    }
}

/// The preferred device name of a configuration, if any.
pub open spec fn preferred_view(config: GpuConfig) -> Option<Seq<char>> {
    opt_text_view(config.preferred_gpu_device)
}

/// The device chosen among `devices`: the first whose name contains the
/// preferred text, if one is preferred; else the last of those with the
/// most memory.
pub open spec fn chosen_device(devices: Seq<GpuDeviceView>, preferred: Option<Seq<char>>, chosen: Option<int>) -> bool {
    match preferred {
        Some(p) => match chosen {
            Some(i) => 0 <= i < devices.len() && name_matches(devices[i], p) && forall|j: int|
                0 <= j < i ==> !name_matches(#[trigger] devices[j], p),
            None => forall|j: int| 0 <= j < devices.len() ==> !name_matches(#[trigger] devices[j], p),
        },
        None => match chosen {
            Some(i) => 0 <= i < devices.len() && (forall|j: int|
                0 <= j < devices.len() ==> (#[trigger] devices[j]).memory_mb <= devices[i].memory_mb) && (forall|j: int|
                i < j < devices.len() ==> (#[trigger] devices[j]).memory_mb < devices[i].memory_mb),
            None => devices.len() == 0,
        },
    }
}

/// Choose a device: the first whose name contains the preferred text, or,
/// with no preference, the last of those with the most memory.
pub fn select_device_index(devices: &Vec<GpuDevice>, preferred: &Option<String>) -> (r: Option<usize>)
    ensures
        chosen_device(
            device_views(devices@),
            opt_text_view(*preferred),
            match r {
                Some(i) => Some(i as int),
                None => None,
            },
        ),
{
    let ghost dv = device_views(devices@);
    match preferred.as_ref() {
        Some(p) => {
            assert(opt_text_view(*preferred) == Some(p@));
            let mut i: usize = 0;
            while i < devices.len()
                invariant
                    opt_text_view(*preferred) == Some(p@),
                    0 <= i <= devices@.len(),
                    dv == device_views(devices@),
                    forall|j: int| 0 <= j < i ==> !name_matches(#[trigger] dv[j], p@),
                decreases devices@.len() - i,
            {
                proof {
                    assert(dv[i as int] == devices@[i as int]@);
                }
                let hit = contains_text(devices[i].name.as_str(), p.as_str());
                proof {
                    assert(dv[i as int].name == devices@[i as int].name@);
                    if hit {
                        let at = choose|at: int| occurs_at(devices@[i as int].name@, p@, at);
                        assert(occurs_at(dv[i as int].name, p@, at));
                    } else {
                        assert forall|at: int| !occurs_at(dv[i as int].name, p@, at) by {
                            assert(!occurs_at(devices@[i as int].name@, p@, at));
                        }
                    }
                }
                if hit {
                    proof {
                        assert(name_matches(dv[i as int], p@));
                        assert(chosen_device(dv, Some(p@), Some(i as int)));

                    }
                    return Some(i);
                }
                i = i + 1;
            }
            None
        },
        None => {
            if devices.len() == 0 {
                return None;
            }
            let mut best: usize = 0;
            let mut i: usize = 1;
            while i < devices.len()
                invariant
                    preferred is None,
                    1 <= i <= devices@.len(),
                    best < i,
                    dv == device_views(devices@),
                    forall|j: int| 0 <= j < i ==> (#[trigger] dv[j]).memory_mb <= dv[best as int].memory_mb,
                    forall|j: int| best < j < i ==> (#[trigger] dv[j]).memory_mb < dv[best as int].memory_mb,
                decreases devices@.len() - i,
            {
                proof {
                    assert(dv[i as int] == devices@[i as int]@);
                    assert(dv[best as int] == devices@[best as int]@);
                }
                if devices[i].memory_mb >= devices[best].memory_mb {
                    best = i;
                }
                i = i + 1;
            }
            Some(best)
        },
    }
}

/// GPU accelerator for cryptographic operations
pub struct GpuAccelerator {
    config: GpuConfig,
    devices: Vec<GpuDevice>,
    active_device: Option<GpuDevice>,
    operation_stats: GpuOperationStats,
}

/// The statistics after `count` operations took `duration_ms`, on the GPU
/// or on the CPU.
pub open spec fn stats_after(s: GpuOperationStats, used_gpu: bool, duration_ms: u64, count: int) -> GpuOperationStats {
    if used_gpu {
        GpuOperationStats {
            total_operations: (s.total_operations + count) as u64,
            gpu_operations: (s.gpu_operations + count) as u64,
            total_gpu_time_ms: (s.total_gpu_time_ms + duration_ms) as u64,
            ..s
        }
    } else {
        GpuOperationStats {
            total_operations: (s.total_operations + count) as u64,
            cpu_fallback_operations: (s.cpu_fallback_operations + count) as u64,
            total_cpu_time_ms: (s.total_cpu_time_ms + duration_ms) as u64,
            ..s
        }
    }
}

/// The statistics can take `count` more operations of `duration_ms`.
pub open spec fn stats_room(s: GpuOperationStats, duration_ms: u64, count: int) -> bool {
    &&& s.total_operations + count <= u64::MAX
    &&& s.gpu_operations + count <= u64::MAX
    &&& s.cpu_fallback_operations + count <= u64::MAX
    &&& s.total_gpu_time_ms + duration_ms <= u64::MAX
    &&& s.total_cpu_time_ms + duration_ms <= u64::MAX
}

impl GpuAccelerator {
    pub closed spec fn spec_config(&self) -> GpuConfig {
        self.config
    }

    pub closed spec fn spec_devices(&self) -> Seq<GpuDeviceView> {
        device_views(self.devices@)
    }

    pub closed spec fn spec_active(&self) -> Option<GpuDeviceView> {
        match self.active_device {
            Some(d) => Some(d@),
            None => None,
        }
    }

    pub closed spec fn spec_stats(&self) -> GpuOperationStats {
        self.operation_stats
    }

    /// Work runs on the GPU when acceleration is on and a device is active.
    pub open spec fn uses_gpu(&self) -> bool {
        self.spec_config().enable_gpu_acceleration && self.spec_active() is Some
    }

    /// The devices found: the two simulated ones.
    fn detect_devices() -> (r: Vec<GpuDevice>)
        ensures
            device_views(r@) == simulated_devices(),
    {
        let mut v: Vec<GpuDevice> = Vec::new();
        v.push(
            GpuDevice {
                name: String::from_str("NVIDIA RTX 4090"),
                memory_mb: 24576,
                compute_units: 128,
                supports_fp64: true,
                supports_int64: true,
                max_workgroup_size: 1024,
            },
        );
        v.push(
            GpuDevice {
                name: String::from_str("AMD Radeon RX 7900 XTX"),
                memory_mb: 24576,
                compute_units: 96,
                supports_fp64: true,
                supports_int64: true,
                max_workgroup_size: 1024,
            },
        );
        proof {
            assert(device_views(v@) =~= simulated_devices());
        }
        v
    }

    /// An accelerator for the configuration. With acceleration on, it finds
    /// the devices and activates the one chosen; with none found it falls
    /// back to the CPU, or fails where fallback is off. With acceleration
    /// off it has no devices.
    pub fn new(config: GpuConfig) -> (r: Result<GpuAccelerator, GpuError>)
        ensures
            match r {
                Ok(a) => a.spec_config() == config && a.spec_stats() == GpuOperationStats::default_spec()
                    && if config.enable_gpu_acceleration {
                    a.spec_devices() == simulated_devices() && exists|c: Option<int>|
                        #[trigger] chosen_device(simulated_devices(), preferred_view(config), c) && a.spec_active() == match c {
                            Some(i) => Some(simulated_devices()[i]),
                            None => None,
                        }
                } else {
                    a.spec_devices().len() == 0 && a.spec_active() is None
                },
                Err(_) => false,
            },
    {
        let stats = GpuOperationStats::default();
        if !config.enable_gpu_acceleration {
            let a = GpuAccelerator { config, devices: Vec::new(), active_device: None, operation_stats: stats };
            proof {
                assert(a.spec_devices() =~= Seq::<GpuDeviceView>::empty());
            }
            return Ok(a);
        }
        let devices = Self::detect_devices();
        assert(devices@.len() == device_views(devices@).len());
        if devices.len() == 0 {
            if config.fallback_to_cpu {
                return Ok(GpuAccelerator { config, devices, active_device: None, operation_stats: stats });
            } else {
                return Err(GpuError::NoDevices);
            }
        }
        let chosen = select_device_index(&devices, &config.preferred_gpu_device);
        let active_device = match chosen {
            Some(i) => {
                proof {
                    assert(device_views(devices@)[i as int] == devices@[i as int]@);
                }
                Some(devices[i].duplicate())
            },
            None => None,
        };
        let a = GpuAccelerator { config, devices, active_device, operation_stats: stats };
        proof {
            let c: Option<int> = match chosen {
                Some(i) => Some(i as int),
                None => None,
            };
            assert(chosen_device(simulated_devices(), preferred_view(a.config), c));
            assert(a.spec_active() == match c {
                Some(i) => Some(simulated_devices()[i]),
                None => None,
            });
        }
        Ok(a)
    }

    /// The configuration.
    pub fn config(&self) -> (r: &GpuConfig)
        ensures
            *r == self.spec_config(),
    {
        &self.config
    }

    /// Count `count` operations that took `duration_ms`.
    fn update_stats(&mut self, used_gpu: bool, duration_ms: u64, count: usize)
        requires
            stats_room(old(self).spec_stats(), duration_ms, count as int),
        ensures
            final(self).spec_stats() == stats_after(old(self).spec_stats(), used_gpu, duration_ms, count as int),
            final(self).spec_config() == old(self).spec_config(),
            final(self).spec_devices() == old(self).spec_devices(),
            final(self).spec_active() == old(self).spec_active(),
    {
        self.operation_stats.total_operations = self.operation_stats.total_operations + count as u64;
        if used_gpu {
            self.operation_stats.gpu_operations = self.operation_stats.gpu_operations + count as u64;
            self.operation_stats.total_gpu_time_ms = self.operation_stats.total_gpu_time_ms + duration_ms;
        } else {
            self.operation_stats.cpu_fallback_operations = self.operation_stats.cpu_fallback_operations
                + count as u64;
            self.operation_stats.total_cpu_time_ms = self.operation_stats.total_cpu_time_ms + duration_ms;
        }
    }

    /// Hash a batch of inputs, which took `duration_ms`: one digest per
    /// input, in order, on the GPU where it is in use and else on the CPU.
    pub fn batch_hash_timed(&mut self, inputs: &Vec<Vec<u8>>, algorithm: HashAlgorithm, duration_ms: u64) -> (r: Vec<[u8; 32]>)
        requires
            stats_room(old(self).spec_stats(), duration_ms, inputs@.len() as int),
        ensures
            r@.len() == inputs@.len(),
            forall|i: int| 0 <= i < r@.len() ==> (#[trigger] r@[i])@ == digest_of(algorithm, inputs@[i]@),
            final(self).spec_stats() == stats_after(old(self).spec_stats(), old(self).uses_gpu(), duration_ms, inputs@.len() as int),
            final(self).spec_config() == old(self).spec_config(),
            final(self).spec_devices() == old(self).spec_devices(),
            final(self).spec_active() == old(self).spec_active(),
    {
        let used_gpu = self.config.enable_gpu_acceleration && self.active_device.is_some();
        let mut out: Vec<[u8; 32]> = Vec::new();
        let mut i: usize = 0;
        while i < inputs.len()
            invariant
                0 <= i <= inputs@.len(),
                out@.len() == i,
                forall|j: int| 0 <= j < i ==> (#[trigger] out@[j])@ == digest_of(algorithm, inputs@[j]@),
            decreases inputs@.len() - i,
        {
            let h = hash_with(algorithm, inputs[i].as_slice());
            out.push(h);
            i = i + 1;
        }
        self.update_stats(used_gpu, duration_ms, inputs.len());
        out
    }

    /// Check a batch of range proofs against their commitments (simulated),
    /// which took `duration_ms`: one verdict per pair, as many as the
    /// shorter list.
    pub fn batch_verify_range_proofs_timed(
        &mut self,
        proofs: &Vec<Vec<u8>>,
        commitments: &Vec<Vec<u8>>,
        duration_ms: u64,
    ) -> (r: Vec<bool>)
        requires
            stats_room(old(self).spec_stats(), duration_ms, proofs@.len() as int),
        ensures
            r@.len() == if proofs@.len() < commitments@.len() { proofs@.len() } else { commitments@.len() },
            forall|i: int| 0 <= i < r@.len() ==> r@[i] == range_proof_ok(proofs@[i]@, commitments@[i]@),
            final(self).spec_stats() == stats_after(old(self).spec_stats(), old(self).uses_gpu(), duration_ms, proofs@.len() as int),
            final(self).spec_config() == old(self).spec_config(),
            final(self).spec_devices() == old(self).spec_devices(),
            final(self).spec_active() == old(self).spec_active(),
    {
        let used_gpu = self.config.enable_gpu_acceleration && self.active_device.is_some();
        let n = if proofs.len() < commitments.len() { proofs.len() } else { commitments.len() };
        let mut out: Vec<bool> = Vec::new();
        let mut i: usize = 0;
        while i < n
            invariant
                0 <= i <= n,
                n <= proofs@.len(),
                n <= commitments@.len(),
                out@.len() == i,
                forall|j: int| 0 <= j < i ==> out@[j] == range_proof_ok(proofs@[j]@, commitments@[j]@),
            decreases n - i,
        {
            let mut data = crate::encoding::copy_bytes(proofs[i].as_slice());
            let mut tail = crate::encoding::copy_bytes(commitments[i].as_slice());
            data.append(&mut tail);
            let h = blake3_hash(data.as_slice());
            out.push(h[0] & 1u8 == 0);
            i = i + 1;
        }
        self.update_stats(used_gpu, duration_ms, proofs.len());
        out
    }

    /// The operation statistics.
    pub fn get_stats(&self) -> (r: GpuOperationStats)
        ensures
            r == self.spec_stats(),
    {
        self.operation_stats
    }

    /// The devices found.
    pub fn get_devices(&self) -> (r: &[GpuDevice])
        ensures
            device_views(r@) == self.spec_devices(),
    {
        self.devices.as_slice()
    }

    /// The active device, if any.
    pub fn get_active_device(&self) -> (r: Option<&GpuDevice>)
        ensures
            match r {
                Some(d) => self.spec_active() == Some(d@),
                None => self.spec_active() is None,
            },
    {
        match &self.active_device {
            Some(d) => Some(d),
            None => None,
        }
    }

    /// Whether a GPU device is active.
    pub fn is_gpu_available(&self) -> (r: bool)
        ensures
            r == self.spec_active() is Some,
    {
        self.active_device.is_some()
    }
}

impl GpuOperationStats {
    /// All zero.
    pub open spec fn default_spec() -> GpuOperationStats {
        GpuOperationStats {
            total_operations: 0,
            gpu_operations: 0,
            cpu_fallback_operations: 0,
            total_gpu_time_ms: 0,
            total_cpu_time_ms: 0,
            memory_transfers: 0,
            errors: 0,
        }
    }
}

} // verus!
