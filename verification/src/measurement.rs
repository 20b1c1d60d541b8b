//! Trusted measurements as the measurement registry lists them.

use vstd::prelude::*;

verus! {

/// A trusted measurement with its constraints.
#[derive(Debug)]
pub struct TrustedMeasurement {
    pub namespace: String,
    pub platform: String,
    pub data: TrustedMeasurementData,
    /// Revocation time (`None` while it is not revoked).
    pub revoked_at: Option<u64>,
}

/// Platform-specific trusted values.
#[derive(Debug)]
pub enum TrustedMeasurementData {
    Tdx(TdxMeasurement),
    Snp(SnpMeasurement),
}

/// Trusted TDX values: the four RTMRs (48 bytes each, hex) and constraints.
#[derive(Debug)]
pub struct TdxMeasurement {
    pub rtmr0: String,
    pub rtmr1: String,
    pub rtmr2: String,
    pub rtmr3: String,
    pub debug_allowed: bool,
    pub minimum_tcb: Option<TdxMinimumTcb>,
    pub platform_constraints: Option<TdxPlatformConstraints>,
}

/// Minimum TDX TCB levels.
#[derive(Debug)]
pub struct TdxMinimumTcb {
    /// Minimum SEAM SVN.
    pub seam_svn: Option<u8>,
    /// Minimum TEE TCB SVN (16 bytes, hex).
    pub tee_tcb_svn: Option<String>,
}

/// TDX platform constraints.
#[derive(Debug)]
pub struct TdxPlatformConstraints {
    /// Allowed vendor IDs (hex).
    pub allowed_vendor_ids: Option<Vec<String>>,
    /// Required MR_SEAM (hex).
    pub mr_seam: Option<String>,
    /// Required MRSIGNER_SEAM (hex).
    pub mrsigner_seam: Option<String>,
    /// Allowed CPU models.
    pub allowed_cpu_models: Option<Vec<CpuModel>>,
}

/// Trusted SEV-SNP values: launch measurement (48 bytes, hex), optional host
/// data (32 bytes, hex) and constraints.
#[derive(Debug)]
pub struct SnpMeasurement {
    pub measurement: String,
    pub host_data: Option<String>,
    pub debug_allowed: bool,
    pub minimum_tcb: Option<SnpMinimumTcb>,
    pub platform_constraints: Option<SnpPlatformConstraints>,
}

/// Minimum SEV-SNP TCB levels.
#[derive(Debug, Clone, Copy)]
pub struct SnpMinimumTcb {
    pub bootloader_svn: Option<u8>,
    pub tee_svn: Option<u8>,
    pub snp_svn: Option<u8>,
    pub microcode_svn: Option<u8>,
}

/// SEV-SNP platform constraints.
#[derive(Debug)]
pub struct SnpPlatformConstraints {
    pub allowed_chip_ids: Option<Vec<String>>,
    pub allowed_cpu_models: Option<Vec<CpuModel>>,
    pub require_smt_disabled: Option<bool>,
    pub required_vmpl: Option<u8>,
    pub id_key_digest: Option<String>,
    pub author_key_digest: Option<String>,
}

/// A CPU model; a missing stepping matches any.
#[derive(Debug, Clone, Copy, PartialEq, Eq)]
pub struct CpuModel {
    pub family: u8,
    pub model: u8,
    pub stepping: Option<u8>,
}

} // verus!
