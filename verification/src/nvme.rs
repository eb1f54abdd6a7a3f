//! NVMe: the admin commands for identification and cryptographic erase.

use vstd::prelude::*;

verus! {

/// An NVMe admin passthrough command.
#[derive(Debug, Clone, Copy, PartialEq, Eq, Structural)]
pub struct NvmePassthruCmd {
    pub opcode: u8,
    pub flags: u8,
    pub rsvd1: u16,
    pub nsid: u32,
    pub cdw2: u32,
    pub cdw3: u32,
    pub metadata: u64,
    pub addr: u64,
    pub metadata_len: u32,
    pub data_len: u32,
    pub cdw10: u32,
    pub cdw11: u32,
    pub cdw12: u32,
    pub cdw13: u32,
    pub cdw14: u32,
    pub cdw15: u32,
    pub timeout_ms: u32,
    pub result: u32,
}

/// A command with all fields zero.
pub open spec fn zero_command() -> NvmePassthruCmd {
    NvmePassthruCmd {
        opcode: 0,
        flags: 0,
        rsvd1: 0,
        nsid: 0,
        cdw2: 0,
        cdw3: 0,
        metadata: 0,
        addr: 0,
        metadata_len: 0,
        data_len: 0,
        cdw10: 0,
        cdw11: 0,
        cdw12: 0,
        cdw13: 0,
        cdw14: 0,
        cdw15: 0,
        timeout_ms: 0,
        result: 0,
    }
}

impl Default for NvmePassthruCmd {
    fn default() -> (r: NvmePassthruCmd)
        ensures
            r == zero_command(),
    {
        NvmePassthruCmd {
            opcode: 0,
            flags: 0,
            rsvd1: 0,
            nsid: 0,
            cdw2: 0,
            cdw3: 0,
            metadata: 0,
            addr: 0,
            metadata_len: 0,
            data_len: 0,
            cdw10: 0,
            cdw11: 0,
            cdw12: 0,
            cdw13: 0,
            cdw14: 0,
            cdw15: 0,
            timeout_ms: 0,
            result: 0,
        }
    }
}

/// Identify Controller: the answer goes to `addr`.
pub open spec fn identify_command(addr: u64) -> NvmePassthruCmd {
    NvmePassthruCmd {
        opcode: 0x06,
        cdw10: 0x01,
        data_len: 4096,
        addr,
        timeout_ms: 5000,
        ..zero_command()
    }
}

/// Format NVM with Cryptographic Erase on all namespaces.
pub open spec fn crypto_erase_command() -> NvmePassthruCmd {
    NvmePassthruCmd {
        opcode: 0x80,
        nsid: 0xFFFF_FFFF,
        cdw10: 0x0400,
        timeout_ms: 600_000,
        ..zero_command()
    }
}

/// Identify Controller: the answer, of 4096 bytes, goes to `addr`.
pub fn nvme_identify(addr: u64) -> (r: NvmePassthruCmd)
    ensures
        r == identify_command(addr),
{
    let mut cmd = NvmePassthruCmd::default();
    cmd.opcode = 0x06;
    cmd.cdw10 = 0x01;
    cmd.data_len = 4096;
    cmd.addr = addr;
    cmd.timeout_ms = 5000;
    cmd
}

/// Format NVM with Cryptographic Erase on all namespaces. Bits 9 to 11 of
/// `cdw10` hold the Secure Erase Settings; 2 is Cryptographic Erase.
pub fn nvme_crypto_erase() -> (r: NvmePassthruCmd)
    ensures
        r == crypto_erase_command(),
{
    let mut cmd = NvmePassthruCmd::default();
    cmd.opcode = 0x80;
    cmd.nsid = 0xFFFF_FFFF;
    cmd.cdw10 = 0x0400;
    cmd.timeout_ms = 600_000;
    cmd
}

/// Whether the Format NVM attributes, byte 524 of the answer to Identify
/// Controller, have the bit for cryptographic erase set.
pub open spec fn reports_crypto_erase(answer: Seq<u8>) -> bool {
    answer[524] & 0x04 != 0
}

/// Whether the controller reports cryptographic erase.
pub fn crypto_erase_supported(answer: &[u8; 4096]) -> (r: bool)
    ensures
        r == reports_crypto_erase(answer@),
{
    answer[524] & 0x04 != 0
}

/// The erase command asks for Cryptographic Erase in the current format, and
/// addresses every namespace.
pub proof fn law_crypto_erase_settings()
    ensures
        (crypto_erase_command().cdw10 >> 9) & 7 == 2,
        crypto_erase_command().cdw10 & 15 == 0,
        crypto_erase_command().nsid == u32::MAX,
{
    assert((0x0400u32 >> 9) & 7 == 2 && 0x0400u32 & 15 == 0) by (bit_vector);
}

} // verus!
