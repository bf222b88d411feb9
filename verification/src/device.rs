//! Device identity: a stable machine identifier derived by hashing hardware
//! identifiers. Deriving never fails: when the hardware identifier cannot be
//! built, the empty string is hashed instead — a documented degraded mode
//! that still yields a valid digest.

use vstd::prelude::*;
use crate::system_info::MachineId;

verus! {

/// The lowercase-hex MD5 digest of a string's UTF-8 bytes.
pub uninterp spec fn md5_hex_of(s: Seq<char>) -> Seq<char>;

/// Whether `c` is a lowercase hexadecimal digit.
pub open spec fn is_hex_digit(c: char) -> bool {
    (('0' as int) <= (c as int) <= ('9' as int)) || (('a' as int) <= (c as int) <= ('f' as int))
}

/// Relies on `md5::compute` and the digest's lower-hex formatting: the
/// digest is 16 bytes, each written as two lowercase hex digits, so the
/// result is 32 hex characters and a function of the input alone.
#[verifier::external_body]
fn md5_hex(s: &str) -> (r: String)
    ensures
        r@ == md5_hex_of(s@),
        r@.len() == 32,
        forall|i: int| 0 <= i < r@.len() ==> is_hex_digit(#[trigger] r@[i]),
{
    format!("{:x}", md5::compute(s.as_bytes()))
}

/// Relies on `machineid_rs::IdBuilder::build` over the system ID, logical
/// core count and CPU ID components: the value depends on the machine, so
/// nothing is promised of it beyond its presence or absence.
#[verifier::external_body]
fn hardware_id() -> (r: Option<String>) {
    let mut builder = machineid_rs::IdBuilder::new(machineid_rs::Encryption::SHA256);
    builder
        .add_component(machineid_rs::HWIDComponent::SystemID)
        .add_component(machineid_rs::HWIDComponent::CPUCores)
        .add_component(machineid_rs::HWIDComponent::CPUID);
    builder.build("").ok()
}

/// Derives the identity record owed to a given hardware-identifier string:
/// its MD5 digest as a 32-character lowercase hex string.
pub fn device_id_from(hw: &str) -> (r: MachineId)
    ensures
        r.id@ == md5_hex_of(hw@),
        r.id@.len() == 32,
        forall|i: int| 0 <= i < r.id@.len() ==> is_hex_digit(#[trigger] r.id@[i]),
{
    MachineId { id: md5_hex(hw) }
}

/// Derives a stable machine identifier. Never fails: whatever the hardware
/// query returned, the result is a 32-character lowercase hex digest; when
/// the query failed, the digest of the empty string stands in.
pub fn device_id() -> (r: MachineId)
    ensures
        r.id@.len() == 32,
        forall|i: int| 0 <= i < r.id@.len() ==> is_hex_digit(#[trigger] r.id@[i]),
{
    match hardware_id() {
        Some(hw) => device_id_from(hw.as_str()),
        None => device_id_from(""),
    }
}

} // verus!
