//! Typed handles over the Linux kernel key-management facility: keyrings and
//! keys named by kernel-assigned serial numbers, the textual metadata decoder,
//! the size-then-fill buffer-query pattern, and the one-shot key-request
//! manager. Every operation is fallible and reports the kernel's error code.

mod backend;
mod constants;
mod description;
mod error;
mod key;
mod keyring;
mod manager;
mod query;

pub use constants::lemma_default_keyring_roundtrip;
pub use constants::DefaultKeyring;
pub use constants::KeyPermissions;
pub use constants::SpecialKeyring;
pub use description::dec_val;
pub use description::hex_val;
pub use description::is_dec_u32;
pub use description::is_hex_u32;
pub use description::lemma_parse_five_fields;
pub use description::lemma_parse_needs_five;
pub use description::lemma_parse_prefix_tolerant;
pub use description::parse_spec;
pub use description::split_semis;
pub use description::Description;
pub use error::check_call;
pub use error::check_call_ret;
pub use error::check_call_ret_serial;
pub use error::Error;
pub use error::EACCES;
pub use error::EDQUOT;
pub use error::EFAULT;
pub use error::EINVAL;
pub use error::EIO;
pub use error::EKEYEXPIRED;
pub use error::EKEYREJECTED;
pub use error::EKEYREVOKED;
pub use error::ENOENT;
pub use error::ENOKEY;
pub use error::ENOMEM;
pub use error::ENOTSUP;
pub use error::EPERM;
pub use key::Key;
pub use keyring::partition_records;
pub use keyring::record_is_ring;
pub use keyring::ring_flags;
pub use keyring::filtered_ids;
pub use keyring::le_val;
pub use keyring::lemma_partition_complete;
pub use keyring::partition_children;
pub use keyring::serial_of_le;
pub use keyring::serials_from_bytes;
pub use keyring::serials_spec;
pub use keyring::Keyring;
pub use manager::KeyManager;
pub use query::clamp_to_reported;
pub use query::clamped_spec;
pub use query::trim_trailing_nul;
