//! Serialization of OpenPGP packets, certificates and transferable
//! secret keys, with machine-checked contracts.
pub mod bytes;
pub mod cert;
pub mod compression;
pub mod header;
pub mod packet;
pub mod reading;
pub mod subpacket;
pub mod tsk;
pub mod wire;

use vstd::prelude::*;

verus! {

} // verus!
