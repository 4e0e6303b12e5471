//! Miners: the nodes that offer hardware.

use chrono::Utc;
use uuid::Uuid;
use vstd::prelude::*;

verus! {

/// A registered miner.
#[derive(Debug)]
pub struct Miner {
    /// The miner's identifier, a UUID as a number.
    pub id: u128,
    /// The miner's public key, as text.
    pub public_key: String,
    /// When the miner was registered, in milliseconds since the Unix epoch.
    pub registration_time: i64,
    /// The model of the miner's GPU.
    pub gpu_model: String,
    /// The miner's memory in gigabytes.
    pub ram_capacity_gb: u32,
}

/// A miner as a mathematical value.
pub struct MinerView {
    pub id: nat,
    pub public_key: Seq<char>,
    pub registration_time: int,
    pub gpu_model: Seq<char>,
    pub ram_capacity_gb: nat,
}

impl View for Miner {
    type V = MinerView;

    open spec fn view(&self) -> MinerView {
        MinerView {
            id: self.id as nat,
            public_key: self.public_key@,
            registration_time: self.registration_time as int,
            gpu_model: self.gpu_model@,
            ram_capacity_gb: self.ram_capacity_gb as nat,
        }
    }
}

/// `uuid::Uuid::new_v4`, as a number: a random identifier.
#[verifier::external_body]
fn random_id() -> (id: u128) {
    Uuid::new_v4().as_u128()
}

/// `chrono::Utc::now`, in milliseconds since the Unix epoch.
#[verifier::external_body]
fn utc_now_millis() -> (millis: i64) {
    Utc::now().timestamp_millis()
}

impl Clone for Miner {
    fn clone(&self) -> (copy: Self)
        ensures
            copy@ == self@,
    {
        Miner {
            id: self.id,
            public_key: self.public_key.clone(),
            registration_time: self.registration_time,
            gpu_model: self.gpu_model.clone(),
            ram_capacity_gb: self.ram_capacity_gb,
        }
    }
}

impl Miner {
    /// Registers a miner now, under a new random identifier.
    pub fn new(public_key: String, gpu_model: String, ram_capacity_gb: u32) -> (miner: Miner)
        ensures
            miner@ == (MinerView {
                id: miner.id as nat,
                public_key: public_key@,
                registration_time: miner.registration_time as int,
                gpu_model: gpu_model@,
                ram_capacity_gb: ram_capacity_gb as nat,
            }),
    {
        Miner::registered(random_id(), utc_now_millis(), public_key, gpu_model, ram_capacity_gb)
    }

    /// A miner that was registered at `registration_time` under `id`.
    pub fn registered(
        id: u128,
        registration_time: i64,
        public_key: String,
        gpu_model: String,
        ram_capacity_gb: u32,
    ) -> (miner: Miner)
        ensures
            miner@ == (MinerView {
                id: id as nat,
                public_key: public_key@,
                registration_time: registration_time as int,
                gpu_model: gpu_model@,
                ram_capacity_gb: ram_capacity_gb as nat,
            }),
    {
        Miner { id, public_key, registration_time, gpu_model, ram_capacity_gb }
    }
}

} // verus!
