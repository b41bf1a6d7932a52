//! Names and RPC endpoints of the clusters a client can talk to.

use vstd::prelude::*;

verus! {

#[derive(Clone, Copy, Debug, PartialEq, Eq, Structural)]
pub enum Cluster {
    Testnet,
    Mainnet,
    VipMainnet,
    Devnet,
    Localnet,
    Debug,
}

impl Cluster {
    pub open spec fn spec_url(self) -> Seq<char> {
        match self {
            Cluster::Devnet => "https://devnet.solana.com"@,
            Cluster::Testnet => "https://testnet.solana.com"@,
            Cluster::Mainnet => "https://api.mainnet-beta.solana.com"@,
            Cluster::VipMainnet => "https://vip-api.mainnet-beta.solana.com"@,
            Cluster::Localnet => "http://127.0.0.1:8899"@,
            Cluster::Debug => "http://34.90.18.145:8899"@,
        }
    }

    /// The RPC endpoint of this cluster.
    pub fn url(&self) -> (r: &'static str)
        ensures
            r@ == self.spec_url(),
    {
        match self {
            Cluster::Devnet => "https://devnet.solana.com",
            Cluster::Testnet => "https://testnet.solana.com",
            Cluster::Mainnet => "https://api.mainnet-beta.solana.com",
            Cluster::VipMainnet => "https://vip-api.mainnet-beta.solana.com",
            Cluster::Localnet => "http://127.0.0.1:8899",
            Cluster::Debug => "http://34.90.18.145:8899",
        }
    }

    pub open spec fn spec_name(self) -> Seq<char> {
        match self {
            Cluster::Devnet => "devnet"@,
            Cluster::Testnet => "testnet"@,
            Cluster::Mainnet => "mainnet-beta"@,
            Cluster::VipMainnet => "vipmainnet"@,
            Cluster::Localnet => "localnet"@,
            Cluster::Debug => "debug"@,
        }
    }

    /// The conventional name of this cluster.
    pub fn name(&self) -> (r: &'static str)
        ensures
            r@ == self.spec_name(),
    {
        match self {
            Cluster::Devnet => "devnet",
            Cluster::Testnet => "testnet",
            Cluster::Mainnet => "mainnet-beta",
            Cluster::VipMainnet => "vipmainnet",
            Cluster::Localnet => "localnet",
            Cluster::Debug => "debug",
        }
    }
}

} // verus!
