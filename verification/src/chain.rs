//! The networks an index can follow, and the activation heights and charm rules
//! that depend on them.

use vstd::prelude::*;

verus! {

/// The chain an index follows.
#[derive(Debug, Clone, Copy, PartialEq, Eq)]
pub enum Chain {
    Mainnet,
    Testnet,
    Regtest,
    Signet,
}

/// Marks an inscription can carry; each is one bit of a `u16`.
#[derive(Debug, Clone, Copy, PartialEq, Eq)]
pub enum Charm {
    Coin,
    Cursed,
    Epic,
    Legendary,
    Lost,
    Nineball,
    Rare,
    Reinscription,
    Unbound,
    Uncommon,
    Vindicated,
    Mythic,
    Burned,
    Palindrome,
}

/// Bit position of a charm.
pub open spec fn charm_bit(c: Charm) -> nat {
    match c {
        Charm::Coin => 0,
        Charm::Cursed => 1,
        Charm::Epic => 2,
        Charm::Legendary => 3,
        Charm::Lost => 4,
        Charm::Nineball => 5,
        Charm::Rare => 6,
        Charm::Reinscription => 7,
        Charm::Unbound => 8,
        Charm::Uncommon => 9,
        Charm::Vindicated => 10,
        Charm::Mythic => 11,
        Charm::Burned => 12,
        Charm::Palindrome => 13,
    }
}

/// The charm's bit is set in `charms`.
pub open spec fn charm_set(c: Charm, charms: u16) -> bool {
    (charms >> (charm_bit(c) as u16)) & 1 == 1
}

impl Charm {
    /// The flag of the charm: its bit.
    pub fn flag(self) -> (r: u16)
        ensures
            r == 1u16 << (charm_bit(self) as u16),
    {
        match self {
            Charm::Coin => 1u16 << 0u16,
            Charm::Cursed => 1u16 << 1u16,
            Charm::Epic => 1u16 << 2u16,
            Charm::Legendary => 1u16 << 3u16,
            Charm::Lost => 1u16 << 4u16,
            Charm::Nineball => 1u16 << 5u16,
            Charm::Rare => 1u16 << 6u16,
            Charm::Reinscription => 1u16 << 7u16,
            Charm::Unbound => 1u16 << 8u16,
            Charm::Uncommon => 1u16 << 9u16,
            Charm::Vindicated => 1u16 << 10u16,
            Charm::Mythic => 1u16 << 11u16,
            Charm::Burned => 1u16 << 12u16,
            Charm::Palindrome => 1u16 << 13u16,
        }
    }

    /// The charm's bit is set in `charms`.
    pub fn is_set(self, charms: u16) -> (r: bool)
        ensures
            r == charm_set(self, charms),
    {
        let f = self.flag();
        let ghost b = charm_bit(self) as u16;
        assert(b < 16);
        assert((charms & (1u16 << b) != 0) == ((charms >> b) & 1 == 1)) by (bit_vector)
            requires
                b < 16,
        ;
        charms & f != 0
    }
}

/// Activation height of issuance and burn enhancements on each chain.
pub open spec fn spec_self_issuance_height(chain: Chain) -> u32 {
    match chain {
        Chain::Mainnet => 21000,
        Chain::Testnet => 2413343,
        Chain::Regtest => 0,
        Chain::Signet => 0,
    }
}

/// Activation height of single-step transfers on each chain.
pub open spec fn spec_single_step_height(chain: Chain) -> u32 {
    match chain {
        Chain::Mainnet => 930930,
        Chain::Testnet => 0,
        Chain::Regtest => 0,
        Chain::Signet => 0,
    }
}

/// Activation heights of protocol changes.
pub struct HardForks;

impl HardForks {
    /// Activation height of issuance and burn enhancements.
    pub fn self_issuance_activation_height(chain: &Chain) -> (r: u32)
        ensures
            r == spec_self_issuance_height(*chain),
    {
        match chain {
            Chain::Mainnet => 21000,
            Chain::Testnet => 2413343,
            Chain::Regtest => 0,
            Chain::Signet => 0,
        }
    }

    /// Activation height of single-step transfers.
    pub fn self_single_step_transfer_activation_height(chain: &Chain) -> (r: u32)
        ensures
            r == spec_single_step_height(*chain),
    {
        match chain {
            Chain::Mainnet => 930930,
            Chain::Testnet => 0,
            Chain::Regtest => 0,
            Chain::Signet => 0,
        }
    }

    /// An inscription counts when it is neither unbound nor cursed, and, below
    /// the single-step transfer activation height, not vindicated either.
    pub fn check_inscription_preconditions(height: u32, chain: &Chain, charms: u16) -> (r: bool)
        ensures
            r == (!charm_set(Charm::Unbound, charms) && !charm_set(Charm::Cursed, charms)
                && (height < spec_single_step_height(*chain) ==> !charm_set(Charm::Vindicated, charms))),
    {
        if Charm::Unbound.is_set(charms) || Charm::Cursed.is_set(charms) {
            return false;
        }
        let below_activation_height = height < Self::self_single_step_transfer_activation_height(chain);
        if below_activation_height {
            !Charm::Vindicated.is_set(charms)
        } else {
            true
        }
    }
}

} // verus!
