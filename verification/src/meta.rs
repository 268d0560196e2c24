//! Progress that outlasts a run: the currency earned so far and the
//! permanent bonuses bought with it.

use vstd::prelude::*;
use crate::combat::{fits_i32, is_i32};
use crate::map::half;

verus! {

/// The record kept between runs.
#[derive(Clone, Copy, Debug, PartialEq, Eq, Structural)]
pub struct PermanentUpgrades {
    /// The currency upgrades are paid with.
    pub echoes: i32,
    pub bonus_hp: i32,
    pub bonus_power: i32,
    pub bonus_defense: i32,
}

/// The permanent bonuses on offer.
#[derive(Clone, Copy, Debug, PartialEq, Eq, Structural)]
pub enum Upgrade {
    Fortitude,
    Ferocity,
    Resilience,
}

/// What every purchase adds to the bonus it raises.
pub const UPGRADE_STEP: i32 = 2;

impl PermanentUpgrades {
    /// A record with no currency and no bonuses.
    pub fn new() -> (upgrades: Self)
        ensures
            upgrades == (PermanentUpgrades {
                echoes: 0,
                bonus_hp: 0,
                bonus_power: 0,
                bonus_defense: 0,
            }),
    {
        PermanentUpgrades { echoes: 0, bonus_hp: 0, bonus_power: 0, bonus_defense: 0 }
    }

    /// The price of the next purchase of an upgrade. Fortitude starts at
    /// 50 and grows by 10 with every purchase made; ferocity and
    /// resilience start at 100 and grow by 50 with every point of bonus
    /// held.
    pub open spec fn spec_cost(self, upgrade: Upgrade) -> int {
        match upgrade {
            Upgrade::Fortitude => 50 + half(self.bonus_hp as int) * 10,
            Upgrade::Ferocity => 100 + self.bonus_power * 50,
            Upgrade::Resilience => 100 + self.bonus_defense * 50,
        }
    }

    /// The bonus an upgrade raises.
    pub open spec fn bonus(self, upgrade: Upgrade) -> int {
        match upgrade {
            Upgrade::Fortitude => self.bonus_hp as int,
            Upgrade::Ferocity => self.bonus_power as int,
            Upgrade::Resilience => self.bonus_defense as int,
        }
    }

    /// Whether an upgrade can be paid for.
    pub open spec fn affords(self, upgrade: Upgrade) -> bool {
        self.echoes >= self.spec_cost(upgrade)
    }

    /// The record after an upgrade has been bought: the price is taken off
    /// the currency and the bonus grows by [`UPGRADE_STEP`].
    pub open spec fn bought(self, upgrade: Upgrade) -> PermanentUpgrades {
        let echoes = (self.echoes - self.spec_cost(upgrade)) as i32;
        match upgrade {
            Upgrade::Fortitude => PermanentUpgrades {
                echoes,
                bonus_hp: (self.bonus_hp + UPGRADE_STEP) as i32,
                ..self
            },
            Upgrade::Ferocity => PermanentUpgrades {
                echoes,
                bonus_power: (self.bonus_power + UPGRADE_STEP) as i32,
                ..self
            },
            Upgrade::Resilience => PermanentUpgrades {
                echoes,
                bonus_defense: (self.bonus_defense + UPGRADE_STEP) as i32,
                ..self
            },
        }
    }

    /// What the machine's number range demands of a purchase: the price,
    /// and what is left or added if it is paid, can be held.
    pub open spec fn purchase_in_range(self, upgrade: Upgrade) -> bool {
        &&& fits_i32(self.spec_cost(upgrade))
        &&& self.affords(upgrade) ==> {
            &&& fits_i32(self.echoes - self.spec_cost(upgrade))
            &&& fits_i32(self.bonus(upgrade) + UPGRADE_STEP)
        }
    }

    /// The price of the next purchase of an upgrade.
    pub fn cost(&self, upgrade: Upgrade) -> (price: i32)
        requires
            fits_i32(self.spec_cost(upgrade)),
        ensures
            price == self.spec_cost(upgrade),
    {
        let price: i64 = match upgrade {
            Upgrade::Fortitude => 50 + (self.bonus_hp as i64 / 2) * 10,
            Upgrade::Ferocity => 100 + self.bonus_power as i64 * 50,
            Upgrade::Resilience => 100 + self.bonus_defense as i64 * 50,
        };
        price as i32
    }

    /// Computes [`Self::spec_cost`] in a type wide enough for any record.
    fn wide_cost(&self, upgrade: Upgrade) -> (price: i128)
        ensures
            price == self.spec_cost(upgrade),
    {
        match upgrade {
            Upgrade::Fortitude => 50 + (self.bonus_hp as i128 / 2) * 10,
            Upgrade::Ferocity => 100 + self.bonus_power as i128 * 50,
            Upgrade::Resilience => 100 + self.bonus_defense as i128 * 50,
        }
    }

    /// Whether [`Self::cost`] can be asked for the price: it can be held.
    pub fn cost_fits(&self, upgrade: Upgrade) -> (fits: bool)
        ensures
            fits == fits_i32(self.spec_cost(upgrade)),
    {
        is_i32(self.wide_cost(upgrade))
    }

    /// Whether [`Self::purchase`] can be asked for the upgrade; see
    /// [`Self::purchase_in_range`].
    pub fn purchase_fits(&self, upgrade: Upgrade) -> (fits: bool)
        ensures
            fits == self.purchase_in_range(upgrade),
    {
        let price = self.wide_cost(upgrade);
        if !is_i32(price) {
            return false;
        }
        if (self.echoes as i128) < price {
            return true;
        }
        let bonus = match upgrade {
            Upgrade::Fortitude => self.bonus_hp,
            Upgrade::Ferocity => self.bonus_power,
            Upgrade::Resilience => self.bonus_defense,
        };
        is_i32(self.echoes as i128 - price) && is_i32(bonus as i128 + UPGRADE_STEP as i128)
    }

    /// Buys an upgrade if the currency suffices, and tells whether it did.
    /// A purchase that cannot be paid for changes nothing.
    pub fn purchase(&mut self, upgrade: Upgrade) -> (done: bool)
        requires
            old(self).purchase_in_range(upgrade),
        ensures
            done == old(self).affords(upgrade),
            done ==> *final(self) == old(self).bought(upgrade),
            !done ==> *final(self) == *old(self),
    {
        let price = self.cost(upgrade);
        if self.echoes >= price {
            self.echoes -= price;
            match upgrade {
                Upgrade::Fortitude => {
                    self.bonus_hp += UPGRADE_STEP;
                },
                Upgrade::Ferocity => {
                    self.bonus_power += UPGRADE_STEP;
                },
                Upgrade::Resilience => {
                    self.bonus_defense += UPGRADE_STEP;
                },
            }
            true
        } else {
            false
        }
    }
}

/// Number of entries of the upgrade menu: the three upgrades and the way
/// back.
pub const UPGRADE_MENU_OPTIONS: usize = 4;

/// What a pick from the upgrade menu asks for.
#[derive(Clone, Copy, Debug, PartialEq, Eq, Structural)]
pub enum UpgradeChoice {
    Buy(Upgrade),
    /// Leave the menu.
    Return,
    /// Nothing was picked; show the menu again.
    Stay,
}

/// Reads a pick from the upgrade menu, which lists fortitude, ferocity,
/// resilience and the way back, in this order.
pub fn upgrade_choice(selected_index: Option<usize>) -> (choice: UpgradeChoice)
    ensures
        choice == (match selected_index {
            Some(index) => if index == 0 {
                UpgradeChoice::Buy(Upgrade::Fortitude)
            } else if index == 1 {
                UpgradeChoice::Buy(Upgrade::Ferocity)
            } else if index == 2 {
                UpgradeChoice::Buy(Upgrade::Resilience)
            } else if index == 3 {
                UpgradeChoice::Return
            } else {
                UpgradeChoice::Stay
            },
            None => UpgradeChoice::Stay,
        }),
{
    match selected_index {
        Some(0) => UpgradeChoice::Buy(Upgrade::Fortitude),
        Some(1) => UpgradeChoice::Buy(Upgrade::Ferocity),
        Some(2) => UpgradeChoice::Buy(Upgrade::Resilience),
        Some(3) => UpgradeChoice::Return,
        _ => UpgradeChoice::Stay,
    }
}

} // verus!
