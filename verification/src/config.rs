//! The settings of a player: sensitivities and key bindings.
use crate::keys::{
    complains, keybind, keybind_list, reading_of, Binding, KeyCode, KeybindError, Reading,
};
use crate::single::Single;
use vstd::prelude::*;

verus! {

/// Which side of a connection the game takes.
#[derive(Clone, Copy, Debug, PartialEq, Eq, Structural)]
pub enum NetMode {
    Host,
    Client,
}

/// The user keybinds and other personal settings.
#[derive(Clone, Copy, Debug)]
pub struct Config {
    /// How far the camera turns for a given pointer motion.
    pub sens: Single,
    /// How far the camera moves in or out for a turn of the wheel.
    pub zoom_sens: Single,
    /// The keys for up, left, down and right, in this order.
    pub movement: [KeyCode; 4],
    /// The keys of the two special actions.
    pub specials: [KeyCode; 2],
    pub jump: KeyCode,
    pub dash: KeyCode,
    pub net_mode: Option<NetMode>,
}

/// The bindings of a configuration, as names.
#[derive(Clone, Debug)]
pub struct Bindings {
    pub movement: Binding,
    pub specials: Binding,
    pub jump: Binding,
    pub dash: Binding,
}

/// The bits of the binary32 value nearest to a half turn over 180: radians
/// per degree.
pub const RADIANS_PER_DEGREE: u32 = 0x3c8e_fa35;

/// The bits of 10: the look sensitivity is a tenth of the configured one.
pub const LOOK_DIVISOR: u32 = 0x4120_0000;

impl Config {
    /// What `look_sens` returns.
    pub open spec fn look_sens_of(self) -> Single {
        self.sens.product(Single { bits: RADIANS_PER_DEGREE }).quotient(
            Single { bits: LOOK_DIVISOR },
        )
    }

    /// The radians by which the camera turns for one unit of pointer motion:
    /// the sensitivity, taken as degrees, over ten.
    pub fn look_sens(&self) -> (r: Single)
        ensures
            r == self.look_sens_of(),
    {
        self.sens.mul(Single { bits: RADIANS_PER_DEGREE }).div(Single { bits: LOOK_DIVISOR })
    }

    /// Whether all bindings of `b` can be read: four movement keys, two
    /// special keys, one key to jump and one to dash.
    pub open spec fn readable(b: Bindings) -> bool {
        &&& reading_of(b.movement, 4) is Keys
        &&& reading_of(b.specials, 2) is Keys
        &&& reading_of(b.jump, 1) is Keys
        &&& reading_of(b.dash, 1) is Keys
    }

    /// The first binding of `b` that cannot be read, in the order movement,
    /// specials, jump, dash.
    pub open spec fn unreadable(b: Bindings) -> Binding {
        if !(reading_of(b.movement, 4) is Keys) {
            b.movement
        } else if !(reading_of(b.specials, 2) is Keys) {
            b.specials
        } else if !(reading_of(b.jump, 1) is Keys) {
            b.jump
        } else {
            b.dash
        }
    }

    /// How many keys the action of that binding takes.
    pub open spec fn keys_of(b: Bindings) -> int {
        if !(reading_of(b.movement, 4) is Keys) {
            4
        } else if !(reading_of(b.specials, 2) is Keys) {
            2
        } else {
            1
        }
    }

    /// Puts a configuration together from the sensitivities and the names
    /// of the bound keys. The bindings are read in the order movement,
    /// specials, jump, dash, and the first that cannot be read is the error.
    pub fn from_bindings(
        sens: Single,
        zoom_sens: Single,
        bindings: &Bindings,
        net_mode: Option<NetMode>,
    ) -> (r: Result<Config, KeybindError>)
        ensures
            r is Ok <==> Config::readable(*bindings),
            r matches Ok(c) ==> {
                &&& c.sens == sens
                &&& c.zoom_sens == zoom_sens
                &&& c.net_mode == net_mode
                &&& reading_of(bindings.movement, 4) == Reading::Keys(c.movement@)
                &&& reading_of(bindings.specials, 2) == Reading::Keys(c.specials@)
                &&& reading_of(bindings.jump, 1) == Reading::Keys(seq![c.jump])
                &&& reading_of(bindings.dash, 1) == Reading::Keys(seq![c.dash])
            },
            r matches Err(e) ==> complains(
                Config::unreadable(*bindings),
                Config::keys_of(*bindings),
                e,
            ),
    {
        let movement = match keybind_list(&bindings.movement, 4) {
            Ok(keys) => keys,
            Err(e) => {
                return Err(e);
            },
        };
        let specials = match keybind_list(&bindings.specials, 2) {
            Ok(keys) => keys,
            Err(e) => {
                return Err(e);
            },
        };
        let jump = match keybind(&bindings.jump) {
            Ok(key) => key,
            Err(e) => {
                return Err(e);
            },
        };
        let dash = match keybind(&bindings.dash) {
            Ok(key) => key,
            Err(e) => {
                return Err(e);
            },
        };
        proof {
            crate::keys::lemma_reading_has_all(bindings.movement, 4);
            crate::keys::lemma_reading_has_all(bindings.specials, 2);
            crate::keys::lemma_reading_has_all(bindings.jump, 1);
            crate::keys::lemma_reading_has_all(bindings.dash, 1);
        }
        let c = Config {
            sens,
            zoom_sens,
            movement: [movement[0], movement[1], movement[2], movement[3]],
            specials: [specials[0], specials[1]],
            jump,
            dash,
            net_mode,
        };
        proof {
            assert(c.movement@ =~= movement@);
            assert(c.specials@ =~= specials@);
            assert(seq![c.jump] =~= reading_of(bindings.jump, 1)->Keys_0);
            assert(seq![c.dash] =~= reading_of(bindings.dash, 1)->Keys_0);
        }
        Ok(c)
    }
}

} // verus!
