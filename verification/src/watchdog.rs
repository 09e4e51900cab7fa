//! The watchdog that reboots a machine whose agent hangs.

use vstd::prelude::*;

use crate::config::{WatchdogConfig, WatchdogMode};

verus! {

/// What is written to the device to keep it quiet.
pub const KEEPALIVE_BYTE: u8 = 49;

/// What is written to the device before it is closed, so that it does not fire.
pub const DISARM_BYTE: u8 = 86;

/// The watchdog of a node.
#[derive(Debug)]
pub struct Watchdog {
    pub config: WatchdogConfig,
    /// The device is open.
    pub is_active: bool,
}

impl Watchdog {
    /// A watchdog whose device is not open.
    pub fn new(config: WatchdogConfig) -> (r: Self)
        ensures
            r.config == config,
            !r.is_active,
    {
        Watchdog { config, is_active: false }
    }

    /// Whether the device has to be opened when this node becomes primary.
    pub fn wants_device(&self) -> (r: bool)
        ensures
            r == (self.config.mode != WatchdogMode::Off),
    {
        self.config.mode != WatchdogMode::Off
    }

    /// This node becomes primary, and the device was opened or could not be. Returns whether it
    /// may: not if a watchdog is required and there is none.
    pub fn activate(&mut self, opened: bool) -> (r: bool)
        ensures
            r == (old(self).config.mode != WatchdogMode::Required || opened),
            final(self).is_active == if old(self).config.mode != WatchdogMode::Off && opened {
                true
            } else {
                old(self).is_active
            },
            final(self).config == old(self).config,
    {
        if self.config.mode == WatchdogMode::Off {
            return true;
        }
        if !opened {
            return self.config.mode != WatchdogMode::Required;
        }
        self.is_active = true;
        true
    }

    /// What to write to the device in this run of the control loop.
    pub fn keepalive(&self) -> (r: Option<u8>)
        ensures
            r == if self.is_active {
                Some(KEEPALIVE_BYTE)
            } else {
                None
            },
    {
        if self.is_active {
            Some(KEEPALIVE_BYTE)
        } else {
            None
        }
    }

    /// This node is not primary any longer. Returns what to write to the device before it is
    /// closed, if it is open.
    pub fn disarm(&mut self) -> (r: Option<u8>)
        ensures
            r == if old(self).is_active {
                Some(DISARM_BYTE)
            } else {
                None
            },
            !final(self).is_active,
            final(self).config == old(self).config,
    {
        if !self.is_active {
            return None;
        }
        self.is_active = false;
        Some(DISARM_BYTE)
    }

    /// Whether the device is open.
    pub fn is_active(&self) -> (r: bool)
        ensures
            r == self.is_active,
    {
        self.is_active
    }

    /// Whether a node may be primary only with a watchdog.
    pub fn is_required(&self) -> (r: bool)
        ensures
            r == (self.config.mode == WatchdogMode::Required),
    {
        self.config.mode == WatchdogMode::Required
    }

    /// By how many seconds the watchdog fires before the leader lock expires.
    pub fn safety_margin(&self) -> (r: u64)
        ensures
            r == self.config.safety_margin,
    {
        self.config.safety_margin
    }

    /// After how many seconds without a sign of life the watchdog fires, where the leader lock
    /// lives for `ttl` seconds: the safety margin before the lock expires.
    pub fn timeout(&self, ttl: u64) -> (r: u64)
        ensures
            r == if ttl >= self.config.safety_margin {
                ttl - self.config.safety_margin
            } else {
                0
            },
    {
        if ttl >= self.config.safety_margin {
            ttl - self.config.safety_margin
        } else {
            0
        }
    }
}

} // verus!
