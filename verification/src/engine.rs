//! State that all pipeline jobs share.

use crate::config::{HardwareAcceleration, TranscodeSettings};
use vstd::prelude::*;

verus! {

/// The encoder backend in use.
///
/// A start-up probe can pass while the first real encode still fails, so the
/// backend can be switched to software once, without touching the settings.
#[derive(Debug)]
pub struct TranscodeRuntime {
    pub configured: HardwareAcceleration,
    pub active: HardwareAcceleration,
    pub transitions: u64,
    pub hw_encodes: EncodeTally,
    pub sw_encodes: EncodeTally,
}

/// How many encodes ran and how long they took together.
#[derive(Debug, Clone, Copy, PartialEq, Eq, Structural)]
pub struct EncodeTally {
    pub count: u64,
    pub total_ms: u64,
}

impl EncodeTally {
    pub open spec fn empty() -> Self {
        EncodeTally { count: 0, total_ms: 0 }
    }

    /// One encode more; both numbers stay at their highest value.
    pub open spec fn plus(self, ms: u64) -> Self {
        EncodeTally {
            count: if self.count == u64::MAX {
                u64::MAX
            } else {
                (self.count + 1) as u64
            },
            total_ms: if self.total_ms + ms > u64::MAX {
                u64::MAX
            } else {
                (self.total_ms + ms) as u64
            },
        }
    }

    fn record(&mut self, ms: u64)
        ensures
            *final(self) == old(self).plus(ms),
    {
        self.count = self.count.saturating_add(1);
        self.total_ms = self.total_ms.saturating_add(ms);
    }

    /// Average time of an encode; zero where none ran.
    pub fn average_ms(&self) -> (r: u64)
        ensures
            self.count == 0 ==> r == 0,
            self.count > 0 ==> r == self.total_ms / self.count,
    {
        if self.count == 0 {
            0
        } else {
            self.total_ms / self.count
        }
    }
}

impl TranscodeRuntime {
    /// The active backend is the configured one or, after one transition,
    /// software.
    pub open spec fn wf(&self) -> bool {
        ||| self.active == self.configured && self.transitions == 0
        ||| self.configured != HardwareAcceleration::Software && self.active
            == HardwareAcceleration::Software && self.transitions == 1
    }

    pub fn new(configured_backend: HardwareAcceleration) -> (r: Self)
        ensures
            r.wf(),
            r.configured == configured_backend,
            r.active == configured_backend,
            r.transitions == 0,
            r.hw_encodes == EncodeTally::empty(),
            r.sw_encodes == EncodeTally::empty(),
    {
        TranscodeRuntime {
            configured: configured_backend,
            active: configured_backend,
            transitions: 0,
            hw_encodes: EncodeTally { count: 0, total_ms: 0 },
            sw_encodes: EncodeTally { count: 0, total_ms: 0 },
        }
    }

    pub fn configured_backend(&self) -> (r: HardwareAcceleration)
        ensures
            r == self.configured,
    {
        self.configured
    }

    pub fn active_backend(&self) -> (r: HardwareAcceleration)
        ensures
            r == self.active,
    {
        self.active
    }

    pub fn software_fallback_active(&self) -> (r: bool)
        ensures
            r == (self.configured != HardwareAcceleration::Software && self.active
                == HardwareAcceleration::Software),
    {
        self.configured.is_hardware() && self.active == HardwareAcceleration::Software
    }

    pub fn fallback_transitions(&self) -> (r: u64)
        ensures
            r == self.transitions,
    {
        self.transitions
    }

    /// The settings with the backend that is in use.
    pub fn effective_settings(&self, template: &TranscodeSettings) -> (r: TranscodeSettings)
        ensures
            r == (TranscodeSettings { hardware_acceleration: self.active, ..*template }),
    {
        let mut settings = template.duplicate();
        settings.hardware_acceleration = self.active;
        settings
    }

    /// Switch to software encoding. Only the first call on a hardware backend
    /// switches, and says so.
    pub fn activate_software_fallback(&mut self) -> (switched: bool)
        requires
            old(self).wf(),
        ensures
            final(self).wf(),
            switched == (old(self).configured != HardwareAcceleration::Software && old(self).active
                != HardwareAcceleration::Software),
            switched ==> *final(self) == (TranscodeRuntime {
                active: HardwareAcceleration::Software,
                transitions: 1,
                ..*old(self)
            }),
            !switched ==> *final(self) == *old(self),
    {
        if !self.configured.is_hardware() {
            return false;
        }
        if self.active == HardwareAcceleration::Software {
            return false;
        }
        self.active = HardwareAcceleration::Software;
        self.transitions = self.transitions + 1;
        true
    }

    /// Count an encode on a device or in software.
    pub fn record_encode(&mut self, used_hardware: bool, duration_ms: u64)
        ensures
            used_hardware ==> *final(self) == (TranscodeRuntime {
                hw_encodes: old(self).hw_encodes.plus(duration_ms),
                ..*old(self)
            }),
            !used_hardware ==> *final(self) == (TranscodeRuntime {
                sw_encodes: old(self).sw_encodes.plus(duration_ms),
                ..*old(self)
            }),
    {
        if used_hardware {
            self.hw_encodes.record(duration_ms);
        } else {
            self.sw_encodes.record(duration_ms);
        }
    }
}

/// A tally counts each encode once and adds up their times, up to the highest
/// number.
pub proof fn lemma_tally_adds_up(tally: EncodeTally, a: u64, b: u64)
    ensures
        tally.count < u64::MAX - 1 ==> tally.plus(a).plus(b).count == tally.count + 2,
        tally.total_ms + a + b <= u64::MAX ==> tally.plus(a).plus(b).total_ms == tally.total_ms + a
            + b,
        tally.total_ms + a + b > u64::MAX ==> tally.plus(a).plus(b).total_ms == u64::MAX,
        EncodeTally::empty().plus(a) == (EncodeTally { count: 1, total_ms: a }),
{
}

} // verus!
