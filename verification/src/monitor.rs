//! The device-configuration flag and its reaction to USB lifecycle events.

use vstd::prelude::*;

verus! {

/// A USB lifecycle event as the device stack dispatches it: bus enable or
/// disable, bus reset, address assignment, and configuration selection or
/// deselection.
#[derive(Clone, Copy, PartialEq, Eq, Structural, Debug)]
pub enum UsbEvent {
    Enabled(bool),
    Reset,
    Addressed(u8),
    Configured(bool),
}

/// The flag value after an event, from any prior state: only a configuration
/// event carrying `true` yields a configured device; enable, disable, reset,
/// address assignment and deconfiguration all yield unconfigured.
pub open spec fn configured_after(ev: UsbEvent) -> bool {
    match ev {
        UsbEvent::Configured(c) => c,
        _ => false,
    }
}

/// Transition-table exhaustiveness: across every lifecycle event, the device
/// ends up configured exactly when the event is a configuration selection
/// with `configured == true`. Because the next state never depends on the
/// prior one, every transition is also idempotent, and the flag reverts on
/// any reset, disable, enable, address or deconfigure event even immediately
/// after being set.
pub proof fn lemma_configured_transition_exhaustive(ev: UsbEvent)
    ensures
        configured_after(ev) <==> ev == UsbEvent::Configured(true),
{
}

/// Tracks whether the host has completed configuration.
///
/// The sole datum shared between the USB stack's dispatch context and any
/// other reader; it is a single word precisely so the surrounding firmware
/// can hold it in an atomic cell with no multi-field invariant to tear.
pub struct ConfigMonitor {
    configured: bool,
}

impl ConfigMonitor {
    /// The flag as currently stored.
    pub closed spec fn is_configured_spec(&self) -> bool {
        self.configured
    }

    /// Starts unconfigured: the host has announced nothing yet.
    pub fn new() -> (m: ConfigMonitor)
        ensures
            !m.is_configured_spec(),
    {
        ConfigMonitor { configured: false }
    }

    /// Read the flag.
    pub fn is_configured(&self) -> (r: bool)
        ensures
            r == self.is_configured_spec(),
    {
        self.configured
    }

    /// Apply one lifecycle event to the flag.
    pub fn on_event(&mut self, ev: UsbEvent)
        ensures
            final(self).is_configured_spec() == configured_after(ev),
    {
        match ev {
            UsbEvent::Configured(c) => {
                self.configured = c;
            },
            _ => {
                self.configured = false;
            },
        }
    }

    /// Bus enabled or disabled: either way enumeration starts over.
    pub fn enabled(&mut self, enabled: bool)
        ensures
            !final(self).is_configured_spec(),
    {
        self.on_event(UsbEvent::Enabled(enabled));
    }

    /// Bus reset: configuration is lost.
    pub fn reset(&mut self)
        ensures
            !final(self).is_configured_spec(),
    {
        self.on_event(UsbEvent::Reset);
    }

    /// Address assigned: the device is addressed but not yet configured,
    /// whatever the address.
    pub fn addressed(&mut self, addr: u8)
        ensures
            !final(self).is_configured_spec(),
    {
        self.on_event(UsbEvent::Addressed(addr));
    }

    /// Configuration selected or deselected by the host.
    pub fn configured(&mut self, configured: bool)
        ensures
            final(self).is_configured_spec() == configured,
    {
        self.on_event(UsbEvent::Configured(configured));
    }
}

} // verus!
