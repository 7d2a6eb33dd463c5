//! The settings of a session, fixed for its lifetime.

use crate::address::HardwareAddress;
use vstd::prelude::*;

verus! {

/// The payload size used when none is asked for.
pub const DEFAULT_MTU: u16 = 1500;

/// What a session is started with. The MTU of a configuration is never zero.
#[derive(Clone, Copy, Debug, PartialEq, Eq)]
pub struct SessionConfig {
    mtu: u16,
    local_address: HardwareAddress,
    destination_address: HardwareAddress,
    listen: bool,
}

/// The mathematical content of a [`SessionConfig`].
pub struct SessionConfigView {
    /// Most payload bytes that one frame carries.
    pub mtu: nat,
    /// Address of the interface that frames are sent from.
    pub local_address: HardwareAddress,
    /// Address that every frame of the session is sent to.
    pub destination_address: HardwareAddress,
    /// Whether the session stays up for the receiving side once the input is
    /// exhausted.
    pub listen: bool,
}

impl View for SessionConfig {
    type V = SessionConfigView;

    closed spec fn view(&self) -> SessionConfigView {
        SessionConfigView {
            mtu: self.mtu as nat,
            local_address: self.local_address,
            destination_address: self.destination_address,
            listen: self.listen,
        }
    }
}

impl SessionConfig {
    #[verifier::type_invariant]
    spec fn positive_mtu(&self) -> bool {
        self.mtu > 0
    }

    /// Makes a configuration. An MTU of zero is refused: no frame could
    /// carry anything.
    pub fn new(
        mtu: u16,
        local_address: HardwareAddress,
        destination_address: HardwareAddress,
        listen: bool,
    ) -> (config: Option<SessionConfig>)
        ensures
            mtu == 0 ==> config is None,
            mtu > 0 ==> config is Some && config->0@ == (SessionConfigView {
                mtu: mtu as nat,
                local_address,
                destination_address,
                listen,
            }),
    {
        if mtu == 0 {
            None
        } else {
            Some(SessionConfig { mtu, local_address, destination_address, listen })
        }
    }

    /// Most payload bytes that one frame carries; never zero.
    pub fn mtu(&self) -> (mtu: u16)
        ensures
            mtu == self@.mtu,
            mtu > 0,
    {
        proof {
            use_type_invariant(self);
        }
        self.mtu
    }

    /// Address of the interface that frames are sent from.
    pub fn local_address(&self) -> (address: HardwareAddress)
        ensures
            address == self@.local_address,
    {
        self.local_address
    }

    /// Address that every frame of the session is sent to.
    pub fn destination_address(&self) -> (address: HardwareAddress)
        ensures
            address == self@.destination_address,
    {
        self.destination_address
    }

    /// Whether the session waits for the receiving side before it ends.
    pub fn listen(&self) -> (listen: bool)
        ensures
            listen == self@.listen,
    {
        self.listen
    }
}

} // verus!
