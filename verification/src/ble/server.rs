//! What each half offers over the air.

use vstd::prelude::*;
use crate::side::KeyboardSide;
use crate::side::is_master;
use crate::side::leads;

verus! {

/// The uptime characteristic: seconds since boot.
#[derive(Clone, Copy, Debug, PartialEq, Eq, Structural)]
pub struct UptimeService {
    pub uptime: u64,
}

/// The role of a half on the link between the halves.
#[derive(Clone, Copy, Debug, PartialEq, Eq, Structural)]
pub enum LinkRole {
    /// Looks for the other half and connects to it.
    Central,
    /// Advertises itself and waits for the other half.
    Peripheral,
}

/// The services of a half.
#[derive(Clone, Copy, Debug, PartialEq, Eq, Structural)]
pub struct GloveServer {
    /// The keyboard service for a host.
    pub hid: bool,
    /// The service that the other half writes its messages to.
    pub split: bool,
    /// Whether the device information names a vendor and a product.
    pub pnp: bool,
    pub uptime: UptimeService,
}

/// The services of the half `this`: the leading half is the keyboard for
/// the host, the other half serves the link.
pub open spec fn services_of(this: KeyboardSide) -> GloveServer {
    GloveServer {
        hid: leads(this),
        split: !leads(this),
        pnp: leads(this),
        uptime: UptimeService { uptime: 0 },
    }
}

/// The role of the half `this` on the link.
pub open spec fn role_of(this: KeyboardSide) -> LinkRole {
    if leads(this) {
        LinkRole::Central
    } else {
        LinkRole::Peripheral
    }
}

impl GloveServer {
    /// The services that the half `this` sets up.
    pub fn new(this: KeyboardSide) -> (r: Self)
        ensures
            r == services_of(this),
    {
        let master = is_master(this);
        GloveServer { hid: master, split: !master, pnp: master, uptime: UptimeService { uptime: 0 } }
    }
}

/// The role that the half `this` takes on the link.
pub fn link_role(this: KeyboardSide) -> (r: LinkRole)
    ensures
        r == role_of(this),
{
    if is_master(this) {
        LinkRole::Central
    } else {
        LinkRole::Peripheral
    }
}

/// The name that the half `this` advertises.
pub fn advertised_name(this: KeyboardSide) -> (r: &'static str)
    ensures
        r == (if leads(this) {
            "Glove80 RH"
        } else {
            "Glove80 LH"
        }),
{
    if is_master(this) {
        "Glove80 RH"
    } else {
        "Glove80 LH"
    }
}

/// The roles are fixed and they fit: of the two halves exactly one is the
/// central, and the other one is the half that serves the link.
pub proof fn lemma_one_central_one_peripheral(this: KeyboardSide)
    ensures
        role_of(this) != role_of(this.opposite()),
        role_of(this) == LinkRole::Central <==> services_of(this.opposite()).split,
        services_of(this).hid != services_of(this).split,
{
}

} // verus!
