//! The decisions of the toy-control task: which devices to drive, and when
//! the task ends. The caller receives events from the device server and
//! vibration commands from the relay, and performs the actions.
use vstd::prelude::*;

verus! {

/// An event from the device server, with the device type left open.
pub enum ClientEvent<D> {
    /// A device was connected; it joins the ones that are driven.
    DeviceAdded(D),
    /// The server went away: the task ends.
    ServerDisconnect,
    /// Any other event (scanning finished, a device removed, a log line, a
    /// ping timeout); it changes nothing.
    Other,
}

/// The devices that vibration commands go to, in the order they were added.
pub struct HapticsRouter<D> {
    devices: Vec<D>,
}

impl<D> View for HapticsRouter<D> {
    type V = Seq<D>;

    closed spec fn view(&self) -> Seq<D> {
        self.devices@
    }
}

impl<D> HapticsRouter<D> {
    /// A router with no devices yet.
    pub fn new() -> (r: HapticsRouter<D>)
        ensures
            r@ == Seq::<D>::empty(),
    {
        HapticsRouter { devices: Vec::new() }
    }

    /// Takes an event from the server; returns whether the task goes on.
    pub fn on_client_event(&mut self, event: ClientEvent<D>) -> (keep_running: bool)
        ensures
            match event {
                ClientEvent::DeviceAdded(d) => keep_running && final(self)@ == old(self)@.push(d),
                ClientEvent::ServerDisconnect => !keep_running && final(self)@ == old(self)@,
                ClientEvent::Other => keep_running && final(self)@ == old(self)@,
            },
    {
        match event {
            ClientEvent::DeviceAdded(d) => {
                self.devices.push(d);
                true
            },
            ClientEvent::ServerDisconnect => false,
            ClientEvent::Other => true,
        }
    }

    /// The devices that a vibration command goes to: all that were added.
    pub fn devices(&self) -> (r: &[D])
        ensures
            r@ == self@,
    {
        self.devices.as_slice()
    }
}

} // verus!
