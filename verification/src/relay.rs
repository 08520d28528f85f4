//! The decisions of the interrupt-channel relay between a controller and the
//! console. The caller reads from both sides and hands each read here; the
//! relay says what to forward, when to close, and when the toys must start or
//! stop vibrating.
use crate::bt_addr::BtAddr;
use vstd::prelude::*;

verus! {

/// A command for the toys: vibrate at full speed, or stop.
#[derive(Debug, Clone, Copy, PartialEq, Eq, Structural)]
pub enum Vibration {
    Full,
    Stop,
}

/// What to do after a read from the console.
#[derive(Debug, Clone, Copy, PartialEq, Eq, Structural)]
pub enum SwitchStep {
    /// The console closed the channel (a read of zero bytes): stop relaying.
    Close,
    /// Send the command, if any, to the toys, then forward the bytes read to
    /// the controller.
    Forward(Option<Vibration>),
}

/// What to do after a read from the controller.
#[derive(Debug, Clone, Copy, PartialEq, Eq)]
pub enum ControllerStep {
    /// The controller closed the channel (a read of zero bytes): stop relaying.
    Close,
    /// Forward the bytes read (as rewritten) to the console. Holds the
    /// address that a device-info report carried before it was replaced.
    Forward(Option<BtAddr>),
}

/// The relay's state: whether the toys vibrate, and the byte counts read
/// from each side in total and by the latest read.
pub struct RelayState {
    pub vibrating: bool,
    pub total_from_controller: usize,
    pub total_from_switch: usize,
    pub last_controller_len: usize,
    pub last_switch_len: usize,
}

/// The command that a console report with rumble byte `rumble` calls for: a
/// live rumble starts the toys when they are still, a silent one stops them
/// when they vibrate, and otherwise nothing is sent.
pub open spec fn spec_rumble_command(vibrating: bool, rumble: u8) -> Option<Vibration> {
    if rumble > 0 && !vibrating {
        Some(Vibration::Full)
    } else if rumble == 0 && vibrating {
        Some(Vibration::Stop)
    } else {
        None
    }
}

/// Whether the `n` bytes read into `buf` from the controller are a
/// device-info reply (a 50-byte report `0x21` answering subcommand `0x02`).
pub open spec fn spec_is_device_info(buf: Seq<u8>, n: int) -> bool {
    n == 50 && buf[1] == 0x21 && buf[15] == 0x02
}

/// `buf` with the controller address of a device-info reply (bytes 20 to 25)
/// replaced by `addr`; unchanged when it is no such reply.
pub open spec fn spec_rewritten(buf: Seq<u8>, n: int, addr: Seq<u8>) -> Seq<u8> {
    if spec_is_device_info(buf, n) {
        Seq::new(buf.len(), |k: int| if 20 <= k < 26 { addr[k - 20] } else { buf[k] })
    } else {
        buf
    }
}

/// If the `n` bytes read into `buf` are a device-info reply, writes `addr`
/// over the controller address in it and returns the address it held.
pub fn rewrite_device_info(buf: &mut Vec<u8>, n: usize, addr: &BtAddr) -> (old_addr: Option<BtAddr>)
    requires
        n <= old(buf).len(),
    ensures
        final(buf)@ == spec_rewritten(old(buf)@, n as int, addr.0@),
        old_addr is Some <==> spec_is_device_info(old(buf)@, n as int),
        old_addr matches Some(a) ==> a.0@ == old(buf)@.subrange(20, 26),
        old_addr is None ==> final(buf)@ == old(buf)@,
{
    if n == 50 && buf[1] == 0x21 && buf[15] == 0x02 {
        let old_addr = BtAddr([buf[20], buf[21], buf[22], buf[23], buf[24], buf[25]]);
        assert(old_addr.0@ =~= old(buf)@.subrange(20, 26));
        let mut k: usize = 0;
        while k < 6
            invariant
                k <= 6,
                buf.len() == old(buf).len(),
                old(buf).len() >= 50,
                forall|j: int|
                    0 <= j < buf.len() ==> #[trigger] buf@[j] == if 20 <= j < 20 + k {
                        addr.0@[j - 20]
                    } else {
                        old(buf)@[j]
                    },
            decreases 6 - k,
        {
            buf.set(20 + k, addr.0[k]);
            k = k + 1;
        }
        assert(buf@ =~= spec_rewritten(old(buf)@, n as int, addr.0@));
        Some(old_addr)
    } else {
        None
    }
}

impl RelayState {
    /// The state before any read: toys still, nothing read.
    pub fn new() -> (s: RelayState)
        ensures
            !s.vibrating,
            s.total_from_controller == 0,
            s.total_from_switch == 0,
            s.last_controller_len == 0,
            s.last_switch_len == 0,
    {
        RelayState {
            vibrating: false,
            total_from_controller: 0,
            total_from_switch: 0,
            last_controller_len: 0,
            last_switch_len: 0,
        }
    }

    /// Takes a read of `n` bytes from the console into `report` (whose byte 3
    /// is the rumble byte). A read of zero bytes closes the relay; otherwise
    /// the toys are started or stopped as the rumble byte calls for and the
    /// bytes are forwarded.
    pub fn on_switch_read(&mut self, report: &[u8], n: usize) -> (step: SwitchStep)
        requires
            n <= report.len(),
            3 < report.len(),
            old(self).total_from_switch + n <= usize::MAX,
        ensures
            final(self).total_from_switch == old(self).total_from_switch + n,
            final(self).last_switch_len == n,
            final(self).total_from_controller == old(self).total_from_controller,
            final(self).last_controller_len == old(self).last_controller_len,
            n == 0 ==> step == SwitchStep::Close && final(self).vibrating == old(self).vibrating,
            n > 0 ==> step == SwitchStep::Forward(spec_rumble_command(old(self).vibrating, report[3]))
                && final(self).vibrating == (report[3] > 0),
    {
        self.total_from_switch = self.total_from_switch + n;
        self.last_switch_len = n;
        if n == 0 {
            return SwitchStep::Close;
        }
        let rumble = report[3];
        let command = if rumble > 0 && !self.vibrating {
            self.vibrating = true;
            Some(Vibration::Full)
        } else if rumble == 0 && self.vibrating {
            self.vibrating = false;
            Some(Vibration::Stop)
        } else {
            None
        };
        SwitchStep::Forward(command)
    }

    /// Takes a read of `n` bytes from the controller into `buf`. A read of
    /// zero bytes closes the relay; otherwise a device-info reply gets `adapter`
    /// in place of the controller's address, so that the console pairs with
    /// this host, and the bytes are forwarded.
    pub fn on_controller_read(&mut self, buf: &mut Vec<u8>, n: usize, adapter: &BtAddr) -> (step:
        ControllerStep)
        requires
            n <= old(buf).len(),
            old(self).total_from_controller + n <= usize::MAX,
        ensures
            final(self).total_from_controller == old(self).total_from_controller + n,
            final(self).last_controller_len == n,
            final(self).total_from_switch == old(self).total_from_switch,
            final(self).last_switch_len == old(self).last_switch_len,
            final(self).vibrating == old(self).vibrating,
            n == 0 ==> step == ControllerStep::Close && final(buf)@ == old(buf)@,
            n > 0 ==> final(buf)@ == spec_rewritten(old(buf)@, n as int, adapter.0@) && match step {
                ControllerStep::Close => false,
                ControllerStep::Forward(replaced) => (replaced is Some <==> spec_is_device_info(
                    old(buf)@,
                    n as int,
                )) && (replaced matches Some(a) ==> a.0@ == old(buf)@.subrange(20, 26)) && (
                replaced is None ==> final(buf)@ == old(buf)@),
            },
    {
        self.total_from_controller = self.total_from_controller + n;
        self.last_controller_len = n;
        if n == 0 {
            return ControllerStep::Close;
        }
        let replaced = rewrite_device_info(buf, n, adapter);
        ControllerStep::Forward(replaced)
    }
}

/// Whether the toys vibrate after a run of console reports with the given
/// rumble bytes, starting from `vibrating`.
pub open spec fn spec_vibrating_after(vibrating: bool, rumbles: Seq<u8>) -> bool {
    if rumbles.len() == 0 {
        vibrating
    } else {
        rumbles.last() > 0
    }
}

/// The commands sent to the toys over a run of console reports with the given
/// rumble bytes, starting from `vibrating`.
pub open spec fn spec_commands(vibrating: bool, rumbles: Seq<u8>) -> Seq<Vibration>
    decreases rumbles.len(),
{
    if rumbles.len() == 0 {
        seq![]
    } else {
        let before = rumbles.drop_last();
        let earlier = spec_commands(vibrating, before);
        match spec_rumble_command(spec_vibrating_after(vibrating, before), rumbles.last()) {
            Some(c) => earlier.push(c),
            None => earlier,
        }
    }
}

/// One console report moves the relay from the state after the reports
/// before it to the state after it, sending the commands of `spec_commands`.
pub proof fn lemma_switch_step_extends_run(vibrating: bool, rumbles: Seq<u8>, rumble: u8)
    ensures
        spec_vibrating_after(vibrating, rumbles.push(rumble)) == (rumble > 0),
        spec_commands(vibrating, rumbles.push(rumble)) == match spec_rumble_command(
            spec_vibrating_after(vibrating, rumbles),
            rumble,
        ) {
            Some(c) => spec_commands(vibrating, rumbles).push(c),
            None => spec_commands(vibrating, rumbles),
        },
{
    assert(rumbles.push(rumble).drop_last() =~= rumbles);
}

/// The toys are told to start only when still and to stop only when
/// vibrating: over any run of console reports the commands alternate, the
/// first one changes the starting state, and after the run the toys vibrate
/// exactly when the last report's rumble byte was live.
pub proof fn lemma_commands_alternate(vibrating: bool, rumbles: Seq<u8>)
    ensures
        ({
            let cmds = spec_commands(vibrating, rumbles);
            &&& forall|i: int| 0 <= i < cmds.len() - 1 ==> #[trigger] cmds[i] != cmds[i + 1]
            &&& cmds.len() > 0 ==> cmds[0] == (if vibrating {
                Vibration::Stop
            } else {
                Vibration::Full
            })
            &&& cmds.len() > 0 ==> (cmds.last() == Vibration::Full <==> spec_vibrating_after(
                vibrating,
                rumbles,
            ))
            &&& cmds.len() == 0 ==> spec_vibrating_after(vibrating, rumbles) == vibrating
        }),
    decreases rumbles.len(),
{
    if rumbles.len() > 0 {
        let before = rumbles.drop_last();
        lemma_commands_alternate(vibrating, before);
    }
}

/// Only a device-info reply is rewritten, and only at the address: for a
/// read of `n` bytes that is not a 50-byte `0x21` reply to subcommand `0x02`
/// the buffer is forwarded as read; for such a reply bytes 20 to 25 become
/// the given address and every other byte stays.
pub proof fn lemma_rewrite_only_device_info(buf: Seq<u8>, n: int, addr: Seq<u8>)
    requires
        0 <= n <= buf.len(),
        addr.len() == 6,
    ensures
        spec_rewritten(buf, n, addr).len() == buf.len(),
        !(n == 50 && buf[1] == 0x21 && buf[15] == 0x02) ==> spec_rewritten(buf, n, addr) == buf,
        (n == 50 && buf[1] == 0x21 && buf[15] == 0x02) ==> forall|k: int|
            0 <= k < buf.len() ==> #[trigger] spec_rewritten(buf, n, addr)[k] == if 20 <= k < 26 {
                addr[k - 20]
            } else {
                buf[k]
            },
{
}

} // verus!
