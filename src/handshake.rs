//! The configuration commands that start the sensor's stream, and the order
//! in which they go out.

use vstd::prelude::*;

verus! {

/// Pause after each command, in milliseconds, so the sensor can apply it.
pub const COMMAND_PAUSE_MS: u64 = 100;

/// One configuration command: a value written to a register of the sensor.
#[derive(Debug, Clone, Copy, PartialEq, Eq, Structural)]
pub struct ConfigCommand {
    pub register: u8,
    pub value: u8,
}

/// The four bytes of a command on the wire: the two-byte command header,
/// then register and value.
pub open spec fn command_bytes(c: ConfigCommand) -> Seq<u8> {
    seq![0xFFu8, 0xAAu8, c.register, c.value]
}

impl ConfigCommand {
    /// The command as it is written to the line.
    pub fn bytes(&self) -> (r: [u8; 4])
        ensures
            r@ == command_bytes(*self),
    {
        let r = [0xFFu8, 0xAAu8, self.register, self.value];
        assert(r@ =~= command_bytes(*self));
        r
    }
}

/// One step that the caller performs on the serial line.
#[derive(Debug, Clone, Copy, PartialEq, Eq, Structural)]
pub enum LinkOp {
    /// Write the command's four bytes.
    Write(ConfigCommand),
    /// Flush the line.
    Flush,
    /// Wait this many milliseconds.
    Pause(u64),
}

/// The command that writes `value` to `register`.
pub open spec fn cmd(register: u8, value: u8) -> ConfigCommand {
    ConfigCommand { register, value }
}

/// The handshake: select the normal protocol, start streaming, switch every
/// output off, switch acceleration, angular rate and angle on one by one,
/// then set the output rate.
pub open spec fn handshake_spec() -> Seq<ConfigCommand> {
    seq![
        cmd(0x03, 0x00),
        cmd(0x27, 0x00),
        cmd(0x02, 0x00),
        cmd(0x02, 0x01),
        cmd(0x02, 0x04),
        cmd(0x02, 0x08),
        cmd(0x03, 0x08),
    ]
}

/// Each command of `cmds` in turn, written, flushed and followed by the pause.
pub open spec fn plan_of(cmds: Seq<ConfigCommand>) -> Seq<LinkOp>
    decreases cmds.len(),
{
    if cmds.len() == 0 {
        Seq::empty()
    } else {
        plan_of(cmds.drop_last()) + seq![
            LinkOp::Write(cmds.last()),
            LinkOp::Flush,
            LinkOp::Pause(COMMAND_PAUSE_MS),
        ]
    }
}

/// In a plan, the command at position `i` is written at step `3 * i`, and a
/// flush and the pause follow it at once; nothing else stands in the plan.
pub proof fn lemma_plan_shape(cmds: Seq<ConfigCommand>)
    ensures
        plan_of(cmds).len() == 3 * cmds.len(),
        forall|i: int|
            0 <= i < cmds.len() ==> {
                &&& #[trigger] plan_of(cmds)[3 * i] == LinkOp::Write(cmds[i])
                &&& plan_of(cmds)[3 * i + 1] == LinkOp::Flush
                &&& plan_of(cmds)[3 * i + 2] == LinkOp::Pause(COMMAND_PAUSE_MS)
            },
    decreases cmds.len(),
{
    if cmds.len() > 0 {
        let d = cmds.drop_last();
        lemma_plan_shape(d);
        assert forall|i: int| 0 <= i < cmds.len() implies {
            &&& #[trigger] plan_of(cmds)[3 * i] == LinkOp::Write(cmds[i])
            &&& plan_of(cmds)[3 * i + 1] == LinkOp::Flush
            &&& plan_of(cmds)[3 * i + 2] == LinkOp::Pause(COMMAND_PAUSE_MS)
        } by {
            if i < d.len() {
                assert(plan_of(d)[3 * i] == LinkOp::Write(d[i]));
            }
        }
    }
}

/// The handshake on the line: the seven commands' bytes, in order, each
/// written once and followed by a flush and the pause.
pub proof fn lemma_handshake_on_the_line()
    ensures
        plan_of(handshake_spec()).len() == 21,
        forall|i: int|
            0 <= i < 7 ==> {
                &&& #[trigger] plan_of(handshake_spec())[3 * i] == LinkOp::Write(handshake_spec()[i])
                &&& plan_of(handshake_spec())[3 * i + 1] == LinkOp::Flush
                &&& plan_of(handshake_spec())[3 * i + 2] == LinkOp::Pause(COMMAND_PAUSE_MS)
            },
        command_bytes(handshake_spec()[0]) == seq![0xFFu8, 0xAA, 0x03, 0x00],
        command_bytes(handshake_spec()[1]) == seq![0xFFu8, 0xAA, 0x27, 0x00],
        command_bytes(handshake_spec()[2]) == seq![0xFFu8, 0xAA, 0x02, 0x00],
        command_bytes(handshake_spec()[3]) == seq![0xFFu8, 0xAA, 0x02, 0x01],
        command_bytes(handshake_spec()[4]) == seq![0xFFu8, 0xAA, 0x02, 0x04],
        command_bytes(handshake_spec()[5]) == seq![0xFFu8, 0xAA, 0x02, 0x08],
        command_bytes(handshake_spec()[6]) == seq![0xFFu8, 0xAA, 0x03, 0x08],
{
    lemma_plan_shape(handshake_spec());
}

/// The handshake commands, in the order in which they are sent.
pub fn handshake_commands() -> (r: Vec<ConfigCommand>)
    ensures
        r@ == handshake_spec(),
{
    let r = vec![
        ConfigCommand { register: 0x03, value: 0x00 },
        ConfigCommand { register: 0x27, value: 0x00 },
        ConfigCommand { register: 0x02, value: 0x00 },
        ConfigCommand { register: 0x02, value: 0x01 },
        ConfigCommand { register: 0x02, value: 0x04 },
        ConfigCommand { register: 0x02, value: 0x08 },
        ConfigCommand { register: 0x03, value: 0x08 },
    ];
    assert(r@ =~= handshake_spec());
    r
}

/// Everything the caller does on the line for the handshake, in order. The
/// caller stops at the first write or flush that fails and reports its error.
pub fn handshake_plan() -> (r: Vec<LinkOp>)
    ensures
        r@ == plan_of(handshake_spec()),
{
    let cmds = handshake_commands();
    let mut plan: Vec<LinkOp> = Vec::new();
    let mut i: usize = 0;
    assert(cmds@.take(0) =~= Seq::<ConfigCommand>::empty());
    while i < cmds.len()
        invariant
            i <= cmds@.len(),
            cmds@ == handshake_spec(),
            plan@ == plan_of(cmds@.take(i as int)),
        decreases cmds@.len() - i,
    {
        let c = cmds[i];
        assert(cmds@.take(i + 1).drop_last() =~= cmds@.take(i as int));
        plan.push(LinkOp::Write(c));
        plan.push(LinkOp::Flush);
        plan.push(LinkOp::Pause(COMMAND_PAUSE_MS));
        assert(plan@ =~= plan_of(cmds@.take(i + 1)));
        i = i + 1;
    }
    assert(cmds@.take(i as int) =~= cmds@);
    plan
}

} // verus!
