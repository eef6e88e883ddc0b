//! Direct Memory Access controller

use vstd::prelude::*;

use crate::shared::SharedState;
use crate::memory::interrupts::{Interrupt, InterruptState};

verus! {

/// DMA transfer direction
#[derive(Clone, Copy, PartialEq, Eq, Debug, Structural)]
pub enum Direction {
    ToRam,
    FromRam,
}

/// DMA transfer step
#[derive(Clone, Copy, PartialEq, Eq, Debug, Structural)]
pub enum Step {
    Increment,
    Decrement,
}

/// DMA transfer synchronization mode
#[derive(Clone, Copy, PartialEq, Eq, Debug, Structural)]
pub enum Sync {
    /// Transfer starts when the CPU writes to the Trigger bit and
    /// transfers everything at once
    Manual,
    /// Sync blocks to DMA requests
    Request,
    /// Used to transfer GPU command lists
    LinkedList,
}

/// The 7 DMA ports
#[derive(Clone, Copy, PartialEq, Eq, Debug, Structural)]
pub enum Port {
    /// Macroblock decoder input
    MDecIn,
    /// Macroblock decoder output
    MDecOut,
    /// Graphics Processing Unit
    Gpu,
    /// CD-ROM drive
    CdRom,
    /// Sound Processing Unit
    Spu,
    /// Extension port
    Pio,
    /// Used to clear the ordering table
    Otc,
}

/// Number of DMA channels
pub const NUM_CHANNELS: usize = 7;

/// Channel number of a port
pub open spec fn port_index(p: Port) -> u32 {
    match p {
        Port::MDecIn => 0,
        Port::MDecOut => 1,
        Port::Gpu => 2,
        Port::CdRom => 3,
        Port::Spu => 4,
        Port::Pio => 5,
        Port::Otc => 6,
    }
}

impl Port {
    /// Port with channel number `index`
    pub fn from_index(index: u32) -> (p: Port)
        requires
            index < 7,
        ensures
            port_index(p) == index,
    {
        match index {
            0 => Port::MDecIn,
            1 => Port::MDecOut,
            2 => Port::Gpu,
            3 => Port::CdRom,
            4 => Port::Spu,
            5 => Port::Pio,
            _ => Port::Otc,
        }
    }

    /// Channel number of the port
    pub fn index(self) -> (i: u32)
        ensures
            i == port_index(self),
            i < 7,
    {
        match self {
            Port::MDecIn => 0,
            Port::MDecOut => 1,
            Port::Gpu => 2,
            Port::CdRom => 3,
            Port::Spu => 4,
            Port::Pio => 5,
            Port::Otc => 6,
        }
    }
}

/// Bits of the channel control register that are stored
pub const CHANNEL_CONTROL_MASK: u32 = 0x7177_0703;

/// Direction selected by a channel control register value
pub open spec fn control_direction(ctrl: u32) -> Direction {
    if ctrl & 1 != 0 {
        Direction::FromRam
    } else {
        Direction::ToRam
    }
}

/// Step selected by a channel control register value
pub open spec fn control_step(ctrl: u32) -> Step {
    if (ctrl >> 1u32) & 1 != 0 {
        Step::Decrement
    } else {
        Step::Increment
    }
}

/// Synchronization mode selected by a channel control register value
pub open spec fn control_sync(ctrl: u32) -> Sync {
    let s = (ctrl >> 9u32) & 3;
    if s == 0 {
        Sync::Manual
    } else if s == 1 {
        Sync::Request
    } else {
        Sync::LinkedList
    }
}

/// A channel is active when it is enabled and, in manual mode, its
/// trigger bit is set
pub open spec fn control_active(ctrl: u32) -> bool {
    let enable = (ctrl >> 24u32) & 1 != 0;
    let trigger = (ctrl >> 28u32) & 1 != 0;
    enable && (control_sync(ctrl) != Sync::Manual || trigger)
}

/// Per-channel data
#[derive(Clone, Copy)]
pub struct Channel {
    /// If true the channel is enabled and the copy can take place
    /// depending on the condition mandated by the `sync` mode.
    enable: bool,
    /// Copy direction: from RAM or from device
    direction: Direction,
    /// DMA can either increment or decrement the RAM pointer after
    /// each copy
    step: Step,
    /// Synchronization mode
    sync: Sync,
    /// Used to start the DMA transfer when `sync` is `Manual`
    trigger: bool,
    /// If true the DMA "chops" the transfer and lets the CPU run in
    /// the gaps.
    chop: bool,
    /// Chopping DMA window size (log2 number of words)
    chop_dma_sz: u8,
    /// Chopping CPU window size (log2 number of cycles)
    chop_cpu_sz: u8,
    /// DMA start address
    base: u32,
    /// Size of a block in words
    block_size: u16,
    /// Block count, only used when `sync` is `Request`
    block_count: u16,
    /// Unknown 2 RW bits in configuration register
    dummy: u8,
}

pub open spec fn bit(b: bool) -> u32 {
    if b {
        1
    } else {
        0
    }
}

pub open spec fn direction_bit(d: Direction) -> u32 {
    match d {
        Direction::ToRam => 0,
        Direction::FromRam => 1,
    }
}

pub open spec fn step_bit(s: Step) -> u32 {
    match s {
        Step::Increment => 0,
        Step::Decrement => 1,
    }
}

pub open spec fn sync_bits(s: Sync) -> u32 {
    match s {
        Sync::Manual => 0,
        Sync::Request => 1,
        Sync::LinkedList => 2,
    }
}

/// Layout of the channel control register
pub open spec fn pack_control(
    d: u32,
    s: u32,
    c: u32,
    y: u32,
    dma: u32,
    cpu: u32,
    e: u32,
    t: u32,
    dm: u32,
) -> u32 {
    d | (s << 1u32) | (c << 8u32) | (y << 9u32) | (dma << 16u32) | (cpu << 20u32) | (e << 24u32)
        | (t << 28u32) | (dm << 29u32)
}

proof fn lemma_pack_fields(d: u32, s: u32, c: u32, y: u32, dma: u32, cpu: u32, e: u32, t: u32, dm: u32)
    by (bit_vector)
    requires
        d <= 1,
        s <= 1,
        c <= 1,
        y <= 2,
        dma < 8,
        cpu < 8,
        e <= 1,
        t <= 1,
        dm < 4,
    ensures
        pack_control(d, s, c, y, dma, cpu, e, t, dm) & 1 == d,
        (pack_control(d, s, c, y, dma, cpu, e, t, dm) >> 1u32) & 1 == s,
        (pack_control(d, s, c, y, dma, cpu, e, t, dm) >> 9u32) & 3 == y,
        (pack_control(d, s, c, y, dma, cpu, e, t, dm) >> 24u32) & 1 == e,
        (pack_control(d, s, c, y, dma, cpu, e, t, dm) >> 28u32) & 1 == t,
        pack_control(d, s, c, y, dma, cpu, e, t, dm) & !0x1100_0000u32 == pack_control(
            d,
            s,
            c,
            y,
            dma,
            cpu,
            0,
            0,
            dm,
        ),
{
}

proof fn lemma_pack_value(val: u32)
    by (bit_vector)
    ensures
        pack_control(
            val & 1,
            (val >> 1u32) & 1,
            (val >> 8u32) & 1,
            (val >> 9u32) & 3,
            (val >> 16u32) & 7,
            (val >> 20u32) & 7,
            (val >> 24u32) & 1,
            (val >> 28u32) & 1,
            (val >> 29u32) & 3,
        ) == val & CHANNEL_CONTROL_MASK,
        val & 1 <= 1,
        (val >> 1u32) & 1 <= 1,
        (val >> 8u32) & 1 <= 1,
        (val >> 9u32) & 3 <= 3,
        (val >> 16u32) & 7 < 8,
        (val >> 20u32) & 7 < 8,
        (val >> 24u32) & 1 <= 1,
        (val >> 28u32) & 1 <= 1,
        (val >> 29u32) & 3 < 4,
{
}

/// Bit level facts about the DMA registers
proof fn lemma_dma_bits(x: u32, val: u32, n: u16, sz: u16, f: u8, e: u8, ack: u8, p: u32)
    by (bit_vector)
    ensures
        pack_control(0, 0, 0, 0, 0, 0, 0, 0, 0) == 0,
        ((0u32 << 16u32) | 0u32) == 0,
        x << 0u32 == x,
        0u32 | x == x,
        (((val >> 16u32) as u16 as u32) << 16u32) | (val as u16 as u32) == val,
        (((n as u32) << 16u32) | (sz as u32)) & 0xffff == sz as u32,
        (((n as u32) << 16u32) | (sz as u32)) >> 16u32 == n as u32,
        f & !ack <= f,
        ((val >> 16u32) & 0x7f) < 0x80,
        (val & 0x3f) < 0x40,
        f < 0x80 && e < 0x80 && p < 7 ==> f | (e & (1u8 << p)) < 0x80,
{
}

impl Channel {
    /// Value read back from the control register
    pub closed spec fn ctrl(&self) -> u32 {
        pack_control(
            direction_bit(self.direction),
            step_bit(self.step),
            bit(self.chop),
            sync_bits(self.sync),
            self.chop_dma_sz as u32,
            self.chop_cpu_sz as u32,
            bit(self.enable),
            bit(self.trigger),
            self.dummy as u32,
        )
    }

    proof fn lemma_ctrl_fields(&self)
        requires
            self.chop_dma_sz < 8,
            self.chop_cpu_sz < 8,
            self.dummy < 4,
        ensures
            self.wf(),
            self.ctrl() & !0x1100_0000u32 == (Channel {
                enable: false,
                trigger: false,
                ..*self
            }).ctrl(),
    {
        lemma_pack_fields(
            direction_bit(self.direction),
            step_bit(self.step),
            bit(self.chop),
            sync_bits(self.sync),
            self.chop_dma_sz as u32,
            self.chop_cpu_sz as u32,
            bit(self.enable),
            bit(self.trigger),
            self.dummy as u32,
        );
    }

    /// The channel once its transfer is complete: enable and trigger
    /// bits cleared
    pub closed spec fn completed(&self) -> Channel {
        Channel { enable: false, trigger: false, ..*self }
    }

    /// Completing a transfer only clears the enable and trigger bits
    pub proof fn lemma_completed(&self)
        requires
            self.wf(),
        ensures
            self.completed().wf(),
            self.completed().ctrl() == self.ctrl() & !0x1100_0000u32,
            self.completed().base_reg() == self.base_reg(),
            self.completed().block_ctrl() == self.block_ctrl(),
    {
        self.lemma_ctrl_fields();
        self.completed().lemma_ctrl_fields();
    }

    /// Base address register
    pub closed spec fn base_reg(&self) -> u32 {
        self.base
    }

    /// Block control register
    pub closed spec fn block_ctrl(&self) -> u32 {
        ((self.block_count as u32) << 16u32) | (self.block_size as u32)
    }

    /// Field widths are respected
    pub closed spec fn wf(&self) -> bool {
        &&& self.chop_dma_sz < 8
        &&& self.chop_cpu_sz < 8
        &&& self.dummy < 4
        &&& control_direction(self.ctrl()) == self.direction
        &&& control_step(self.ctrl()) == self.step
        &&& control_sync(self.ctrl()) == self.sync
        &&& control_active(self.ctrl()) == (self.enable && (self.sync != Sync::Manual
            || self.trigger))
    }

    pub fn new() -> (c: Channel)
        ensures
            c.wf(),
            c.ctrl() == 0,
            c.base_reg() == 0,
            c.block_ctrl() == 0,
    {
        let c = Channel {
            enable: false,
            direction: Direction::ToRam,
            step: Step::Increment,
            sync: Sync::Manual,
            trigger: false,
            chop: false,
            chop_dma_sz: 0,
            chop_cpu_sz: 0,
            base: 0,
            block_size: 0,
            block_count: 0,
            dummy: 0,
        };
        proof {
            lemma_dma_bits(0, 0, 0, 0, 0, 0, 0, 0);
            c.lemma_ctrl_fields();
        }
        c
    }

    /// Retrieve the channel's base address
    pub fn base(&self) -> (r: u32)
        ensures
            r == self.base_reg(),
    {
        self.base
    }

    /// Set channel base address. Only bits [0:23] are significant so
    /// only 16MB are addressable by the DMA
    pub fn set_base(&mut self, val: u32)
        requires
            old(self).wf(),
        ensures
            final(self).wf(),
            final(self).base_reg() == val & 0xffffff,
            final(self).ctrl() == old(self).ctrl(),
            final(self).block_ctrl() == old(self).block_ctrl(),
    {
        self.base = val & 0xffffff;
    }

    /// Retrieve the value of the control register
    pub fn control(&self) -> (r: u32)
        requires
            self.wf(),
        ensures
            r == self.ctrl(),
    {
        let mut r: u32 = 0;
        r = r | (match self.direction {
            Direction::ToRam => 0,
            Direction::FromRam => 1,
        } << 0);
        r = r | (match self.step {
            Step::Increment => 0u32,
            Step::Decrement => 1u32,
        } << 1);
        r = r | ((if self.chop { 1u32 } else { 0u32 }) << 8);
        r = r | (match self.sync {
            Sync::Manual => 0u32,
            Sync::Request => 1u32,
            Sync::LinkedList => 2u32,
        } << 9);
        r = r | ((self.chop_dma_sz as u32) << 16);
        r = r | ((self.chop_cpu_sz as u32) << 20);
        r = r | ((if self.enable { 1u32 } else { 0u32 }) << 24);
        r = r | ((if self.trigger { 1u32 } else { 0u32 }) << 28);
        r = r | ((self.dummy as u32) << 29);
        proof {
            let d = direction_bit(self.direction);
            lemma_dma_bits(d, 0, 0, 0, 0, 0, 0, 0);
        }
        r
    }

    /// Set the value of the control register. Sync mode 3 does not
    /// exist.
    pub fn set_control(&mut self, val: u32)
        requires
            (val >> 9u32) & 3 != 3,
        ensures
            final(self).wf(),
            final(self).ctrl() == val & CHANNEL_CONTROL_MASK,
            final(self).base_reg() == old(self).base_reg(),
            final(self).block_ctrl() == old(self).block_ctrl(),
    {
        self.direction = if val & 1 != 0 {
            Direction::FromRam
        } else {
            Direction::ToRam
        };
        self.step = if (val >> 1) & 1 != 0 {
            Step::Decrement
        } else {
            Step::Increment
        };
        self.chop = (val >> 8) & 1 != 0;
        let s = (val >> 9) & 3;
        self.sync = if s == 0 {
            Sync::Manual
        } else if s == 1 {
            Sync::Request
        } else {
            Sync::LinkedList
        };
        self.chop_dma_sz = ((val >> 16) & 7) as u8;
        self.chop_cpu_sz = ((val >> 20) & 7) as u8;
        self.enable = (val >> 24) & 1 != 0;
        self.trigger = (val >> 28) & 1 != 0;
        self.dummy = ((val >> 29) & 3) as u8;
        proof {
            lemma_pack_value(val);
            assert(self.chop_dma_sz as u32 == (val >> 16u32) & 7);
            assert(self.chop_cpu_sz as u32 == (val >> 20u32) & 7);
            assert(self.dummy as u32 == (val >> 29u32) & 3);
            self.lemma_ctrl_fields();
            assert(direction_bit(self.direction) == val & 1);
            assert(step_bit(self.step) == (val >> 1u32) & 1);
            assert(bit(self.chop) == (val >> 8u32) & 1);
            assert(sync_bits(self.sync) == (val >> 9u32) & 3);
            assert(bit(self.enable) == (val >> 24u32) & 1);
            assert(bit(self.trigger) == (val >> 28u32) & 1);
        }
    }

    /// Retrieve value of the Block Control register
    pub fn block_control(&self) -> (r: u32)
        ensures
            r == self.block_ctrl(),
    {
        let bs = self.block_size as u32;
        let bc = self.block_count as u32;
        (bc << 16) | bs
    }

    /// Set value of the Block Control register
    pub fn set_block_control(&mut self, val: u32)
        requires
            old(self).wf(),
        ensures
            final(self).wf(),
            final(self).block_ctrl() == val,
            final(self).ctrl() == old(self).ctrl(),
            final(self).base_reg() == old(self).base_reg(),
    {
        self.block_size = val as u16;
        self.block_count = (val >> 16) as u16;
        proof {
            lemma_dma_bits(0, val, 0, 0, 0, 0, 0, 0);
        }
    }

    /// Return true if the channel has been started
    pub fn active(&self) -> (r: bool)
        requires
            self.wf(),
        ensures
            r == control_active(self.ctrl()),
    {
        // In manual sync mode the CPU must set the "trigger" bit to
        // start the transfer.
        let trigger = match self.sync {
            Sync::Manual => self.trigger,
            _ => true,
        };
        self.enable && trigger
    }

    /// Set the channel status to "completed" state
    pub fn done(&mut self)
        requires
            old(self).wf(),
        ensures
            final(self).wf(),
            *final(self) == old(self).completed(),
            final(self).ctrl() == old(self).ctrl() & !0x1100_0000u32,
            final(self).base_reg() == old(self).base_reg(),
            final(self).block_ctrl() == old(self).block_ctrl(),
    {
        proof {
            old(self).lemma_ctrl_fields();
        }
        self.enable = false;
        self.trigger = false;
        proof {
            self.lemma_ctrl_fields();
        }
    }

    pub fn direction(&self) -> (d: Direction)
        requires
            self.wf(),
        ensures
            d == control_direction(self.ctrl()),
    {
        self.direction
    }

    pub fn step(&self) -> (s: Step)
        requires
            self.wf(),
        ensures
            s == control_step(self.ctrl()),
    {
        self.step
    }

    pub fn sync(&self) -> (s: Sync)
        requires
            self.wf(),
        ensures
            s == control_sync(self.ctrl()),
    {
        self.sync
    }

    /// Return the DMA transfer size in bytes or None for linked list
    /// mode. Block sizes count 32bit words; the size in bytes may
    /// exceed 32 bits in request mode.
    pub fn transfer_size(&self) -> (r: Option<u64>)
        requires
            self.wf(),
        ensures
            r == match control_sync(self.ctrl()) {
                // For manual mode only the block size is used
                Sync::Manual => Some((4 * (self.block_ctrl() & 0xffff)) as u64),
                // In DMA request mode we must transfer `bc` blocks
                Sync::Request => Some(
                    (4 * ((self.block_ctrl() >> 16u32) * (self.block_ctrl() & 0xffff))) as u64,
                ),
                // In linked list mode the size is not known ahead of
                // time: we stop when we encounter the "end of list"
                // marker (0xffffff)
                Sync::LinkedList => None::<u64>,
            },
    {
        let bs = self.block_size as u64;
        let bc = self.block_count as u64;
        proof {
            let s = self.block_size;
            let n = self.block_count;
            lemma_dma_bits(0, 0, n, s, 0, 0, 0, 0);
            assert(n as u32 * s as u32 <= 0xffff * 0xffff) by (nonlinear_arith);
            assert(4 * (n as u64 * s as u64) <= 4 * 0xffff * 0xffff) by (nonlinear_arith);
        }
        match self.sync {
            Sync::Manual => Some(4 * bs),
            Sync::Request => Some(4 * (bc * bs)),
            Sync::LinkedList => None,
        }
    }
}

/// Direct Memory Access
pub struct Dma {
    /// DMA control register
    control: u32,
    /// master IRQ enable
    irq_en: bool,
    /// IRQ enable for individual channels
    channel_irq_en: u8,
    /// IRQ flags for individual channels
    channel_irq_flags: u8,
    /// When set the interrupt is active unconditionally (even if
    /// `irq_en` is false)
    force_irq: bool,
    /// Bits [0:5] of the interrupt registers are RW but I don't know
    /// what they're supposed to do so I just store them and send them
    /// back untouched on reads
    irq_dummy: u8,
    /// The 7 channel instances
    channels: Vec<Channel>,
}

/// State of the DMA interrupt line for the given register fields
pub open spec fn dma_irq(force_irq: bool, irq_en: bool, channel_irq_en: u8, channel_irq_flags: u8) -> bool {
    force_irq || (irq_en && (channel_irq_flags & channel_irq_en) != 0)
}

impl Dma {
    /// Control register
    pub closed spec fn control_reg(&self) -> u32 {
        self.control
    }

    /// Master interrupt enable
    pub closed spec fn irq_enable(&self) -> bool {
        self.irq_en
    }

    /// Per channel interrupt enable bits
    pub closed spec fn channel_irq_enable(&self) -> u8 {
        self.channel_irq_en
    }

    /// Per channel interrupt flags
    pub closed spec fn channel_irq_flag_bits(&self) -> u8 {
        self.channel_irq_flags
    }

    /// Forced interrupt bit
    pub closed spec fn forced_irq(&self) -> bool {
        self.force_irq
    }

    /// Unknown read/write interrupt register bits [5:0]
    pub closed spec fn dummy_irq_bits(&self) -> u8 {
        self.irq_dummy
    }

    /// The channels, by port number
    pub closed spec fn channels_view(&self) -> Seq<Channel> {
        self.channels@
    }

    /// State of the DMA interrupt line
    pub open spec fn irq_line(&self) -> bool {
        dma_irq(
            self.forced_irq(),
            self.irq_enable(),
            self.channel_irq_enable(),
            self.channel_irq_flag_bits(),
        )
    }

    /// Value read back from the interrupt register
    pub open spec fn interrupt_reg(&self) -> u32 {
        (self.dummy_irq_bits() as u32) | (bit(self.forced_irq()) << 15u32) | ((
        self.channel_irq_enable() as u32) << 16u32) | (bit(self.irq_enable()) << 23u32) | ((
        self.channel_irq_flag_bits() as u32) << 24u32) | (bit(self.irq_line()) << 31u32)
    }

    /// Seven well-formed channels, register fields within their width
    pub open spec fn wf(&self) -> bool {
        &&& self.channels_view().len() == NUM_CHANNELS
        &&& forall|i: int| 0 <= i < NUM_CHANNELS ==> #[trigger] self.channels_view()[i].wf()
        &&& self.channel_irq_enable() < 0x80
        &&& self.channel_irq_flag_bits() < 0x80
        &&& self.dummy_irq_bits() < 0x40
    }

    pub fn new() -> (d: Dma)
        ensures
            d.wf(),
            // Reset value taken from the Nocash PSX spec
            d.control_reg() == 0x07654321,
            !d.irq_enable(),
            d.channel_irq_enable() == 0,
            d.channel_irq_flag_bits() == 0,
            !d.forced_irq(),
            d.dummy_irq_bits() == 0,
            forall|i: int|
                #![auto]
                0 <= i < NUM_CHANNELS ==> d.channels_view()[i].ctrl() == 0
                    && d.channels_view()[i].base_reg() == 0 && d.channels_view()[i].block_ctrl()
                    == 0,
    {
        let mut channels: Vec<Channel> = Vec::new();
        let mut i: usize = 0;
        while i < NUM_CHANNELS
            invariant
                i <= NUM_CHANNELS,
                channels@.len() == i,
                forall|j: int|
                    #![auto]
                    0 <= j < i ==> channels@[j].wf() && channels@[j].ctrl() == 0
                        && channels@[j].base_reg() == 0 && channels@[j].block_ctrl() == 0,
            decreases NUM_CHANNELS - i,
        {
            channels.push(Channel::new());
            i += 1;
        }
        Dma {
            control: 0x07654321,
            irq_en: false,
            channel_irq_en: 0,
            channel_irq_flags: 0,
            force_irq: false,
            irq_dummy: 0,
            channels,
        }
    }

    /// Return the status of the DMA interrupt
    fn irq(&self) -> (r: bool)
        ensures
            r == self.irq_line(),
    {
        let channel_irq = self.channel_irq_flags & self.channel_irq_en;
        self.force_irq || (self.irq_en && channel_irq != 0)
    }

    /// Retrieve the value of the control register
    pub fn control(&self) -> (r: u32)
        ensures
            r == self.control_reg(),
    {
        self.control
    }

    /// Set the value of the control register
    pub fn set_control(&mut self, val: u32)
        requires
            old(self).wf(),
        ensures
            final(self).wf(),
            final(self).control_reg() == val,
            final(self).interrupt_reg() == old(self).interrupt_reg(),
            final(self).channels_view() == old(self).channels_view(),
    {
        self.control = val
    }

    /// Retrieve the value of the interrupt register
    pub fn interrupt(&self) -> (r: u32)
        ensures
            r == self.interrupt_reg(),
    {
        let mut r: u32 = 0;
        r = r | self.irq_dummy as u32;
        r = r | ((if self.force_irq { 1u32 } else { 0u32 }) << 15);
        r = r | ((self.channel_irq_en as u32) << 16);
        r = r | ((if self.irq_en { 1u32 } else { 0u32 }) << 23);
        r = r | ((self.channel_irq_flags as u32) << 24);
        r = r | ((if self.irq() { 1u32 } else { 0u32 }) << 31);
        proof {
            let d = self.irq_dummy as u32;
            lemma_dma_bits(d, 0, 0, 0, 0, 0, 0, 0);
        }
        r
    }

    /// Set the value of the interrupt register. Writing 1 to one of
    /// the channel flags acknowledges it.
    pub fn set_interrupt(&mut self, shared: &mut SharedState, val: u32)
        requires
            old(self).wf(),
        ensures
            final(self).wf(),
            final(self).dummy_irq_bits() == (val & 0x3f) as u8,
            final(self).forced_irq() == ((val >> 15u32) & 1 != 0),
            final(self).channel_irq_enable() == ((val >> 16u32) & 0x7f) as u8,
            final(self).irq_enable() == ((val >> 23u32) & 1 != 0),
            final(self).channel_irq_flag_bits() == old(self).channel_irq_flag_bits() & !(((val
                >> 24u32) & 0x3f) as u8),
            final(self).control_reg() == old(self).control_reg(),
            final(self).channels_view() == old(self).channels_view(),
            final(shared).time() == old(shared).time(),
            final(shared).counter_values() == old(shared).counter_values(),
            // Rising edge of the interrupt line
            final(shared).irq() == if !old(self).irq_line() && final(self).irq_line() {
                old(shared).irq().raised(Interrupt::Dma)
            } else {
                old(shared).irq()
            },
    {
        let prev_irq = self.irq();
        // Unknown what bits [5:0] do
        self.irq_dummy = (val & 0x3f) as u8;
        self.force_irq = (val >> 15) & 1 != 0;
        // XXX I don't think disabling the channel IRQ clears the
        // interrupt in channel_irq_flags but I should check that.
        self.channel_irq_en = ((val >> 16) & 0x7f) as u8;
        self.irq_en = (val >> 23) & 1 != 0;
        // Writing 1 to a flag resets it
        let ack = ((val >> 24) & 0x3f) as u8;
        self.channel_irq_flags = self.channel_irq_flags & !ack;
        proof {
            let f = old(self).channel_irq_flags;
            lemma_dma_bits(0, val, 0, 0, f, 0, ack, 0);
        }
        if !prev_irq && self.irq() {
            // Rising edge of the done interrupt
            shared.irq_state_mut().raise(Interrupt::Dma);
        }
    }

    /// Return a reference to a channel by port number.
    pub fn channel(&self, port: Port) -> (c: &Channel)
        requires
            self.wf(),
        ensures
            *c == self.channels_view()[port_index(port) as int],
    {
        &self.channels[port.index() as usize]
    }

    /// Return a mutable reference to a channel by port number.
    pub fn channel_mut(&mut self, port: Port) -> (c: &mut Channel)
        requires
            old(self).wf(),
        ensures
            *c == old(self).channels_view()[port_index(port) as int],
            final(self).channels_view() == old(self).channels_view().update(
                port_index(port) as int,
                *final(c),
            ),
            final(self).control_reg() == old(self).control_reg(),
            final(self).interrupt_reg() == old(self).interrupt_reg(),
            final(self).irq_enable() == old(self).irq_enable(),
            final(self).channel_irq_enable() == old(self).channel_irq_enable(),
            final(self).channel_irq_flag_bits() == old(self).channel_irq_flag_bits(),
            final(self).forced_irq() == old(self).forced_irq(),
            final(self).dummy_irq_bits() == old(self).dummy_irq_bits(),
    {
        &mut self.channels[port.index() as usize]
    }

    /// Mark the transfer on `port` as complete and raise the DMA
    /// interrupt if it is enabled for this channel
    pub fn done(&mut self, shared: &mut SharedState, port: Port)
        requires
            old(self).wf(),
        ensures
            final(self).wf(),
            final(self).channels_view() == old(self).channels_view().update(
                port_index(port) as int,
                old(self).channels_view()[port_index(port) as int].completed(),
            ),
            final(self).channel_irq_flag_bits() == old(self).channel_irq_flag_bits() | (
            old(self).channel_irq_enable() & (1u8 << port_index(port))),
            final(self).channel_irq_enable() == old(self).channel_irq_enable(),
            final(self).irq_enable() == old(self).irq_enable(),
            final(self).forced_irq() == old(self).forced_irq(),
            final(self).dummy_irq_bits() == old(self).dummy_irq_bits(),
            final(self).control_reg() == old(self).control_reg(),
            final(shared).time() == old(shared).time(),
            final(shared).counter_values() == old(shared).counter_values(),
            final(shared).irq() == if !old(self).irq_line() && final(self).irq_line() {
                old(shared).irq().raised(Interrupt::Dma)
            } else {
                old(shared).irq()
            },
    {
        let i = port.index() as usize;
        let mut c = self.channels[i];
        c.done();
        self.channels.set(i, c);
        let prev_irq = self.irq();
        // Set interrupt flag if the channel's interrupt is enabled
        let it_en = self.channel_irq_en & (1u8 << port.index());
        self.channel_irq_flags = self.channel_irq_flags | it_en;
        proof {
            let f = old(self).channel_irq_flags;
            let e = old(self).channel_irq_en;
            let p = port_index(port);
            lemma_dma_bits(0, 0, 0, 0, f, e, 0, p);
            assert forall|j: int| 0 <= j < NUM_CHANNELS implies #[trigger] self.channels_view()[j].wf() by {
                if j != i {
                    assert(self.channels_view()[j] == old(self).channels_view()[j]);
                }
            }
        }
        if !prev_irq && self.irq() {
            // Rising edge of the done interrupt
            shared.irq_state_mut().raise(Interrupt::Dma);
        }
    }
}

} // verus!
