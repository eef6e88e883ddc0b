//! Abstract model of the CD-ROM controller: its state, the sub-CPU
//! command sequence and the command handlers, as functions from state
//! to state.

use vstd::prelude::*;

use crate::cdrom::disc::{Disc, Region};
use crate::cdrom::disc::msf::{msf_index, msf_next, msf_valid};
use crate::cdrom::fifo::{
    FifoView, fifo_cleared, fifo_empty, fifo_front, fifo_full, fifo_len, fifo_popped, fifo_pushed,
    fifo_pushed_all, fifo_wf,
};
use crate::cdrom::simple_rand::xorshift;
use crate::memory::interrupts::{Interrupt, InterruptState};
use crate::timekeeper::{
    Peripheral, TkView, peripheral_index, tk_next_sync, tk_next_sync_if_sooner, tk_no_sync, tk_synced,
};

verus! {

/// CPU clock in Hz
pub const CPU_FREQ_HZ: u32 = 33_868_500;

/// CD controller timings, expressed in CPU clock cycles.
///
/// Most of those timings are rough approximations, there can be
/// massive variations in execution time on the real hardware,
/// probably because the controller runs its own asynchronous main
/// loop and has to handle all the events from the physical drive at
/// the same time it processes the host commands.
///
/// Delay between the moment a command starts being processed and the
/// parameter transfer sequence. This delay is *extremely* variable on
/// the real hardware (more so than other CD timings) so this is a low
/// bound.
pub const COMMAND_PENDING: u32 = 9_400;

/// Most command pending times are between COMMAND_PENDING and
/// (COMMAND_PENDING + COMMAND_PENDING_VARIATION).
pub const COMMAND_PENDING_VARIATION: u32 = 6_000;

/// Approximate duration of a single parameter transfer
pub const PARAM_PUSH: u32 = 1_800;

/// Delay between the end of the last parameter push and the RX FIFO
/// clear.
pub const EXECUTION: u32 = 2_000;

/// Delay between the RX FIFO clear and the first response byte being
/// pushed onto the RX FIFO.
pub const RX_FLUSH: u32 = 3_500;

/// Time taken by each additional response bytes
pub const RX_PUSH: u32 = 1_500;

/// Delay between the moment the last response byte gets pushed and
/// the moment the busy flag goes low.
pub const BUSY_DELAY: u32 = 3_300;

/// Delay between the moment the busy flag goes low and the moment the
/// IRQ triggers OR in the case of async events the delay between the
/// last response push and the IRQ
pub const IRQ_DELAY: u32 = 2_000;

/// Delay between GetId command execution and the asyncronous RX_CLEAR
pub const GET_ID_ASYNC: u32 = 15_000;

/// Delay between the asynchronous RX_CLEAR and first param push for
/// the asynchronous GetId response
pub const GET_ID_RX_PUSH: u32 = 3_100;

/// Very rough estimate of the time taken to read the table of
/// content.
pub const READ_TOC_ASYNC: u32 = 16_000_000;

/// Delay before the first push of the asynchronous ReadToc response
pub const READ_TOC_RX_PUSH: u32 = 1_700;

/// Delay before the first push of the asynchronous SeekL response
pub const SEEK_L_RX_PUSH: u32 = 1_700;

/// Delay before the first push of the asynchronous Read(S/N) response
pub const READ_RX_PUSH: u32 = 1_800;

/// Delay before the first push of the asynchronous Pause response
pub const PAUSE_RX_PUSH: u32 = 1_700;

/// Delay before the first push of the asynchronous Init response
pub const INIT_RX_PUSH: u32 = 1_700;

/// Size of the RX buffer: a whole sector
pub const RX_BUFFER_SIZE: usize = 2352;

/// CDROM disc state
#[derive(Clone, Copy, PartialEq, Eq, Structural)]
pub enum ReadState {
    Idle,
    /// We're expecting a sector
    Reading(u32),
}

/// Description of the sub-CPU processing sequence
#[derive(Clone, Copy, PartialEq, Eq, Structural, Debug)]
pub enum SubCpuSequence {
    /// Sub-CPU waits for commands and async events
    Idle,
    /// Command pending, wait for the controller to start the
    /// execution.
    CommandPending,
    /// Parameter transfer
    ParamPush,
    /// Command is executed
    Execution,
    /// Response FIFO is cleared
    RxFlush,
    /// Response transfer
    RxPush,
    /// Busy flag goes down at the end of this step
    BusyDelay,
    /// IRQ is triggered at the end of this step
    IrqDelay,
    /// Async response transfer
    AsyncRxPush,
}

/// Various IRQ codes used by the sub-CPU
#[derive(Clone, Copy, PartialEq, Eq, Structural, Debug)]
pub enum IrqCode {
    /// A CD sector has been read and is ready to be processed.
    SectorReady,
    /// Command succesful, 2nd response.
    AsyncOk,
    /// Command succesful, used for the 1st response.
    CommandOk,
    /// Error: invalid command, disc command while do disc is present
    /// etc...
    Error,
}

/// Value of an IRQ code in the interrupt flag register
pub open spec fn irq_code_value(c: IrqCode) -> u8 {
    match c {
        IrqCode::SectorReady => 1,
        IrqCode::AsyncOk => 2,
        IrqCode::CommandOk => 3,
        IrqCode::Error => 5,
    }
}

/// Handlers of the asynchronous responses
#[derive(Clone, Copy, PartialEq, Eq, Structural, Debug)]
pub enum AsyncResponse {
    Pause,
    Init,
    SeekL,
    ReadToc,
    GetId,
}

/// CD-DA Audio playback mixer. The CDROM's audio stereo output can be
/// mixed arbitrarily before reaching the SPU stereo input.
#[derive(Clone, Copy, PartialEq, Eq, Structural)]
pub struct Mixer {
    pub cd_left_to_spu_left: u8,
    pub cd_left_to_spu_right: u8,
    pub cd_right_to_spu_left: u8,
    pub cd_right_to_spu_right: u8,
}

/// What the controller cannot go on after: each one is a situation
/// that the emulated controller does not handle
#[derive(Clone, Copy, PartialEq, Eq, Structural, Debug)]
pub enum CdError {
    /// Register access of another width than 8 bits
    UnhandledWidth,
    /// Read of an unimplemented register (offset, index)
    UnhandledLoad(u32, u8),
    /// Write to an unimplemented register (offset, index, value)
    UnhandledStore(u32, u8, u8),
    /// Read of the response FIFO while it's empty
    ResponseUnderflow,
    /// Command written while another one is pending
    NestedCommand(u8, u8),
    /// Parameter written while a command is pending
    ParamDuringCommand(u8),
    /// Parameter written while the parameter FIFO is full
    ParamOverflow,
    /// Unhandled bits in the HCHPCTL register
    UnhandledChipControl(u8),
    /// Unhandled bits in the HCLRCTL register
    UnhandledClearControl(u8),
    /// Unknown command
    UnhandledCommand(u8),
    /// Wrong number of parameters for the command (command, count)
    WrongParamCount(u8, u8),
    /// SetLoc parameters that are not a valid MSF
    InvalidMsf(u8, u8, u8),
    /// Unknown Test subcommand
    UnhandledTest(u8),
    /// Unhandled SetMode bits
    UnhandledMode(u8),
    /// Seek into the track 1 pregap
    SeekToPregap,
    /// GetLocP in the track 1 pregap
    GetLocInPregap,
    /// Command started or async response scheduled while an async
    /// response is pending
    AsyncPending,
    /// Sector read while the previous one is still pending
    ReadWhilePending,
    /// Disc access without a disc
    NoDisc,
    /// The frontend did not supply the sector at the read position
    SectorUnavailable,
    /// Partial read of a sector that is not a Mode 2 XA sector
    NotXaSector,
    /// Read past the last MSF
    MsfOverflow,
    /// A sector read was delayed more than a sector's time
    ReadOverrun,
    /// RX data read while the transfer is not active
    ReadInactive,
    /// RX data read past the end of the buffer
    RxOverflow,
}

/// Abstract state of the sub-CPU
pub struct SubCpuView {
    pub sequence: SubCpuSequence,
    pub timer: u32,
    pub params: FifoView,
    pub response: FifoView,
    pub irq_code: IrqCode,
    pub async_response: Option<(u32, AsyncResponse)>,
}

/// Abstract state of a sector handed over by the frontend: its 2352
/// raw bytes, its Mode 2 XA payload when it is a Mode 2 XA sector and
/// the position recorded in its Q subchannel (track, index, track
/// M/S/F, absolute M/S/F in BCD)
pub struct SectorView {
    pub raw: Seq<u8>,
    pub payload: Option<Seq<u8>>,
    pub q: Seq<u8>,
}

/// Sizes of a sector's data
pub open spec fn sector_wf(s: SectorView) -> bool {
    &&& s.raw.len() == RX_BUFFER_SIZE
    &&& s.q.len() == 8
    &&& s.payload matches Some(p) ==> 2048 <= p.len() <= RX_BUFFER_SIZE
}

/// Abstract state of the CD-ROM controller. Timestamps are given as
/// their BCD minutes, seconds and frames.
pub struct CdRomView {
    pub index: u8,
    pub host_params: FifoView,
    pub host_response: FifoView,
    pub command: Option<u8>,
    pub irq_flags: u8,
    pub irq_mask: u8,
    pub rx_buffer: Seq<u8>,
    pub rx_active: bool,
    pub sub_cpu: SubCpuView,
    pub rx_index: u16,
    pub rx_len: u16,
    pub read_state: ReadState,
    pub read_pending: bool,
    pub disc: Option<Disc>,
    pub seek_target: (u8, u8, u8),
    pub seek_target_pending: bool,
    pub position: (u8, u8, u8),
    pub double_speed: bool,
    pub xa_adpcm_to_spu: bool,
    pub read_whole_sector: bool,
    pub sector_size_override: bool,
    pub cdda_mode: bool,
    pub autopause: bool,
    pub report_interrupts: bool,
    pub filter_enabled: bool,
    pub filter_file: u8,
    pub filter_channel: u8,
    pub mixer: Mixer,
    pub rand: u32,
    pub next_sector: Option<((u8, u8, u8), SectorView)>,
    pub last_q: Seq<u8>,
}

/// A valid BCD timestamp
pub open spec fn msf_ok(t: (u8, u8, u8)) -> bool {
    msf_valid(t.0, t.1, t.2)
}

/// The sub-CPU runs a sequence
pub open spec fn in_command(c: CdRomView) -> bool {
    c.sub_cpu.sequence != SubCpuSequence::Idle
}

/// Invariant of the controller: FIFO and buffer sizes, valid
/// timestamps, a command pending during a command sequence, no
/// interrupt flag raised while the sub-CPU runs a sequence and a
/// running timer
#[verifier::opaque]
pub open spec fn cd_wf(c: CdRomView) -> bool {
    &&& fifo_wf(c.host_params)
    &&& fifo_wf(c.host_response)
    &&& fifo_wf(c.sub_cpu.params)
    &&& fifo_wf(c.sub_cpu.response)
    &&& c.rx_buffer.len() == RX_BUFFER_SIZE
    &&& c.rx_len <= RX_BUFFER_SIZE
    &&& c.rx_index <= RX_BUFFER_SIZE
    &&& c.index < 4
    &&& msf_ok(c.seek_target)
    &&& msf_ok(c.position)
    &&& c.rand != 0
    &&& c.last_q.len() == 8
    &&& c.next_sector matches Some((m, s)) ==> msf_ok(m) && sector_wf(s)
    &&& busy(c.sub_cpu.sequence) ==> c.command is Some
    &&& in_command(c) ==> c.irq_flags == 0 && c.sub_cpu.timer > 0
}

/// What the invariant of the controller says
pub proof fn lemma_wf_facts(c: CdRomView)
    requires
        cd_wf(c),
    ensures
        fifo_wf(c.host_params),
        fifo_wf(c.host_response),
        fifo_wf(c.sub_cpu.params),
        fifo_wf(c.sub_cpu.response),
        c.rx_buffer.len() == RX_BUFFER_SIZE,
        c.rx_len <= RX_BUFFER_SIZE,
        c.rx_index <= RX_BUFFER_SIZE,
        c.index < 4,
        msf_ok(c.seek_target),
        msf_ok(c.position),
        c.rand != 0,
        c.last_q.len() == 8,
        c.next_sector matches Some((m, s)) ==> msf_ok(m) && sector_wf(s),
        busy(c.sub_cpu.sequence) ==> c.command is Some,
        in_command(c) ==> c.irq_flags == 0 && c.sub_cpu.timer > 0,
{
    reveal(cd_wf);
}

/// The invariant of the controller from its parts
pub proof fn lemma_wf_intro(c: CdRomView)
    requires
        fifo_wf(c.host_params),
        fifo_wf(c.host_response),
        fifo_wf(c.sub_cpu.params),
        fifo_wf(c.sub_cpu.response),
        c.rx_buffer.len() == RX_BUFFER_SIZE,
        c.rx_len <= RX_BUFFER_SIZE,
        c.rx_index <= RX_BUFFER_SIZE,
        c.index < 4,
        msf_ok(c.seek_target),
        msf_ok(c.position),
        c.rand != 0,
        c.last_q.len() == 8,
        c.next_sector matches Some((m, s)) ==> msf_ok(m) && sector_wf(s),
        busy(c.sub_cpu.sequence) ==> c.command is Some,
        in_command(c) ==> c.irq_flags == 0 && c.sub_cpu.timer > 0,
    ensures
        cd_wf(c),
{
    reveal(cd_wf);
}

/// The whole emulated world the controller acts on: itself, the time
/// keeper and the interrupt controller
pub struct CdWorld {
    pub cd: CdRomView,
    pub tk: TkView,
    pub irq: InterruptState,
}

/// The controller's interrupt line
pub open spec fn irq_line(c: CdRomView) -> bool {
    c.irq_flags & c.irq_mask != 0
}

/// The frontend supplied the sector at the read position
pub open spec fn sector_supplied(c: CdRomView) -> bool {
    c.next_sector matches Some((p, _)) && p == c.position
}

/// The drive is reading sectors
pub open spec fn reading(c: CdRomView) -> bool {
    c.read_state != ReadState::Idle
}

/// First status byte returned by many commands: motor on and reading
/// bit with a disc, shell open without one
pub open spec fn drive_status(c: CdRomView) -> u8 {
    match c.disc {
        Some(_) => (2 | (if reading(c) {
            0x20u8
        } else {
            0u8
        })) as u8,
        None => 0x10,
    }
}

/// Busy flag: set from the moment the command is written until the
/// response has been transferred
pub open spec fn busy(s: SubCpuSequence) -> bool {
    match s {
        SubCpuSequence::CommandPending | SubCpuSequence::ParamPush | SubCpuSequence::Execution
        | SubCpuSequence::RxFlush | SubCpuSequence::RxPush | SubCpuSequence::BusyDelay => true,
        _ => false,
    }
}

/// The bits of `mask` set when `b` holds
pub open spec fn flag(b: bool, mask: u8) -> u8 {
    if b {
        mask
    } else {
        0
    }
}

/// HSTS register
pub open spec fn host_status(c: CdRomView) -> u8 {
    c.index | flag(fifo_empty(c.host_params), 0x08) | flag(!fifo_full(c.host_params), 0x10) | flag(
        !fifo_empty(c.host_response),
        0x20,
    ) | flag(c.rx_index < c.rx_len, 0x40) | flag(busy(c.sub_cpu.sequence), 0x80)
}

/// Number of CPU cycles needed to read a single sector: 75 sectors
/// per second at 1x, 150 at 2x
pub open spec fn cycles_per_sector(c: CdRomView) -> u32 {
    if c.double_speed {
        (CPU_FREQ_HZ / 75) / 2
    } else {
        CPU_FREQ_HZ / 75
    }
}

/// Sub-CPU with `f` applied
pub open spec fn with_sub(c: CdRomView, s: SubCpuView) -> CdRomView {
    CdRomView { sub_cpu: s, ..c }
}

/// Push `b` to the sub-CPU response FIFO
pub open spec fn respond(c: CdRomView, b: u8) -> CdRomView {
    with_sub(c, SubCpuView { response: fifo_pushed(c.sub_cpu.response, b), ..c.sub_cpu })
}

/// Push the bytes `s` to the sub-CPU response FIFO
pub open spec fn respond_all(c: CdRomView, s: Seq<u8>) -> CdRomView {
    with_sub(c, SubCpuView { response: fifo_pushed_all(c.sub_cpu.response, s), ..c.sub_cpu })
}

/// Respond with the drive status
pub open spec fn respond_status(c: CdRomView) -> CdRomView {
    respond(c, drive_status(c))
}

/// Pop a byte from the sub-CPU parameter FIFO
pub open spec fn pop_param(c: CdRomView) -> CdRomView {
    with_sub(c, SubCpuView { params: fifo_popped(c.sub_cpu.params), ..c.sub_cpu })
}

/// Next parameter byte
pub open spec fn param(c: CdRomView) -> u8 {
    fifo_front(c.sub_cpu.params)
}

/// Schedule the async response `h` in `delay` cycles
pub open spec fn schedule_async(c: CdRomView, delay: u32, h: AsyncResponse) -> Result<CdRomView, CdError> {
    if c.sub_cpu.async_response is Some {
        Err(CdError::AsyncPending)
    } else {
        Ok(with_sub(c, SubCpuView { async_response: Some((delay, h)), ..c.sub_cpu }))
    }
}

/// Timestamp 00:02:00, start of track 1 after its pregap
pub open spec fn pregap_end() -> int {
    150
}

/// Execute a pending seek
pub open spec fn do_seek(c: CdRomView) -> Result<CdRomView, CdError> {
    if msf_index(c.seek_target) < pregap_end() {
        Err(CdError::SeekToPregap)
    } else {
        Ok(CdRomView { position: c.seek_target, seek_target_pending: false, ..c })
    }
}

/// SetMode byte built from the drive flags
pub open spec fn mode_byte(c: CdRomView) -> u8 {
    flag(c.double_speed, 0x80) | flag(c.xa_adpcm_to_spu, 0x40) | flag(c.read_whole_sector, 0x20)
        | flag(c.sector_size_override, 0x10) | flag(c.filter_enabled, 0x08) | flag(
        c.report_interrupts,
        0x04,
    ) | flag(c.autopause, 0x02) | flag(c.cdda_mode, 0x01)
}

/// One of the bits of `mask` is set in `v`
pub open spec fn bit(v: u8, mask: u8) -> bool {
    v & mask != 0
}

/// Minimum and maximum parameter counts of the commands the
/// controller handles
pub open spec fn command_params(cmd: u8) -> Option<(u8, u8)> {
    if cmd == 0x02 {
        Some((3, 3))
    } else if cmd == 0x0d {
        Some((2, 2))
    } else if cmd == 0x0e || cmd == 0x19 {
        Some((1, 1))
    } else if cmd == 0x01 || cmd == 0x06 || cmd == 0x09 || cmd == 0x0a || cmd == 0x0b || cmd
        == 0x0c || cmd == 0x0f || cmd == 0x11 || cmd == 0x15 || cmd == 0x1a || cmd == 0x1b || cmd
        == 0x1e {
        Some((0, 0))
    } else {
        None
    }
}

/// GetId response without a disc: pretend the shell is open, and
/// report an error
pub open spec fn shell_open_id(c: CdRomView) -> CdRomView {
    let c1 = respond_all(c, seq![0x11u8, 0x80]);
    with_sub(c1, SubCpuView { irq_code: IrqCode::Error, ..c1.sub_cpu })
}

/// State after running the handler of command `cmd`, whose parameters
/// are in the sub-CPU parameter FIFO
#[verifier::opaque]
pub open spec fn run_handler(c: CdRomView, cmd: u8) -> Result<CdRomView, CdError> {
    if cmd == 0x01 || cmd == 0x0b || cmd == 0x0c {
        // GetStat, Mute, Demute
        Ok(respond_status(c))
    } else if cmd == 0x02 {
        // SetLoc: parameters are in BCD.
        let m = param(c);
        let c1 = pop_param(c);
        let s = param(c1);
        let c2 = pop_param(c1);
        let f = param(c2);
        let c3 = pop_param(c2);
        if !msf_valid(m, s, f) {
            Err(CdError::InvalidMsf(m, s, f))
        } else {
            Ok(respond_status(CdRomView { seek_target: (m, s, f), seek_target_pending: true, ..c3 }))
        }
    } else if cmd == 0x06 || cmd == 0x1b {
        // ReadN, ReadS
        let seeked = if c.seek_target_pending {
            do_seek(c)
        } else {
            Ok(c)
        };
        match seeked {
            Ok(c1) => Ok(
                respond_status(
                    CdRomView { read_state: ReadState::Reading(cycles_per_sector(c1)), ..c1 },
                ),
            ),
            Err(e) => Err(e),
        }
    } else if cmd == 0x09 {
        // Pause
        let c1 = respond_status(c);
        schedule_async(CdRomView { read_state: ReadState::Idle, ..c1 }, 9000, AsyncResponse::Pause)
    } else if cmd == 0x0a {
        // Init
        let c1 = respond_status(c);
        schedule_async(
            CdRomView { read_state: ReadState::Idle, read_pending: false, ..c1 },
            900_000,
            AsyncResponse::Init,
        )
    } else if cmd == 0x0d {
        // SetFilter
        let file = param(c);
        let c1 = pop_param(c);
        let channel = param(c1);
        let c2 = pop_param(c1);
        Ok(respond_status(CdRomView { filter_file: file, filter_channel: channel, ..c2 }))
    } else if cmd == 0x0e {
        // SetMode
        let mode = param(c);
        let c1 = pop_param(c);
        if bit(mode, 0x01) || bit(mode, 0x02) || bit(mode, 0x04) || bit(mode, 0x10) {
            Err(CdError::UnhandledMode(mode))
        } else {
            Ok(
                respond_status(
                    CdRomView {
                        double_speed: bit(mode, 0x80),
                        xa_adpcm_to_spu: bit(mode, 0x40),
                        read_whole_sector: bit(mode, 0x20),
                        sector_size_override: false,
                        filter_enabled: bit(mode, 0x08),
                        report_interrupts: false,
                        autopause: false,
                        cdda_mode: false,
                        ..c1
                    },
                ),
            )
        }
    } else if cmd == 0x0f {
        // GetParam
        Ok(
            respond_all(
                c,
                seq![drive_status(c), mode_byte(c), 0u8, c.filter_file, c.filter_channel],
            ),
        )
    } else if cmd == 0x11 {
        // GetLocP: the position in the Q subchannel of the last sector
        if msf_index(c.position) < pregap_end() {
            Err(CdError::GetLocInPregap)
        } else {
            Ok(respond_all(c, c.last_q))
        }
    } else if cmd == 0x15 {
        // SeekL
        match do_seek(c) {
            Ok(c1) => schedule_async(respond_status(c1), 1_000_000, AsyncResponse::SeekL),
            Err(e) => Err(e),
        }
    } else if cmd == 0x19 {
        // Test
        let sub = param(c);
        let c1 = pop_param(c);
        if sub == 0x20 {
            // Controller version (year, month, day, version)
            Ok(respond_all(c1, seq![0x98u8, 0x06, 0x10, 0xc3]))
        } else {
            Err(CdError::UnhandledTest(sub))
        }
    } else if cmd == 0x1a {
        // GetId
        match c.disc {
            Some(_) => schedule_async(respond_status(c), GET_ID_ASYNC, AsyncResponse::GetId),
            None => Ok(shell_open_id(c)),
        }
    } else {
        // ReadToc
        schedule_async(respond_status(c), READ_TOC_ASYNC, AsyncResponse::ReadToc)
    }
}

/// Run the pending command
#[verifier::opaque]
pub open spec fn execute_command(c: CdRomView) -> Result<CdRomView, CdError> {
    let cmd = c.command->0;
    let n = fifo_len(c.sub_cpu.params);
    match command_params(cmd) {
        None => Err(CdError::UnhandledCommand(cmd)),
        Some((min, max)) => if n < min || n > max {
            Err(CdError::WrongParamCount(cmd, n))
        } else {
            run_handler(c, cmd)
        },
    }
}

/// Region letter of the GetId response
pub open spec fn region_letter(r: Region) -> u8 {
    match r {
        Region::Japan => 0x49,
        Region::NorthAmerica => 0x41,
        Region::Europe => 0x45,
    }
}

/// State after the asynchronous handler `h`, and the delay before its
/// response transfer
#[verifier::opaque]
pub open spec fn run_async(c: CdRomView, h: AsyncResponse) -> Result<(CdRomView, u32), CdError> {
    match h {
        AsyncResponse::Pause => Ok((respond_status(c), PAUSE_RX_PUSH)),
        AsyncResponse::Init => {
            let c1 = respond_status(c);
            Ok(
                (
                    CdRomView {
                        position: (0, 0, 0),
                        seek_target: (0, 0, 0),
                        read_state: ReadState::Idle,
                        double_speed: false,
                        xa_adpcm_to_spu: false,
                        read_whole_sector: true,
                        sector_size_override: false,
                        filter_enabled: false,
                        report_interrupts: false,
                        autopause: false,
                        cdda_mode: false,
                        ..c1
                    },
                    INIT_RX_PUSH,
                ),
            )
        },
        AsyncResponse::SeekL => Ok((respond_status(c), SEEK_L_RX_PUSH)),
        AsyncResponse::ReadToc => Ok((respond_status(c), READ_TOC_RX_PUSH)),
        AsyncResponse::GetId => match c.disc {
            None => Err(CdError::NoDisc),
            Some(d) => Ok(
                (
                    respond_all(
                        c,
                        seq![
                            drive_status(c),
                            0x00u8,
                            0x20,
                            0x00,
                            0x53,
                            0x43,
                            0x45,
                            region_letter(d.spec_region())
                        ],
                    ),
                    GET_ID_RX_PUSH,
                ),
            ),
        },
    }
}

/// Time keeper after the controller scheduled its next
/// synchronization: at the next sequence step, else at the next async
/// response when no interrupt is pending, and at the next sector read
/// if that comes sooner
#[verifier::opaque]
pub open spec fn predicted(c: CdRomView, tk: TkView) -> TkView {
    let tk1 = tk_no_sync(tk, Peripheral::CdRom);
    let tk2 = if in_command(c) {
        tk_next_sync(tk1, Peripheral::CdRom, c.sub_cpu.timer as u64)
    } else if c.irq_flags == 0 {
        match c.sub_cpu.async_response {
            Some((delay, _)) => tk_next_sync(tk1, Peripheral::CdRom, delay as u64),
            None => tk1,
        }
    } else {
        tk1
    };
    match c.read_state {
        ReadState::Reading(delay) => tk_next_sync_if_sooner(tk2, Peripheral::CdRom, delay as u64),
        ReadState::Idle => tk2,
    }
}

/// The world with the next synchronization predicted
pub open spec fn predict(w: CdWorld) -> CdWorld {
    CdWorld { tk: predicted(w.cd, w.tk), ..w }
}

/// The sub-CPU can start a sequence
pub open spec fn sub_cpu_ready(c: CdRomView) -> bool {
    c.irq_flags == 0 && !in_command(c)
}

/// Start the pending command if the sub-CPU is ready, after a
/// pseudo-random delay
/// The sub-CPU starts the command sequence, after a pseudo-random
/// delay
pub open spec fn command_started(c: CdRomView) -> Result<CdRomView, CdError> {
    let r = xorshift(c.rand);
    if c.sub_cpu.async_response is Some {
        // Not sure what's supposed to happen here, might be command
        // dependant.
        Err(CdError::AsyncPending)
    } else {
        Ok(
            CdRomView {
                rand: r,
                sub_cpu: SubCpuView {
                    sequence: SubCpuSequence::CommandPending,
                    timer: (COMMAND_PENDING + r % COMMAND_PENDING_VARIATION) as u32,
                    params: fifo_cleared(),
                    response: fifo_cleared(),
                    irq_code: IrqCode::CommandOk,
                    ..c.sub_cpu
                },
                ..c
            },
        )
    }
}

/// Start the pending command if the sub-CPU is ready
#[verifier::opaque]
pub open spec fn maybe_start_command(w: CdWorld) -> Result<CdWorld, CdError> {
    if w.cd.command is Some && sub_cpu_ready(w.cd) {
        match command_started(w.cd) {
            Ok(c1) => Ok(predict(CdWorld { cd: c1, ..w })),
            Err(e) => Err(e),
        }
    } else {
        Ok(w)
    }
}

/// The sub-CPU runs the async handler `h` and starts the response
/// transfer
pub open spec fn async_started(c: CdRomView, h: AsyncResponse) -> Result<CdRomView, CdError> {
    let c1 = with_sub(
        c,
        SubCpuView {
            async_response: None,
            response: fifo_cleared(),
            // Assume it's going to be successful, let the handler
            // override that if necessary.
            irq_code: IrqCode::AsyncOk,
            ..c.sub_cpu
        },
    );
    match run_async(c1, h) {
        Ok((c2, rx_delay)) => Ok(goto(c2, SubCpuSequence::AsyncRxPush, rx_delay)),
        Err(e) => Err(e),
    }
}

/// Start the async response sequence if it is due and the sub-CPU is
/// ready
#[verifier::opaque]
pub open spec fn maybe_process_async(w: CdWorld) -> Result<CdWorld, CdError> {
    match w.cd.sub_cpu.async_response {
        Some((delay, h)) => if delay == 0 && sub_cpu_ready(w.cd) {
            match async_started(w.cd, h) {
                Ok(c1) => Ok(predict(CdWorld { cd: c1, ..w })),
                Err(e) => Err(e),
            }
        } else {
            Ok(w)
        },
        None => Ok(w),
    }
}

/// The sub-CPU starts the sector notification: the drive status is
/// the response
pub open spec fn read_notified(c: CdRomView) -> CdRomView {
    CdRomView {
        sub_cpu: SubCpuView {
            response: fifo_pushed(fifo_cleared(), drive_status(c)),
            irq_code: IrqCode::SectorReady,
            sequence: SubCpuSequence::AsyncRxPush,
            timer: READ_RX_PUSH,
            ..c.sub_cpu
        },
        read_pending: false,
        ..c
    }
}

/// Start the sector notification sequence if a sector was read and the
/// sub-CPU is ready
#[verifier::opaque]
pub open spec fn maybe_notify_read(w: CdWorld) -> CdWorld {
    if w.cd.read_pending && sub_cpu_ready(w.cd) {
        predict(CdWorld { cd: read_notified(w.cd), ..w })
    } else {
        w
    }
}

/// Raise the interrupt flags with `code`, and the CD-ROM interrupt if
/// it is not masked
#[verifier::opaque]
pub open spec fn trigger_irq(w: CdWorld, code: IrqCode) -> CdWorld {
    let c1 = CdRomView { irq_flags: irq_code_value(code), ..w.cd };
    CdWorld {
        cd: c1,
        irq: if irq_line(c1) {
            w.irq.raised(Interrupt::CdRom)
        } else {
            w.irq
        },
        ..w
    }
}

/// Move a response byte from the sub-CPU to the host response FIFO
pub open spec fn transfer_response(c: CdRomView) -> CdRomView {
    CdRomView {
        host_response: fifo_pushed(c.host_response, fifo_front(c.sub_cpu.response)),
        sub_cpu: SubCpuView { response: fifo_popped(c.sub_cpu.response), ..c.sub_cpu },
        ..c
    }
}

/// Sub-CPU in sequence step `s` for `timer` cycles
pub open spec fn goto(c: CdRomView, s: SubCpuSequence, timer: u32) -> CdRomView {
    with_sub(c, SubCpuView { sequence: s, timer: timer, ..c.sub_cpu })
}

/// One parameter byte moved from the host FIFO to the sub-CPU one
pub open spec fn param_transferred(c: CdRomView) -> CdRomView {
    CdRomView {
        host_params: fifo_popped(c.host_params),
        sub_cpu: SubCpuView {
            params: fifo_pushed(c.sub_cpu.params, fifo_front(c.host_params)),
            ..c.sub_cpu
        },
        ..c
    }
}

/// The command runs, then the execution delay starts
pub open spec fn command_run(c: CdRomView) -> Result<CdRomView, CdError> {
    match execute_command(c) {
        Ok(c1) => Ok(goto(c1, SubCpuSequence::Execution, EXECUTION)),
        Err(e) => Err(e),
    }
}

/// The host parameter FIFO moved into the sub-CPU one, one byte at a
/// time, then the command runs
pub open spec fn step_params(c: CdRomView) -> Result<CdRomView, CdError> {
    if fifo_empty(c.host_params) {
        // We have all the parameters (if any), we can run the actual
        // command
        command_run(c)
    } else {
        // Send parameter
        Ok(goto(param_transferred(c), SubCpuSequence::ParamPush, PARAM_PUSH))
    }
}

/// A response byte moved to the host; the transfer goes on while the
/// sub-CPU has bytes left, then comes the busy delay (commands) or the
/// interrupt delay (async responses)
pub open spec fn step_response(c: CdRomView, is_async: bool) -> CdRomView {
    let c1 = transfer_response(c);
    if fifo_empty(c1.sub_cpu.response) {
        if is_async {
            goto(c1, SubCpuSequence::IrqDelay, IRQ_DELAY)
        } else {
            goto(c1, SubCpuSequence::BusyDelay, BUSY_DELAY)
        }
    } else if is_async {
        goto(c1, SubCpuSequence::AsyncRxPush, RX_PUSH)
    } else {
        goto(c1, SubCpuSequence::RxPush, RX_PUSH)
    }
}

/// Advance to the next step of the sub-CPU sequence
#[verifier::opaque]
pub open spec fn next_step(w: CdWorld) -> Result<CdWorld, CdError> {
    let c = w.cd;
    match c.sub_cpu.sequence {
        SubCpuSequence::Idle => Ok(w),
        SubCpuSequence::CommandPending | SubCpuSequence::ParamPush => match step_params(c) {
            Ok(c1) => Ok(CdWorld { cd: c1, ..w }),
            Err(e) => Err(e),
        },
        SubCpuSequence::Execution => Ok(
            CdWorld {
                cd: goto(
                    CdRomView { host_response: fifo_cleared(), ..c },
                    SubCpuSequence::RxFlush,
                    RX_FLUSH,
                ),
                ..w
            },
        ),
        SubCpuSequence::RxFlush | SubCpuSequence::RxPush => Ok(
            CdWorld { cd: step_response(c, false), ..w },
        ),
        SubCpuSequence::BusyDelay => Ok(
            CdWorld { cd: goto(c, SubCpuSequence::IrqDelay, IRQ_DELAY), ..w },
        ),
        SubCpuSequence::IrqDelay => {
            // The command is done and the sub-CPU idle when the
            // interrupt triggers
            let c1 = CdRomView {
                command: None,
                sub_cpu: SubCpuView { sequence: SubCpuSequence::Idle, ..c.sub_cpu },
                ..c
            };
            Ok(trigger_irq(CdWorld { cd: c1, ..w }, c.sub_cpu.irq_code))
        },
        SubCpuSequence::AsyncRxPush => Ok(CdWorld { cd: step_response(c, true), ..w }),
    }
}

/// The data a sector read puts in the RX buffer: the whole sector but
/// the sync pattern, or the first 2048 bytes of the Mode 2 XA payload
pub open spec fn sector_data(c: CdRomView, s: SectorView) -> Option<Seq<u8>> {
    if c.read_whole_sector {
        Some(s.raw.subrange(12, RX_BUFFER_SIZE as int))
    } else {
        match s.payload {
            Some(p) => Some(p.subrange(0, 2048)),
            None => None,
        }
    }
}

/// `data` copied at the start of `buf`
pub open spec fn copied(buf: Seq<u8>, data: Seq<u8>) -> Seq<u8> {
    Seq::new(buf.len(), |i: int| if i < data.len() { data[i] } else { buf[i] })
}

/// The last timestamp, which has no successor
pub open spec fn msf_last(t: (u8, u8, u8)) -> bool {
    t == (0x99u8, 0x59u8, 0x74u8)
}

/// Read the sector at the current position into the RX buffer and
/// move on to the next one
#[verifier::opaque]
pub open spec fn read_sector(c: CdRomView) -> Result<CdRomView, CdError> {
    if c.read_pending {
        Err(CdError::ReadWhilePending)
    } else if c.disc is None {
        Err(CdError::NoDisc)
    } else {
        match c.next_sector {
            Some((m, s)) => if m != c.position {
                Err(CdError::SectorUnavailable)
            } else {
                match sector_data(c, s) {
                    None => Err(CdError::NotXaSector),
                    Some(data) => if msf_last(c.position) {
                        Err(CdError::MsfOverflow)
                    } else {
                        Ok(
                            CdRomView {
                                rx_buffer: copied(c.rx_buffer, data),
                                rx_len: data.len() as u16,
                                last_q: s.q,
                                next_sector: None,
                                position: msf_next(c.position),
                                read_pending: true,
                                ..c
                            },
                        )
                    },
                }
            },
            None => Err(CdError::SectorUnavailable),
        }
    }
}

/// The sub-CPU sequence advanced by at most `remaining` cycles: the
/// world and the elapsed cycles
pub open spec fn round_step(w: CdWorld, remaining: u32) -> Result<(CdWorld, u32), CdError> {
    let c = w.cd;
    if in_command(c) {
        if c.sub_cpu.timer > remaining {
            Ok(
                (
                    CdWorld {
                        cd: with_sub(
                            c,
                            SubCpuView { timer: (c.sub_cpu.timer - remaining) as u32, ..c.sub_cpu },
                        ),
                        ..w
                    },
                    remaining,
                ),
            )
        } else {
            // Time to advance to the next step in the sequence.
            match next_step(w) {
                Ok(w1) => Ok((w1, c.sub_cpu.timer)),
                Err(e) => Err(e),
            }
        }
    } else {
        // No command pending, we can go through the entire delta at
        // once
        Ok((w, remaining))
    }
}

/// The async response advanced by `elapsed` cycles, and started when
/// due
pub open spec fn round_async(w: CdWorld, elapsed: u32) -> Result<CdWorld, CdError> {
    match w.cd.sub_cpu.async_response {
        Some((delay, h)) => if delay > elapsed {
            Ok(
                CdWorld {
                    cd: with_sub(
                        w.cd,
                        SubCpuView {
                            async_response: Some(((delay - elapsed) as u32, h)),
                            ..w.cd.sub_cpu
                        },
                    ),
                    ..w
                },
            )
        } else {
            // The async event is ready to be processed
            maybe_process_async(
                CdWorld {
                    cd: with_sub(w.cd, SubCpuView { async_response: Some((0, h)), ..w.cd.sub_cpu }),
                    ..w
                },
            )
        },
        None => Ok(w),
    }
}

/// The sector reads advanced by `elapsed` cycles: when the read delay
/// expires the sector is read and notified, and the next read is
/// scheduled
pub open spec fn round_read(w: CdWorld, elapsed: u32) -> Result<CdWorld, CdError> {
    match w.cd.read_state {
        ReadState::Reading(delay) => if delay > elapsed {
            Ok(
                CdWorld {
                    cd: CdRomView { read_state: ReadState::Reading((delay - elapsed) as u32), ..w.cd },
                    ..w
                },
            )
        } else {
            let leftover = (elapsed - delay) as u32;
            match read_sector(w.cd) {
                Err(e) => Err(e),
                Ok(c3) => {
                    let w4 = maybe_notify_read(CdWorld { cd: c3, ..w });
                    let cps = cycles_per_sector(w4.cd);
                    if leftover > cps {
                        Err(CdError::ReadOverrun)
                    } else {
                        Ok(
                            CdWorld {
                                cd: CdRomView {
                                    read_state: ReadState::Reading((cps - leftover) as u32),
                                    ..w4.cd
                                },
                                ..w4
                            },
                        )
                    }
                },
            }
        },
        ReadState::Idle => Ok(w),
    }
}

/// One round of the synchronization loop with `remaining` cycles left
/// to emulate: the sub-CPU sequence, then the async response, then the
/// sector reads advance by the elapsed time. Returns the world and the
/// elapsed cycles.
#[verifier::opaque]
pub open spec fn sync_round(w: CdWorld, remaining: u32) -> Result<(CdWorld, u32), CdError> {
    match round_step(w, remaining) {
        Err(e) => Err(e),
        Ok((w1, elapsed)) => match round_async(w1, elapsed) {
            Err(e) => Err(e),
            Ok(w2) => match round_read(w2, elapsed) {
                Err(e) => Err(e),
                Ok(w3) => Ok((w3, elapsed)),
            },
        },
    }
}

/// The synchronization loop run for `remaining` cycles
pub open spec fn sync_loop(w: CdWorld, remaining: u32) -> Result<CdWorld, CdError>
    decreases remaining,
{
    if remaining == 0 {
        Ok(w)
    } else {
        match sync_round(w, remaining) {
            Err(e) => Err(e),
            Ok((w1, elapsed)) => if elapsed == 0 || elapsed > remaining {
                Ok(w1)
            } else {
                sync_loop(w1, (remaining - elapsed) as u32)
            },
        }
    }
}

/// Synchronize the controller with the time keeper: emulate the
/// cycles elapsed since its last synchronization (truncated to 32
/// bits), then schedule the next synchronization
#[verifier::opaque]
pub open spec fn synced(w: CdWorld) -> Result<CdWorld, CdError> {
    let delta = (w.tk.date - w.tk.sheets[peripheral_index(Peripheral::CdRom)].last_sync) as u32;
    let w1 = CdWorld { tk: tk_synced(w.tk, Peripheral::CdRom), ..w };
    match sync_loop(w1, delta) {
        Ok(w2) => Ok(predict(w2)),
        Err(e) => Err(e),
    }
}

/// Read index after the RX transfer was stopped: it moves to the
/// closest multiple of 8 bytes
pub open spec fn rx_aligned(i: u16) -> u16 {
    ((i & !7u16) + ((i & 4u16) << 1u16)) as u16
}

/// HCHPCTL register write: bit 7 starts or stops the RX transfer
#[verifier::opaque]
pub open spec fn chip_control_written(c: CdRomView, ctrl: u8) -> Result<CdRomView, CdError> {
    let active = ctrl & 0x80 != 0;
    let index = if active {
        if !c.rx_active {
            // Reset the index to the beginning of the RX buffer
            0
        } else {
            c.rx_index
        }
    } else {
        // It seems that on the real hardware when one attempts to
        // read the RX data register while the rx_active bit is low it
        // returns always the same bytes which seems to be located at
        // the *closest* multiple of 8 bytes.
        rx_aligned(c.rx_index)
    };
    if ctrl & 0x7f != 0 {
        Err(CdError::UnhandledChipControl(ctrl))
    } else {
        Ok(CdRomView { rx_active: active, rx_index: index, ..c })
    }
}

/// Acknowledge the interrupt flags `v`, then start whatever waited for
/// the acknowledge: a command, an async response, a sector
/// notification
#[verifier::opaque]
pub open spec fn irq_acked(w: CdWorld, v: u8) -> Result<CdWorld, CdError> {
    let w1 = CdWorld { cd: CdRomView { irq_flags: w.cd.irq_flags & !v, ..w.cd }, ..w };
    match maybe_start_command(w1) {
        Err(e) => Err(e),
        Ok(w2) => match maybe_process_async(w2) {
            Err(e) => Err(e),
            Ok(w3) => Ok(maybe_notify_read(w3)),
        },
    }
}

/// State after a register write of `val` at `offset` (after the
/// synchronization)
#[verifier::opaque]
pub open spec fn register_written(w: CdWorld, offset: u32, val: u8) -> Result<CdWorld, CdError> {
    let c = w.cd;
    let index = c.index;
    let mixer = c.mixer;
    let with_mixer = |m: Mixer| Ok(CdWorld { cd: CdRomView { mixer: m, ..c }, ..w });
    if offset == 0 {
        // ADDRESS register
        Ok(CdWorld { cd: CdRomView { index: val & 3, ..c }, ..w })
    } else if offset == 1 && index == 0 {
        // COMMAND register
        match c.command {
            Some(pending) => Err(CdError::NestedCommand(pending, val)),
            None => maybe_start_command(CdWorld { cd: CdRomView { command: Some(val), ..c }, ..w }),
        }
    } else if offset == 1 && index == 3 {
        // ATV2 register
        with_mixer(Mixer { cd_right_to_spu_right: val, ..mixer })
    } else if offset == 2 && index == 0 {
        // PARAMETER register
        match c.command {
            Some(pending) => Err(CdError::ParamDuringCommand(pending)),
            None => if fifo_full(c.host_params) {
                // Wraps around on real hardware
                Err(CdError::ParamOverflow)
            } else {
                Ok(CdWorld { cd: CdRomView { host_params: fifo_pushed(c.host_params, val), ..c }, ..w })
            },
        }
    } else if offset == 2 && index == 1 {
        // HINTMSK register: only the 3 bit sub-CPU interrupt code is
        // handled
        Ok(CdWorld { cd: CdRomView { irq_mask: val & 0x1f, ..c }, ..w })
    } else if offset == 2 && index == 2 {
        // ATV0 register
        with_mixer(Mixer { cd_left_to_spu_left: val, ..mixer })
    } else if offset == 2 && index == 3 {
        // ATV3 register
        with_mixer(Mixer { cd_right_to_spu_left: val, ..mixer })
    } else if offset == 3 && index == 0 {
        // HCHPCTL register
        match chip_control_written(c, val) {
            Ok(c1) => Ok(CdWorld { cd: c1, ..w }),
            Err(e) => Err(e),
        }
    } else if offset == 3 && index == 1 {
        // HCLRCTL (host clear control) register
        match irq_acked(w, val & 0x1f) {
            Err(e) => Err(e),
            Ok(w1) => {
                let w2 = if val & 0x40 != 0 {
                    CdWorld { cd: CdRomView { host_params: fifo_cleared(), ..w1.cd }, ..w1 }
                } else {
                    w1
                };
                if val & 0xa0 != 0 {
                    Err(CdError::UnhandledClearControl(val))
                } else {
                    Ok(w2)
                }
            },
        }
    } else if offset == 3 && index == 2 {
        // ATV1 register
        with_mixer(Mixer { cd_left_to_spu_right: val, ..mixer })
    } else if offset == 3 && index == 3 {
        // ADPCTL register: the mixer settings are not applied
        Ok(w)
    } else {
        Err(CdError::UnhandledStore(offset, index, val))
    }
}

/// A register store of `size` bytes: synchronization, then the write
#[verifier::opaque]
pub open spec fn stored(w: CdWorld, size: u8, offset: u32, val: u32) -> Result<CdWorld, CdError> {
    match synced(w) {
        Err(e) => Err(e),
        Ok(w1) => if size != 1 {
            Err(CdError::UnhandledWidth)
        } else {
            register_written(w1, offset, val as u8)
        },
    }
}

/// Value of the register at `offset` (after the synchronization) and
/// the state after the read
#[verifier::opaque]
pub open spec fn register_read(w: CdWorld, offset: u32) -> Result<(CdWorld, u8), CdError> {
    let c = w.cd;
    if offset == 0 {
        Ok((w, host_status(c)))
    } else if offset == 1 {
        // RESULT register
        if fifo_empty(c.host_response) {
            Err(CdError::ResponseUnderflow)
        } else {
            Ok(
                (
                    CdWorld { cd: CdRomView { host_response: fifo_popped(c.host_response), ..c }, ..w },
                    fifo_front(c.host_response),
                ),
            )
        }
    } else if offset == 3 && c.index == 0 {
        // IRQ mask/flags have the 3 MSB set when read.
        Ok((w, c.irq_mask | 0xe0))
    } else if offset == 3 && c.index == 1 {
        Ok((w, c.irq_flags | 0xe0))
    } else {
        Err(CdError::UnhandledLoad(offset, c.index))
    }
}

/// A register load of `size` bytes: synchronization, then the read
#[verifier::opaque]
pub open spec fn loaded(w: CdWorld, size: u8, offset: u32) -> Result<(CdWorld, u8), CdError> {
    match synced(w) {
        Err(e) => Err(e),
        Ok(w1) => if size != 1 {
            Err(CdError::UnhandledWidth)
        } else {
            register_read(w1, offset)
        },
    }
}

/// Retrieve a single byte from the RX buffer
#[verifier::opaque]
pub open spec fn read_byte(c: CdRomView) -> Result<(CdRomView, u8), CdError> {
    if c.rx_index >= RX_BUFFER_SIZE {
        Err(CdError::RxOverflow)
    } else if !c.rx_active {
        Err(CdError::ReadInactive)
    } else {
        let index = (c.rx_index + 1) as u16;
        // rx_active clears automatically at the end of the transfer
        Ok((CdRomView { rx_index: index, rx_active: index != c.rx_len, ..c }, c.rx_buffer[c.rx_index as int]))
    }
}

/// Read four bytes of the RX buffer as a little endian word
#[verifier::opaque]
pub open spec fn dma_read(c: CdRomView) -> Result<(CdRomView, u32), CdError> {
    match read_byte(c) {
        Err(e) => Err(e),
        Ok((c1, b0)) => match read_byte(c1) {
            Err(e) => Err(e),
            Ok((c2, b1)) => match read_byte(c2) {
                Err(e) => Err(e),
                Ok((c3, b2)) => match read_byte(c3) {
                    Err(e) => Err(e),
                    Ok((c4, b3)) => Ok(
                        (
                            c4,
                            (b0 as u32) | ((b1 as u32) << 8u32) | ((b2 as u32) << 16u32) | ((
                            b3 as u32) << 24u32),
                        ),
                    ),
                },
            },
        },
    }
}

} // verus!
