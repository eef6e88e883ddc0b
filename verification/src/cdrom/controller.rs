//! The CD-ROM controller: host registers, sub-CPU command sequence,
//! command handlers and sector reads

use vstd::prelude::*;

mod bus;
mod host;

use crate::cdrom::disc::Disc;
use crate::cdrom::disc::msf::{Msf, msf_valid};
use crate::cdrom::fifo::{Fifo, fifo_cleared, fifo_front, fifo_wf, lemma_fifo_wf};
use crate::cdrom::disc::Region;
use crate::cdrom::model::{
    BUSY_DELAY, COMMAND_PENDING, COMMAND_PENDING_VARIATION, EXECUTION, IRQ_DELAY, PARAM_PUSH,
    READ_RX_PUSH, RX_FLUSH, RX_PUSH, in_command, maybe_notify_read, maybe_process_async,
    maybe_start_command, next_step, predict, predicted, trigger_irq, AsyncResponse, CdError, CdRomView, CdWorld, CPU_FREQ_HZ, GET_ID_ASYNC, GET_ID_RX_PUSH,
    INIT_RX_PUSH, IrqCode, Mixer, PAUSE_RX_PUSH, READ_TOC_ASYNC, READ_TOC_RX_PUSH, RX_BUFFER_SIZE,
    ReadState, SEEK_L_RX_PUSH, SectorView, SubCpuSequence, SubCpuView, busy, cd_wf,
    cycles_per_sector, do_seek, drive_status, execute_command, flag, host_status, irq_line,
    mode_byte, param, pop_param, reading, region_letter, respond, respond_all, respond_status, shell_open_id, with_sub, sub_cpu_ready, command_started,
    async_started, read_notified, step_params, step_response, goto, param_transferred, command_run, irq_code_value, lemma_wf_facts, lemma_wf_intro,
    run_async, run_handler, schedule_async, sector_supplied, sector_wf,
};
use crate::cdrom::simple_rand::SimpleRand;
use crate::memory::interrupts::Interrupt;
use crate::shared::SharedState;
use crate::timekeeper::{Cycles, Peripheral};

verus! {

/// A sector handed over by the frontend
pub struct Sector {
    /// The 2352 raw bytes of the sector
    raw: Vec<u8>,
    /// The Mode 2 XA payload (after the sub-header), if this is a
    /// Mode 2 XA sector
    payload: Option<Vec<u8>>,
    /// Position in the Q subchannel, BCD: track, index, track M/S/F,
    /// absolute M/S/F
    q: [u8; 8],
}

impl View for Sector {
    type V = SectorView;

    closed spec fn view(&self) -> SectorView {
        SectorView {
            raw: self.raw@,
            payload: match self.payload {
                Some(p) => Some(p@),
                None => None,
            },
            q: self.q@,
        }
    }
}

impl Sector {
    #[verifier::spinoff_prover]
    pub fn new(raw: Vec<u8>, payload: Option<Vec<u8>>, q: [u8; 8]) -> (s: Sector)
        requires
            raw@.len() == RX_BUFFER_SIZE,
            payload matches Some(p) ==> 2048 <= p@.len() <= RX_BUFFER_SIZE,
        ensures
            sector_wf(s@),
            s@.raw == raw@,
            s@.payload == (match payload {
                Some(p) => Some(p@),
                None => None::<Seq<u8>>,
            }),
            s@.q == q@,
    {
        Sector { raw, payload, q }
    }

    /// Raw bytes of the sector
    pub fn raw(&self) -> (r: &Vec<u8>)
        ensures
            r@ == self@.raw,
    {
        &self.raw
    }

    /// Mode 2 payload of the sector, if it has one
    pub fn payload(&self) -> (r: &Option<Vec<u8>>)
        ensures
            match *r {
                Some(p) => self@.payload == Some(p@),
                None => self@.payload is None,
            },
    {
        &self.payload
    }

    /// Q subchannel data of the sector
    pub fn q(&self) -> (r: [u8; 8])
        ensures
            r@ == self@.q,
    {
        self.q
    }

    /// The sector read from the disc at `msf` with the raw bytes
    /// `raw`: Mode 2 sectors carry a payload after their 24 byte
    /// header, 0x914 bytes for Form 2 (submode bit 5) and 0x800 bytes
    /// for Form 1. The Q subchannel gives the position in track 01,
    /// index 01; the position within the track is not tracked and
    /// repeats the absolute one.
    pub fn from_disc(raw: Vec<u8>, msf: Msf) -> (s: Sector)
        requires
            raw@.len() == RX_BUFFER_SIZE,
        ensures
            sector_wf(s@),
            s@.raw == raw@,
            s@.payload == disc_payload(raw@),
            s@.q == seq![0x01u8, 0x01u8, msf.fields().0, msf.fields().1, msf.fields().2,
                msf.fields().0, msf.fields().1, msf.fields().2],
    {
        let payload = if raw[15] == 2 {
            let end: usize = if raw[18] & 0x20 != 0 {
                24 + 0x914
            } else {
                24 + 0x800
            };
            let mut p: Vec<u8> = Vec::new();
            let mut i: usize = 24;
            while i < end
                invariant
                    24 <= i <= end,
                    end <= raw@.len(),
                    p@ == raw@.subrange(24, i as int),
                decreases end - i,
            {
                p.push(raw[i]);
                i += 1;
                assert(p@ =~= raw@.subrange(24, i as int));
            }
            Some(p)
        } else {
            None
        };
        let (m, sec, f) = msf.into_bcd();
        let q = [0x01, 0x01, m, sec, f, m, sec, f];
        assert(q@ =~= seq![0x01u8, 0x01u8, m, sec, f, m, sec, f]);
        Sector::new(raw, payload, q)
    }
}

/// Payload of the raw sector `raw`: the data of a Mode 2 sector, Form 1
/// or Form 2
pub open spec fn disc_payload(raw: Seq<u8>) -> Option<Seq<u8>> {
    if raw[15] == 2 {
        if raw[18] & 0x20 != 0 {
            Some(raw.subrange(24, 24 + 0x914int))
        } else {
            Some(raw.subrange(24, 24 + 0x800int))
        }
    } else {
        None
    }
}

/// Sub-CPU state. This is an 8bit microcontroller in charge of the
/// drive
struct SubCpu {
    /// Current sub-CPU command state
    sequence: SubCpuSequence,
    /// Countdown until the next step in `sequence`
    timer: u32,
    /// Internal command parameter FIFO
    params: Fifo,
    /// Internal command response FIFO
    response: Fifo,
    /// Status for the current command
    irq_code: IrqCode,
    /// Async command response: the number of CPU cycles until the
    /// handler must run, and the handler
    async_response: Option<(u32, AsyncResponse)>,
}

impl View for SubCpu {
    type V = SubCpuView;

    closed spec fn view(&self) -> SubCpuView {
        SubCpuView {
            sequence: self.sequence,
            timer: self.timer,
            params: self.params@,
            response: self.response@,
            irq_code: self.irq_code,
            async_response: self.async_response,
        }
    }
}

impl SubCpu {
    #[verifier::spinoff_prover]
    fn new() -> (s: SubCpu)
        ensures
            s@ == (SubCpuView {
                sequence: SubCpuSequence::Idle,
                timer: 0,
                params: fifo_cleared(),
                response: fifo_cleared(),
                irq_code: IrqCode::CommandOk,
                async_response: None,
            }),
    {
        SubCpu {
            sequence: SubCpuSequence::Idle,
            timer: 0,
            params: Fifo::new(),
            response: Fifo::new(),
            irq_code: IrqCode::CommandOk,
            async_response: None,
        }
    }

    /// Return true if the sub-CPU is executing a command
    #[verifier::spinoff_prover]
    fn in_command(&self) -> (r: bool)
        ensures
            r == (self@.sequence != SubCpuSequence::Idle),
    {
        match self.sequence {
            SubCpuSequence::Idle => false,
            _ => true,
        }
    }

    /// Busy flag state. This is *not* equivalent to `in_command()`,
    /// the busy flag goes down roughly 2000 cyles before the IRQ
    /// triggers.
    #[verifier::spinoff_prover]
    fn is_busy(&self) -> (r: bool)
        ensures
            r == busy(self@.sequence),
    {
        match self.sequence {
            SubCpuSequence::CommandPending | SubCpuSequence::ParamPush | SubCpuSequence::Execution
            | SubCpuSequence::RxFlush | SubCpuSequence::RxPush | SubCpuSequence::BusyDelay => true,
            _ => false,
        }
    }
}

/// CDROM drive, controller and decoder.
pub struct CdRom {
    /// The CD-ROM interface has four memory-mapped registers. The
    /// first one contains an index which defines the meaning of the
    /// three others.
    index: u8,
    /// Command parameter FIFO
    host_params: Fifo,
    /// Command response FIFO
    host_response: Fifo,
    /// Pending command number, if any
    command: Option<u8>,
    /// Interrupt flag (5 bits). The low 3 bits are the sub-CPU
    /// interrupt code.
    irq_flags: u8,
    /// Interrupt mask (5 bits)
    irq_mask: u8,
    /// Data RX buffer
    rx_buffer: Vec<u8>,
    /// This bit is set when the program wants to read sector
    /// data. It's automatically cleared when all the sector has been
    /// read but it can also be cleared by writing to the config
    /// register directly.
    rx_active: bool,
    /// Sub-CPU state
    sub_cpu: SubCpu,
    /// Index of the next byte to be read in the RX sector
    rx_index: u16,
    /// Index of the last valid byte in the RX sector
    rx_len: u16,
    /// Variable holding the CD read state
    read_state: ReadState,
    /// True if a sector has been read but not yet notified
    read_pending: bool,
    /// Currently loaded disc or None if no disc is present
    disc: Option<Disc>,
    /// Target of the next seek command
    seek_target: Msf,
    /// True if `seek_target` has been set but no seek took place
    seek_target_pending: bool,
    /// Current read position
    position: Msf,
    /// If true the drive is in double speed mode (2x, 150 sectors per
    /// second), otherwise we're in the default 1x (75 sectors per
    /// second).
    double_speed: bool,
    /// If true Send ADPCM samples to the SPU
    xa_adpcm_to_spu: bool,
    /// If true we read the whole sector except for the sync bytes
    /// (0x924 bytes), otherwise it only reads 0x800 bytes.
    read_whole_sector: bool,
    /// Not sure what this does exactly, apparently it overrides the
    /// normal sector size.
    sector_size_override: bool,
    /// Enable CD-DA mode to play Redbook Audio tracks
    cdda_mode: bool,
    /// If true automatically pause at the end of the track
    autopause: bool,
    /// If true the controller will generate interrupts for each
    /// sector while playing CD-DA tracks.
    report_interrupts: bool,
    /// True if the ADPCM filter is enabled
    filter_enabled: bool,
    /// If ADPCM filtering is enabled only sectors with this file
    /// number are processed
    filter_file: u8,
    /// If ADPCM filtering is enabled only sectors with this channel
    /// number are processed
    filter_channel: u8,
    /// CDROM audio mixer connected to the SPU
    mixer: Mixer,
    /// PRNG to simulate the pseudo-random CD controller timings (from
    /// the host's perspective)
    rand: SimpleRand,
    /// Sector supplied by the frontend for the next read, with its
    /// position
    next_sector: Option<(Msf, Sector)>,
    /// Q subchannel position of the last sector read
    last_q: [u8; 8],
}

impl View for CdRom {
    type V = CdRomView;

    closed spec fn view(&self) -> CdRomView {
        CdRomView {
            index: self.index,
            host_params: self.host_params@,
            host_response: self.host_response@,
            command: self.command,
            irq_flags: self.irq_flags,
            irq_mask: self.irq_mask,
            rx_buffer: self.rx_buffer@,
            rx_active: self.rx_active,
            sub_cpu: self.sub_cpu@,
            rx_index: self.rx_index,
            rx_len: self.rx_len,
            read_state: self.read_state,
            read_pending: self.read_pending,
            disc: self.disc,
            seek_target: self.seek_target.fields(),
            seek_target_pending: self.seek_target_pending,
            position: self.position.fields(),
            double_speed: self.double_speed,
            xa_adpcm_to_spu: self.xa_adpcm_to_spu,
            read_whole_sector: self.read_whole_sector,
            sector_size_override: self.sector_size_override,
            cdda_mode: self.cdda_mode,
            autopause: self.autopause,
            report_interrupts: self.report_interrupts,
            filter_enabled: self.filter_enabled,
            filter_file: self.filter_file,
            filter_channel: self.filter_channel,
            mixer: self.mixer,
            rand: self.rand.state(),
            next_sector: match self.next_sector {
                Some((m, s)) => Some((m.fields(), s@)),
                None => None,
            },
            last_q: self.last_q@,
        }
    }
}

/// The world seen from the controller and the shared state
pub open spec fn world(c: CdRomView, s: SharedState) -> CdWorld {
    CdWorld { cd: c, tk: s.time().tk_view(), irq: s.irq() }
}

/// The shared state can take a synchronization of the controller
pub open spec fn shared_ok(s: SharedState) -> bool {
    s.time().wf() && s.time().date() <= crate::memory::timers::MAX_DATE
}

/// Parameters that form a valid BCD timestamp
fn msf_checked(m: u8, s: u8, f: u8) -> (r: bool)
    ensures
        r == msf_valid(m, s, f),
{
    m <= 0x99 && m & 0xf <= 9 && s <= 0x99 && s & 0xf <= 9 && f <= 0x99 && f & 0xf <= 9 && s < 0x60
        && f < 0x75
}

impl CdRom {
    #[verifier::spinoff_prover]
    pub fn new(disc: Option<Disc>) -> (c: CdRom)
        ensures
            cd_wf(c@),
            c@.disc == disc,
            c@.index == 0,
            c@.host_params == fifo_cleared(),
            c@.host_response == fifo_cleared(),
            c@.command is None,
            c@.irq_flags == 0,
            c@.irq_mask == 0,
            !c@.rx_active,
            c@.sub_cpu.sequence == SubCpuSequence::Idle,
            c@.sub_cpu.async_response is None,
            c@.rx_index == 0,
            c@.rx_len == 0,
            c@.read_state == ReadState::Idle,
            !c@.read_pending,
            c@.seek_target == (0u8, 0u8, 0u8),
            !c@.seek_target_pending,
            c@.position == (0u8, 0u8, 0u8),
            !c@.double_speed && !c@.xa_adpcm_to_spu && c@.read_whole_sector,
            !c@.sector_size_override && !c@.cdda_mode && !c@.autopause,
            !c@.report_interrupts && !c@.filter_enabled,
            c@.filter_file == 0 && c@.filter_channel == 0,
            c@.next_sector is None,
    {
        let c = CdRom {
            index: 0,
            host_params: Fifo::new(),
            host_response: Fifo::new(),
            command: None,
            irq_flags: 0,
            irq_mask: 0,
            rx_buffer: vec![0u8; RX_BUFFER_SIZE],
            rx_active: false,
            sub_cpu: SubCpu::new(),
            rx_index: 0,
            rx_len: 0,
            read_state: ReadState::Idle,
            read_pending: false,
            disc: disc,
            seek_target: Msf::zero(),
            seek_target_pending: false,
            position: Msf::zero(),
            double_speed: false,
            xa_adpcm_to_spu: false,
            read_whole_sector: true,
            sector_size_override: false,
            cdda_mode: false,
            autopause: false,
            report_interrupts: false,
            filter_enabled: false,
            filter_file: 0,
            filter_channel: 0,
            mixer: Mixer {
                cd_left_to_spu_left: 0,
                cd_left_to_spu_right: 0,
                cd_right_to_spu_left: 0,
                cd_right_to_spu_right: 0,
            },
            rand: SimpleRand::new(),
            next_sector: None,
            last_q: [0u8; 8],
        };
        proof {
            lemma_fifo_wf(fifo_cleared(), 0);
            lemma_wf_intro(c@);
        }
        c
    }

    /// Replace the disc, returns the old value. This is mostly meant
    /// to replace the disc when loading savestates, not emulating a
    /// real disc swap.
    #[verifier::spinoff_prover]
    pub fn set_disc(&mut self, disc: Option<Disc>) -> (r: Option<Disc>)
        requires
            cd_wf(old(self)@),
        ensures
            cd_wf(final(self)@),
            r == old(self)@.disc,
            final(self)@ == (CdRomView { disc: disc, ..old(self)@ }),
    {
        proof {
            lemma_wf_facts(old(self)@);
        }
        proof {
            lemma_wf_facts(old(self)@);
        }
        let old_disc = self.disc;
        self.disc = disc;
        proof {
            lemma_wf_intro(self@);
        }
        old_disc
    }

    /// Remove the disc. Returns the disc instance, if any.
    #[verifier::spinoff_prover]
    pub fn remove_disc(&mut self) -> (r: Option<Disc>)
        requires
            cd_wf(old(self)@),
        ensures
            cd_wf(final(self)@),
            r == old(self)@.disc,
            final(self)@ == (CdRomView { disc: None, ..old(self)@ }),
    {
        proof {
            lemma_wf_facts(old(self)@);
        }
        self.set_disc(None)
    }

    /// Position of the sector the drive will read next, when the drive
    /// is reading and that sector has not been supplied yet
    #[verifier::spinoff_prover]
    pub fn wanted_sector(&self) -> (r: Option<Msf>)
        ensures
            r is Some <==> reading(self@) && !sector_supplied(self@),
            r matches Some(m) ==> m.fields() == self@.position,
    {
        match self.read_state {
            ReadState::Idle => None,
            ReadState::Reading(_) => {
                match &self.next_sector {
                    Some((m, _)) => {
                        proof {
                            m.lemma_fields_eq(self.position);
                        }
                        if *m == self.position {
                            None
                        } else {
                            Some(self.position)
                        }
                    },
                    None => Some(self.position),
                }
            },
        }
    }

    /// Hand over the sector at `msf` for the next read
    #[verifier::spinoff_prover]
    pub fn supply_sector(&mut self, msf: Msf, sector: Sector)
        requires
            cd_wf(old(self)@),
            msf.wf(),
            sector_wf(sector@),
        ensures
            cd_wf(final(self)@),
            final(self)@ == (CdRomView { next_sector: Some((msf.fields(), sector@)), ..old(self)@ }),
    {
        proof {
            lemma_wf_facts(old(self)@);
        }
        self.next_sector = Some((msf, sector));
        proof {
            lemma_wf_intro(self@);
        }
    }

    /// Assembles the first status byte returned by many commands
    #[verifier::spinoff_prover]
    fn drive_status(&self) -> (r: u8)
        ensures
            r == drive_status(self@),
    {
        match self.disc {
            // XXX on the real hardware bit 4 is always set the first
            // time this command is called even if the console is
            // booted with the tray closed. Using the "get_stat"
            // command command clears it however.
            Some(_) => {
                let reading = match self.read_state {
                    ReadState::Idle => false,
                    ReadState::Reading(_) => true,
                };
                // Motor on
                let r: u8 = 0x02;
                r | (if reading {
                    0x20u8
                } else {
                    0u8
                })
            },
            // No disc, pretend that the shell is open (bit 4)
            None => 0x10,
        }
    }

    /// HSTS register read
    #[verifier::spinoff_prover]
    fn host_status(&self) -> (r: u8)
        ensures
            r == host_status(self@),
    {
        let mut r = self.index;
        // TODO: ADPCM busy (ADPBUSY)
        // Parameter empty (PRMEMPT)
        r = r | (if self.host_params.is_empty() {
            0x08u8
        } else {
            0
        });
        // Parameter write ready (PRMWRDY)
        r = r | (if !self.host_params.is_full() {
            0x10u8
        } else {
            0
        });
        // Result read ready (RSLRRDY)
        r = r | (if !self.host_response.is_empty() {
            0x20u8
        } else {
            0
        });
        // Data request status (DRQSTS)
        let data_available = self.rx_index < self.rx_len;
        r = r | (if data_available {
            0x40u8
        } else {
            0
        });
        // "Busy" flag (BUSYSTS).
        //
        // The CXD1199AQ datasheet says it's set high when we write to
        // the command register and it's cleared when the sub-CPU
        // asserts the CLRBUSY signal.
        r = r | (if self.sub_cpu.is_busy() {
            0x80u8
        } else {
            0
        });
        r
    }

    /// Return the state of the interrupt line
    #[verifier::spinoff_prover]
    fn irq(&self) -> (r: bool)
        ensures
            r == irq_line(self@),
    {
        self.irq_flags & self.irq_mask != 0
    }

    /// Return the number of CPU cycles needed to read a single sector
    /// depending on the current drive speed. The PSX drive can read
    /// 75 sectors per second at 1x or 150sectors per second at 2x.
    #[verifier::spinoff_prover]
    fn cycles_per_sector(&self) -> (r: u32)
        ensures
            r == cycles_per_sector(self@),
    {
        // 1x speed: 75 sectors per second
        let cycles_1x = CPU_FREQ_HZ / 75;
        if self.double_speed {
            cycles_1x / 2
        } else {
            cycles_1x
        }
    }
}

/// A successful handler leaves the command, the sequence, its timer
/// and the interrupt flags alone
pub open spec fn kept(r: Result<(), CdError>, a: CdRomView, b: CdRomView) -> bool {
    r is Ok ==> (b.command == a.command && b.sub_cpu.sequence == a.sub_cpu.sequence && b.irq_flags
        == a.irq_flags && b.sub_cpu.timer == a.sub_cpu.timer)
}

/// Result of a handler run on `old`, as the controller holds it in `new`
pub open spec fn handled(spec_r: Result<CdRomView, CdError>, r: Result<(), CdError>, new: CdRomView) -> bool {
    match r {
        Ok(_) => spec_r == Ok::<CdRomView, CdError>(new) && cd_wf(new),
        Err(e) => spec_r == Err::<CdRomView, CdError>(e),
    }
}

impl CdRom {
    /// Push a response byte
    #[verifier::spinoff_prover]
    fn respond(&mut self, b: u8)
        requires
            cd_wf(old(self)@),
        ensures
            cd_wf(final(self)@),
            final(self)@ == respond(old(self)@, b),
    {
        proof {
            lemma_wf_facts(old(self)@);
        }
        self.sub_cpu.response.push(b);
        proof {
            lemma_wf_intro(self@);
        }
    }

    /// Push the response bytes `s`
    #[verifier::spinoff_prover]
    fn respond_all(&mut self, s: &[u8])
        requires
            cd_wf(old(self)@),
        ensures
            cd_wf(final(self)@),
            final(self)@ == respond_all(old(self)@, s@),
    {
        proof {
            lemma_wf_facts(old(self)@);
        }
        self.sub_cpu.response.push_slice(s);
        proof {
            lemma_wf_intro(self@);
        }
    }

    /// Respond with the drive status
    #[verifier::spinoff_prover]
    fn respond_status(&mut self)
        requires
            cd_wf(old(self)@),
        ensures
            cd_wf(final(self)@),
            final(self)@ == respond_status(old(self)@),
    {
        proof {
            lemma_wf_facts(old(self)@);
        }
        let status = self.drive_status();
        self.respond(status);
    }

    /// Pop a command parameter
    #[verifier::spinoff_prover]
    fn pop_param(&mut self) -> (r: u8)
        requires
            cd_wf(old(self)@),
        ensures
            cd_wf(final(self)@),
            final(self)@ == pop_param(old(self)@),
            r == param(old(self)@),
    {
        proof {
            lemma_wf_facts(old(self)@);
        }
        let r = self.sub_cpu.params.pop();
        proof {
            lemma_wf_intro(self@);
        }
        r
    }

    #[verifier::spinoff_prover]
    fn schedule_async_response(&mut self, delay: u32, handler: AsyncResponse) -> (r: Result<(), CdError>)
        requires
            cd_wf(old(self)@),
        ensures
            handled(schedule_async(old(self)@, delay, handler), r, final(self)@),
            kept(r, old(self)@, final(self)@),
    {
        proof {
            lemma_wf_facts(old(self)@);
        }
        if self.sub_cpu.async_response.is_some() {
            return Err(CdError::AsyncPending);
        }
        self.sub_cpu.async_response = Some((delay, handler));
        proof {
            lemma_wf_intro(self@);
        }
        Ok(())
    }

    /// Execute a pending seek (if any). On the real console that
    /// would mean physically moving the read head.
    #[verifier::spinoff_prover]
    fn do_seek(&mut self) -> (r: Result<(), CdError>)
        requires
            cd_wf(old(self)@),
        ensures
            handled(do_seek(old(self)@), r, final(self)@),
            kept(r, old(self)@, final(self)@),
    {
        proof {
            lemma_wf_facts(old(self)@);
        }
        // Make sure we don't end up in track1's pregap, I don't know
        // if it's ever useful? Needs special handling at least...
        if self.seek_target.sector_index() < 150 {
            return Err(CdError::SeekToPregap);
        }
        self.position = self.seek_target;
        self.seek_target_pending = false;
        proof {
            lemma_wf_intro(self@);
        }
        Ok(())
    }

    /// Read the drive's status byte (also Mute and Demute)
    #[verifier::spinoff_prover]
    fn cmd_get_stat(&mut self)
        requires
            cd_wf(old(self)@),
        ensures
            handled(run_handler(old(self)@, 0x01), Ok(()), final(self)@),
            kept(Ok(()), old(self)@, final(self)@),
    {
        proof {
            lemma_wf_facts(old(self)@);
        }
        proof {
            reveal(run_handler);
        }
        self.respond_status();
    }

    /// Tell the CDROM controller where the next seek should take us
    /// (but do not physically perform the seek yet)
    #[verifier::spinoff_prover]
    fn cmd_set_loc(&mut self) -> (r: Result<(), CdError>)
        requires
            cd_wf(old(self)@),
        ensures
            handled(run_handler(old(self)@, 0x02), r, final(self)@),
            kept(r, old(self)@, final(self)@),
    {
        proof {
            lemma_wf_facts(old(self)@);
        }
        proof {
            reveal(run_handler);
        }
        // Parameters are in BCD.
        let m = self.pop_param();
        let s = self.pop_param();
        let f = self.pop_param();
        if !msf_checked(m, s, f) {
            // XXX: what happens if invalid BCD is used?
            return Err(CdError::InvalidMsf(m, s, f));
        }
        let ghost prev = self@;
        self.seek_target = Msf::from_bcd(m, s, f);
        self.seek_target_pending = true;
        proof {
            lemma_wf_facts(prev);
            lemma_wf_intro(self@);
        }
        self.respond_status();
        Ok(())
    }

    /// Start data read sequence. This is the implementation for both
    /// ReadN and ReadS, apparently the only difference between the
    /// two is that ReadN will retry in case of an error while ReadS
    /// will continue to the next sector (useful for streaming
    /// audio/movies). In our emulator we'll just pretend no error
    /// ever occurs.
    #[verifier::spinoff_prover]
    #[verifier::rlimit(50)]
    fn cmd_read(&mut self) -> (r: Result<(), CdError>)
        requires
            cd_wf(old(self)@),
        ensures
            handled(run_handler(old(self)@, 0x06), r, final(self)@),
            kept(r, old(self)@, final(self)@),
    {
        proof {
            lemma_wf_facts(old(self)@);
        }
        proof {
            reveal(run_handler);
        }
        if self.seek_target_pending {
            // XXX That should take some time...
            let r = self.do_seek();
            if r.is_err() {
                return r;
            }
        }
        let ghost prev = self@;
        let read_delay = self.cycles_per_sector();
        self.read_state = ReadState::Reading(read_delay);
        proof {
            lemma_wf_facts(prev);
            lemma_wf_intro(self@);
        }
        self.respond_status();
        Ok(())
    }

    /// Stop reading sectors but remain at the same position on the
    /// disc
    #[verifier::spinoff_prover]
    #[verifier::rlimit(60)]
    fn cmd_pause(&mut self) -> (r: Result<(), CdError>)
        requires
            cd_wf(old(self)@),
        ensures
            handled(run_handler(old(self)@, 0x09), r, final(self)@),
            kept(r, old(self)@, final(self)@),
    {
        proof {
            lemma_wf_facts(old(self)@);
        }
        proof {
            reveal(run_handler);
        }
        self.respond_status();
        let ghost prev = self@;
        self.read_state = ReadState::Idle;
        proof {
            lemma_wf_facts(prev);
            lemma_wf_intro(self@);
        }
        // The read state was just set to idle, which gives the short
        // delay
        self.schedule_async_response(9000, AsyncResponse::Pause)
    }

    /// Reinitialize the CD ROM controller
    #[verifier::spinoff_prover]
    fn cmd_init(&mut self) -> (r: Result<(), CdError>)
        requires
            cd_wf(old(self)@),
        ensures
            handled(run_handler(old(self)@, 0x0a), r, final(self)@),
            kept(r, old(self)@, final(self)@),
    {
        proof {
            lemma_wf_facts(old(self)@);
        }
        proof {
            reveal(run_handler);
        }
        self.respond_status();
        let ghost prev = self@;
        // XXX I think? Needs testing
        self.read_state = ReadState::Idle;
        self.read_pending = false;
        proof {
            lemma_wf_facts(prev);
            lemma_wf_intro(self@);
        }
        self.schedule_async_response(900_000, AsyncResponse::Init)
    }

    /// Filter for ADPCM sectors
    #[verifier::spinoff_prover]
    fn cmd_set_filter(&mut self)
        requires
            cd_wf(old(self)@),
        ensures
            handled(run_handler(old(self)@, 0x0d), Ok(()), final(self)@),
            kept(Ok(()), old(self)@, final(self)@),
    {
        proof {
            lemma_wf_facts(old(self)@);
        }
        proof {
            reveal(run_handler);
        }
        let file = self.pop_param();
        let channel = self.pop_param();
        let ghost prev = self@;
        self.filter_file = file;
        self.filter_channel = channel;
        proof {
            lemma_wf_facts(prev);
            lemma_wf_intro(self@);
        }
        self.respond_status();
    }

    /// Configure the behaviour of the CDROM drive
    #[verifier::spinoff_prover]
    fn cmd_set_mode(&mut self) -> (r: Result<(), CdError>)
        requires
            cd_wf(old(self)@),
        ensures
            handled(run_handler(old(self)@, 0x0e), r, final(self)@),
            kept(r, old(self)@, final(self)@),
    {
        proof {
            lemma_wf_facts(old(self)@);
        }
        proof {
            reveal(run_handler);
        }
        let mode = self.pop_param();
        let ghost prev = self@;
        self.double_speed = mode & 0x80 != 0;
        self.xa_adpcm_to_spu = mode & 0x40 != 0;
        self.read_whole_sector = mode & 0x20 != 0;
        self.sector_size_override = mode & 0x10 != 0;
        self.filter_enabled = mode & 0x08 != 0;
        self.report_interrupts = mode & 0x04 != 0;
        self.autopause = mode & 0x02 != 0;
        self.cdda_mode = mode & 0x01 != 0;
        proof {
            lemma_wf_facts(prev);
            lemma_wf_intro(self@);
        }
        if self.cdda_mode || self.autopause || self.report_interrupts || self.sector_size_override {
            return Err(CdError::UnhandledMode(mode));
        }
        self.respond_status();
        Ok(())
    }

    /// Return various parameters of the CDROM controller
    #[verifier::spinoff_prover]
    fn cmd_get_param(&mut self)
        requires
            cd_wf(old(self)@),
        ensures
            handled(run_handler(old(self)@, 0x0f), Ok(()), final(self)@),
            kept(Ok(()), old(self)@, final(self)@),
    {
        proof {
            lemma_wf_facts(old(self)@);
        }
        proof {
            reveal(run_handler);
        }
        let mut mode: u8 = if self.double_speed { 0x80u8 } else { 0 };
        mode = mode | if self.xa_adpcm_to_spu { 0x40u8 } else { 0 };
        mode = mode | if self.read_whole_sector { 0x20u8 } else { 0 };
        mode = mode | if self.sector_size_override { 0x10u8 } else { 0 };
        mode = mode | if self.filter_enabled { 0x08u8 } else { 0 };
        mode = mode | if self.report_interrupts { 0x04u8 } else { 0 };
        mode = mode | if self.autopause { 0x02u8 } else { 0 };
        mode = mode | if self.cdda_mode { 0x01u8 } else { 0 };
        let response = [
            self.drive_status(),
            mode,
            // Apparently always 0
            0,
            self.filter_file,
            self.filter_channel,
        ];
        self.respond_all(&response);
        assert(response@ =~= seq![drive_status(old(self)@), mode_byte(old(self)@), 0u8, old(self)@.filter_file, old(self)@.filter_channel]);
    }

    /// Get the current position of the drive head by returning the
    /// contents of the Q subchannel of the last sector read
    #[verifier::spinoff_prover]
    fn cmd_get_loc_p(&mut self) -> (r: Result<(), CdError>)
        requires
            cd_wf(old(self)@),
        ensures
            handled(run_handler(old(self)@, 0x11), r, final(self)@),
            kept(r, old(self)@, final(self)@),
    {
        proof {
            lemma_wf_facts(old(self)@);
        }
        proof {
            reveal(run_handler);
        }
        if self.position.sector_index() < 150 {
            // The values returned in the track 01 pregap are strange,
            // The absolute MSF seems correct but the track MSF looks
            // like garbage.
            return Err(CdError::GetLocInPregap);
        }
        let q = self.last_q;
        self.respond_all(&q);
        Ok(())
    }

    /// Execute seek. Target is given by previous "set loc" command.
    #[verifier::spinoff_prover]
    fn cmd_seek_l(&mut self) -> (r: Result<(), CdError>)
        requires
            cd_wf(old(self)@),
        ensures
            handled(run_handler(old(self)@, 0x15), r, final(self)@),
            kept(r, old(self)@, final(self)@),
    {
        proof {
            lemma_wf_facts(old(self)@);
        }
        proof {
            reveal(run_handler);
        }
        let r = self.do_seek();
        if r.is_err() {
            return r;
        }
        self.respond_status();
        // XXX the delay for the async response is tied to the time it
        // takes for the reading head to physically seek on the disc.
        self.schedule_async_response(1_000_000, AsyncResponse::SeekL)
    }

    /// The test command can do a whole bunch of stuff, the first
    /// parameter says what
    #[verifier::spinoff_prover]
    fn cmd_test(&mut self) -> (r: Result<(), CdError>)
        requires
            cd_wf(old(self)@),
        ensures
            handled(run_handler(old(self)@, 0x19), r, final(self)@),
            kept(r, old(self)@, final(self)@),
    {
        proof {
            lemma_wf_facts(old(self)@);
        }
        proof {
            reveal(run_handler);
        }
        let sub = self.pop_param();
        if sub == 0x20 {
            self.test_version();
            Ok(())
        } else {
            Err(CdError::UnhandledTest(sub))
        }
    }

    /// Read the CD controller's internal version number
    #[verifier::spinoff_prover]
    fn test_version(&mut self)
        requires
            cd_wf(old(self)@),
        ensures
            cd_wf(final(self)@),
            final(self)@ == respond_all(old(self)@, seq![0x98u8, 0x06, 0x10, 0xc3]),
    {
        proof {
            lemma_wf_facts(old(self)@);
        }
        // Values returned by a PAL SCPH-7502 console: year, month,
        // day, version
        let v: [u8; 4] = [0x98, 0x06, 0x10, 0xc3];
        self.respond_all(&v);
        assert(v@ =~= seq![0x98u8, 0x06, 0x10, 0xc3]);
    }

    /// Read the CD-ROM's identification string. This is how the BIOS
    /// checks that the disc is an official PlayStation disc (and not
    /// a copy) and handles region locking.
    #[verifier::spinoff_prover]
    #[verifier::rlimit(40)]
    fn cmd_get_id(&mut self) -> (r: Result<(), CdError>)
        requires
            cd_wf(old(self)@),
        ensures
            handled(run_handler(old(self)@, 0x1a), r, final(self)@),
            kept(r, old(self)@, final(self)@),
    {
        proof {
            lemma_wf_facts(old(self)@);
        }
        proof {
            reveal(run_handler);
        }
        if self.disc.is_some() {
            self.respond_status();
            self.schedule_async_response(GET_ID_ASYNC, AsyncResponse::GetId)
        } else {
            self.get_id_no_disc();
            Ok(())
        }
    }

    /// GetId response without a disc: pretend the shell is open
    #[verifier::spinoff_prover]
    fn get_id_no_disc(&mut self)
        requires
            cd_wf(old(self)@),
        ensures
            cd_wf(final(self)@),
            final(self)@ == shell_open_id(old(self)@),
    {
        proof {
            lemma_wf_facts(old(self)@);
        }
        let v: [u8; 2] = [0x11, 0x80];
        assert(v@ =~= seq![0x11u8, 0x80]);
        self.respond_all(&v);
        let ghost c1 = self@;
        self.sub_cpu.irq_code = IrqCode::Error;
        proof {
            lemma_wf_facts(c1);
            lemma_wf_intro(self@);
        }
        assert(self@ == with_sub(c1, SubCpuView { irq_code: IrqCode::Error, ..c1.sub_cpu }));
    }

    /// Instruct the CD drive to read the table of contents
    #[verifier::spinoff_prover]
    fn cmd_read_toc(&mut self) -> (r: Result<(), CdError>)
        requires
            cd_wf(old(self)@),
        ensures
            handled(run_handler(old(self)@, 0x1e), r, final(self)@),
            kept(r, old(self)@, final(self)@),
    {
        proof {
            lemma_wf_facts(old(self)@);
        }
        proof {
            reveal(run_handler);
        }
        self.respond_status();
        // XXX should probably stop ReadN/S
        self.schedule_async_response(READ_TOC_ASYNC, AsyncResponse::ReadToc)
    }

    /// Run the pending command
    #[verifier::spinoff_prover]
    fn execute_command(&mut self) -> (r: Result<(), CdError>)
        requires
            cd_wf(old(self)@),
            old(self)@.command is Some,
        ensures
            handled(execute_command(old(self)@), r, final(self)@),
            kept(r, old(self)@, final(self)@),
    {
        proof {
            lemma_wf_facts(old(self)@);
        }
        proof {
            reveal(execute_command);
            reveal(run_handler);
        }
        let cmd = match self.command {
            Some(c) => c,
            None => 0,
        };
        let (min_param, max_param): (u8, u8) = if cmd == 0x02 {
            (3, 3)
        } else if cmd == 0x0d {
            (2, 2)
        } else if cmd == 0x0e || cmd == 0x19 {
            (1, 1)
        } else if cmd == 0x01 || cmd == 0x06 || cmd == 0x09 || cmd == 0x0a || cmd == 0x0b || cmd
            == 0x0c || cmd == 0x0f || cmd == 0x11 || cmd == 0x15 || cmd == 0x1a || cmd == 0x1b
            || cmd == 0x1e {
            (0, 0)
        } else {
            return Err(CdError::UnhandledCommand(cmd));
        };
        let nparams = self.sub_cpu.params.len();
        if nparams < min_param || nparams > max_param {
            return Err(CdError::WrongParamCount(cmd, nparams));
        }
        if cmd == 0x01 || cmd == 0x0b || cmd == 0x0c {
            self.cmd_get_stat();
            Ok(())
        } else if cmd == 0x02 {
            self.cmd_set_loc()
        } else if cmd == 0x06 || cmd == 0x1b {
            self.cmd_read()
        } else if cmd == 0x09 {
            self.cmd_pause()
        } else if cmd == 0x0a {
            self.cmd_init()
        } else if cmd == 0x0d {
            self.cmd_set_filter();
            Ok(())
        } else if cmd == 0x0e {
            self.cmd_set_mode()
        } else if cmd == 0x0f {
            self.cmd_get_param();
            Ok(())
        } else if cmd == 0x11 {
            self.cmd_get_loc_p()
        } else if cmd == 0x15 {
            self.cmd_seek_l()
        } else if cmd == 0x19 {
            self.cmd_test()
        } else if cmd == 0x1a {
            self.cmd_get_id()
        } else {
            self.cmd_read_toc()
        }
    }

    /// Run the asynchronous response handler `h`; returns the delay
    /// before the response transfer
    #[verifier::spinoff_prover]
    fn run_async(&mut self, h: AsyncResponse) -> (r: Result<u32, CdError>)
        requires
            cd_wf(old(self)@),
        ensures
            match r {
                Ok(delay) => run_async(old(self)@, h) == Ok::<(CdRomView, u32), CdError>(
                    (final(self)@, delay),
                ) && cd_wf(final(self)@),
                Err(e) => run_async(old(self)@, h) == Err::<(CdRomView, u32), CdError>(e),
            },
            r matches Ok(delay) ==> delay > 0 && final(self)@.irq_flags == old(self)@.irq_flags
                && final(self)@.sub_cpu.sequence == old(self)@.sub_cpu.sequence
                && final(self)@.command == old(self)@.command,
    {
        proof {
            lemma_wf_facts(old(self)@);
        }
        proof {
            reveal(run_async);
        }
        match h {
            AsyncResponse::Pause => {
                self.respond_status();
                Ok(PAUSE_RX_PUSH)
            },
            AsyncResponse::Init => {
                self.respond_status();
                let ghost prev = self@;
                self.position = Msf::zero();
                self.seek_target = Msf::zero();
                self.read_state = ReadState::Idle;
                self.double_speed = false;
                self.xa_adpcm_to_spu = false;
                self.read_whole_sector = true;
                self.sector_size_override = false;
                self.filter_enabled = false;
                self.report_interrupts = false;
                self.autopause = false;
                self.cdda_mode = false;
                proof {
                    lemma_wf_facts(prev);
                    lemma_wf_intro(self@);
                }
                Ok(INIT_RX_PUSH)
            },
            AsyncResponse::SeekL => {
                self.respond_status();
                Ok(SEEK_L_RX_PUSH)
            },
            AsyncResponse::ReadToc => {
                self.respond_status();
                Ok(READ_TOC_RX_PUSH)
            },
            AsyncResponse::GetId => {
                let region = match self.disc {
                    Some(d) => d.region(),
                    None => {
                        return Err(CdError::NoDisc);
                    },
                };
                let letter: u8 = match region {
                    Region::Japan => 0x49,
                    Region::NorthAmerica => 0x41,
                    Region::Europe => 0x45,
                };
                let response = [
                    // Status + bit 3 if unlicensed/audio
                    self.drive_status(),
                    // Licensed, not audio, not missing
                    0x00,
                    // Disc type (mode2 apparently?)
                    0x20,
                    // 8bit ATIP from Point=C0h, if session info exists
                    0x00,
                    // Region string: "SCEI" for japan, "SCEE" for
                    // Europe and "SCEA" for US.
                    0x53,
                    0x43,
                    0x45,
                    letter,
                ];
                self.respond_all(&response);
                proof {
                    let d = old(self)@.disc->0;
                    assert(response@ =~= seq![
                        drive_status(old(self)@),
                        0x00u8,
                        0x20,
                        0x00,
                        0x53,
                        0x43,
                        0x45,
                        region_letter(d.spec_region())
                    ]);
                }
                Ok(GET_ID_RX_PUSH)
            },
        }
    }
}

/// Result of a step of the controller on the world, as the controller
/// and the shared state hold it
pub open spec fn world_handled(
    spec_r: Result<CdWorld, CdError>,
    r: Result<(), CdError>,
    new: CdRomView,
    new_s: SharedState,
    old_s: SharedState,
) -> bool {
    match r {
        Ok(_) => spec_r == Ok::<CdWorld, CdError>(world(new, new_s)) && cd_wf(new) && shared_ok(new_s)
            && new_s.counter_values() == old_s.counter_values(),
        Err(e) => spec_r == Err::<CdWorld, CdError>(e),
    }
}

impl CdRom {
    /// Schedule the next synchronization
    #[verifier::spinoff_prover]
    fn predict_next_sync(&self, shared: &mut SharedState)
        requires
            cd_wf(self@),
            shared_ok(*old(shared)),
        ensures
            shared_ok(*final(shared)),
            world(self@, *final(shared)) == predict(world(self@, *old(shared))),
            final(shared).counter_values() == old(shared).counter_values(),
    {
        proof {
            lemma_wf_facts(self@);
        }
        proof {
            reveal(predicted);
        }
        shared.tk().no_sync_needed(Peripheral::CdRom);
        if self.sub_cpu.in_command() {
            // Force a sync at the next step.
            let delta = self.sub_cpu.timer as Cycles;
            shared.tk().set_next_sync_delta(Peripheral::CdRom, delta);
        } else if self.irq_flags == 0 {
            // If no command or interrupt is pending we'll want to
            // sync at the next async response
            if let Some((delay, _)) = self.sub_cpu.async_response {
                let delta = delay as Cycles;
                shared.tk().set_next_sync_delta(Peripheral::CdRom, delta);
            }
        }
        if let ReadState::Reading(delay) = self.read_state {
            shared.tk().set_next_sync_delta_if_sooner(Peripheral::CdRom, delay as Cycles);
        }
    }

    /// Trigger an interrupt and check if it must be sent to the main
    /// interrupt controller
    #[verifier::spinoff_prover]
    fn trigger_irq(&mut self, shared: &mut SharedState, irq: IrqCode)
        requires
            cd_wf(old(self)@),
            old(self)@.sub_cpu.sequence == SubCpuSequence::Idle,
            shared_ok(*old(shared)),
        ensures
            cd_wf(final(self)@),
            shared_ok(*final(shared)),
            world(final(self)@, *final(shared)) == trigger_irq(world(old(self)@, *old(shared)), irq),
            final(shared).counter_values() == old(shared).counter_values(),
    {
        proof {
            lemma_wf_facts(old(self)@);
            reveal(trigger_irq);
        }
        let ghost w0 = world(old(self)@, *old(shared));
        let code: u8 = match irq {
            IrqCode::SectorReady => 1,
            IrqCode::AsyncOk => 2,
            IrqCode::CommandOk => 3,
            IrqCode::Error => 5,
        };
        self.irq_flags = code;
        proof {
            lemma_wf_intro(self@);
        }
        let ghost c1 = self@;
        assert(c1 == CdRomView { irq_flags: irq_code_value(irq), ..w0.cd });
        if self.irq() {
            // Interrupt rising edge
            shared.irq_state_mut().raise(Interrupt::CdRom);
        }
        assert(world(self@, *shared) == trigger_irq(w0, irq));
    }

    /// Start the command sequence if a command is pending and the
    /// preconditions are met
    #[verifier::spinoff_prover]
    fn maybe_start_command(&mut self, shared: &mut SharedState) -> (r: Result<(), CdError>)
        requires
            cd_wf(old(self)@),
            shared_ok(*old(shared)),
        ensures
            world_handled(
                maybe_start_command(world(old(self)@, *old(shared))),
                r,
                final(self)@,
                *final(shared),
                *old(shared),
            ),
    {
        proof {
            lemma_wf_facts(old(self)@);
        }
        proof {
            reveal(maybe_start_command);
        }
        // We have to wait until all interrupts have been acknowledged
        // before starting a new command. We also must make sure that
        // the sub-CPU is ready to accept it.
        if self.command.is_some() && self.irq_flags == 0 && !self.sub_cpu.in_command() {
            let r = self.start_command_sequence();
            if r.is_err() {
                return r;
            }
            self.predict_next_sync(shared);
        }
        Ok(())
    }

    /// Start the command sequence with the seemingly pseudo-random
    /// command pending delay
    #[verifier::spinoff_prover]
    fn start_command_sequence(&mut self) -> (r: Result<(), CdError>)
        requires
            cd_wf(old(self)@),
            sub_cpu_ready(old(self)@),
            old(self)@.command is Some,
        ensures
            handled(command_started(old(self)@), r, final(self)@),
    {
        proof {
            lemma_wf_facts(old(self)@);
        }
        let variation = self.rand.next() % COMMAND_PENDING_VARIATION;
        let timer = COMMAND_PENDING + variation;
        if self.sub_cpu.async_response.is_some() {
            return Err(CdError::AsyncPending);
        }
        self.sub_cpu.sequence = SubCpuSequence::CommandPending;
        self.sub_cpu.timer = timer;
        self.sub_cpu.params.clear();
        self.sub_cpu.response.clear();
        // Assume the command will be succesful, let the command
        // handler override that if something goes wrong.
        self.sub_cpu.irq_code = IrqCode::CommandOk;
        proof {
            lemma_wf_intro(self@);
        }
        Ok(())
    }

    /// Start the async response sequence if an async response is
    /// pending and the preconditions are met
    #[verifier::spinoff_prover]
    fn maybe_process_async_response(&mut self, shared: &mut SharedState) -> (r: Result<(), CdError>)
        requires
            cd_wf(old(self)@),
            shared_ok(*old(shared)),
        ensures
            world_handled(
                maybe_process_async(world(old(self)@, *old(shared))),
                r,
                final(self)@,
                *final(shared),
                *old(shared),
            ),
    {
        proof {
            lemma_wf_facts(old(self)@);
        }
        proof {
            reveal(maybe_process_async);
        }
        if let Some((delay, handler)) = self.sub_cpu.async_response {
            // The async response is ready, see if the sub-CPU is
            // ready to process it
            if delay == 0 && self.irq_flags == 0 && !self.sub_cpu.in_command() {
                let r = self.start_async(handler);
                if r.is_err() {
                    return r;
                }
                self.predict_next_sync(shared);
            }
        }
        Ok(())
    }

    /// Run the async handler and start the response transfer
    #[verifier::spinoff_prover]
    #[verifier::rlimit(100)]
    fn start_async(&mut self, handler: AsyncResponse) -> (r: Result<(), CdError>)
        requires
            cd_wf(old(self)@),
            sub_cpu_ready(old(self)@),
        ensures
            handled(async_started(old(self)@, handler), r, final(self)@),
    {
        proof {
            lemma_wf_facts(old(self)@);
        }
        let ghost c0 = self@;
        self.sub_cpu.async_response = None;
        self.sub_cpu.response.clear();
        // Assume it's going to be successful, let the handler
        // override that if necessary.
        self.sub_cpu.irq_code = IrqCode::AsyncOk;
        proof {
            lemma_wf_intro(self@);
        }
        assert(self@ == with_sub(
            c0,
            SubCpuView {
                async_response: None,
                response: fifo_cleared(),
                irq_code: IrqCode::AsyncOk,
                ..c0.sub_cpu
            },
        ));
        let rx_delay = match self.run_async(handler) {
            Ok(d) => d,
            Err(e) => {
                return Err(e);
            },
        };
        let ghost c3 = self@;
        self.sub_cpu.sequence = SubCpuSequence::AsyncRxPush;
        self.sub_cpu.timer = rx_delay;
        proof {
            lemma_wf_facts(c3);
            lemma_wf_intro(self@);
        }
        assert(self@ == goto(c3, SubCpuSequence::AsyncRxPush, rx_delay));
        Ok(())
    }

    /// Start the async read notification sequence if a sector read is
    /// pending and the preconditions are met
    #[verifier::spinoff_prover]
    fn maybe_notify_read(&mut self, shared: &mut SharedState)
        requires
            cd_wf(old(self)@),
            shared_ok(*old(shared)),
        ensures
            cd_wf(final(self)@),
            shared_ok(*final(shared)),
            world(final(self)@, *final(shared)) == maybe_notify_read(world(old(self)@, *old(shared))),
            final(shared).counter_values() == old(shared).counter_values(),
    {
        proof {
            lemma_wf_facts(old(self)@);
        }
        proof {
            reveal(maybe_notify_read);
        }
        if self.read_pending && self.irq_flags == 0 && !self.sub_cpu.in_command() {
            self.notify_read();
            self.predict_next_sync(shared);
        }
    }

    /// Start the notification of the sector read
    #[verifier::spinoff_prover]
    fn notify_read(&mut self)
        requires
            cd_wf(old(self)@),
            sub_cpu_ready(old(self)@),
        ensures
            cd_wf(final(self)@),
            final(self)@ == read_notified(old(self)@),
    {
        proof {
            lemma_wf_facts(old(self)@);
        }
        let status = self.drive_status();
        self.sub_cpu.response.clear();
        self.sub_cpu.irq_code = IrqCode::SectorReady;
        self.sub_cpu.response.push(status);
        self.sub_cpu.sequence = SubCpuSequence::AsyncRxPush;
        self.sub_cpu.timer = READ_RX_PUSH;
        self.read_pending = false;
        proof {
            lemma_wf_intro(self@);
        }
    }

    /// Move a response byte from the sub-CPU to the host and go on
    /// with the transfer, or end it
    #[verifier::spinoff_prover]
    #[verifier::rlimit(60)]
    fn step_response(&mut self, is_async: bool)
        requires
            cd_wf(old(self)@),
            is_async ==> old(self)@.sub_cpu.sequence == SubCpuSequence::AsyncRxPush,
            !is_async ==> old(self)@.sub_cpu.sequence == SubCpuSequence::RxFlush || old(self)@.sub_cpu.sequence
                == SubCpuSequence::RxPush,
        ensures
            cd_wf(final(self)@),
            final(self)@ == step_response(old(self)@, is_async),
    {
        proof {
            lemma_wf_facts(old(self)@);
        }
        let b = self.sub_cpu.response.pop();
        self.host_response.push(b);
        if self.sub_cpu.response.is_empty() {
            if is_async {
                // No busy flag for async transfer, we move on
                // directly to the IRQ delay
                self.sub_cpu.timer = IRQ_DELAY;
                self.sub_cpu.sequence = SubCpuSequence::IrqDelay;
            } else {
                self.sub_cpu.timer = BUSY_DELAY;
                self.sub_cpu.sequence = SubCpuSequence::BusyDelay;
            }
        } else {
            self.sub_cpu.timer = RX_PUSH;
            self.sub_cpu.sequence = if is_async {
                SubCpuSequence::AsyncRxPush
            } else {
                SubCpuSequence::RxPush
            };
        }
        assert(self@ == step_response(old(self)@, is_async));
        proof {
            lemma_wf_intro(self@);
        }
    }

    /// Parameter transfer, then command execution
    #[verifier::spinoff_prover]
    fn step_params(&mut self) -> (r: Result<(), CdError>)
        requires
            cd_wf(old(self)@),
            old(self)@.sub_cpu.sequence == SubCpuSequence::CommandPending || old(self)@.sub_cpu.sequence
                == SubCpuSequence::ParamPush,
        ensures
            handled(step_params(old(self)@), r, final(self)@),
    {
        if self.host_params.is_empty() {
            self.run_command()
        } else {
            self.transfer_param();
            Ok(())
        }
    }

    /// Send a parameter to the sub-CPU
    #[verifier::spinoff_prover]
    fn transfer_param(&mut self)
        requires
            cd_wf(old(self)@),
            old(self)@.sub_cpu.sequence == SubCpuSequence::CommandPending || old(self)@.sub_cpu.sequence
                == SubCpuSequence::ParamPush,
        ensures
            cd_wf(final(self)@),
            final(self)@ == goto(param_transferred(old(self)@), SubCpuSequence::ParamPush, PARAM_PUSH),
    {
        proof {
            lemma_wf_facts(old(self)@);
        }
        let param = self.host_params.pop();
        self.sub_cpu.params.push(param);
        self.sub_cpu.timer = PARAM_PUSH;
        self.sub_cpu.sequence = SubCpuSequence::ParamPush;
        proof {
            lemma_wf_intro(self@);
        }
    }

    /// We have all the parameters (if any), we can run the actual
    /// command
    #[verifier::spinoff_prover]
    #[verifier::rlimit(60)]
    fn run_command(&mut self) -> (r: Result<(), CdError>)
        requires
            cd_wf(old(self)@),
            old(self)@.sub_cpu.sequence == SubCpuSequence::CommandPending || old(self)@.sub_cpu.sequence
                == SubCpuSequence::ParamPush,
        ensures
            handled(command_run(old(self)@), r, final(self)@),
    {
        proof {
            lemma_wf_facts(old(self)@);
        }
        let r = self.execute_command();
        if r.is_err() {
            return r;
        }
        let ghost c1 = self@;
        self.sub_cpu.timer = EXECUTION;
        self.sub_cpu.sequence = SubCpuSequence::Execution;
        proof {
            lemma_wf_facts(c1);
            lemma_wf_intro(self@);
        }
        assert(self@ == goto(c1, SubCpuSequence::Execution, EXECUTION));
        Ok(())
    }

    /// End of the sequence: the sub-CPU goes idle and triggers the
    /// interrupt
    #[verifier::spinoff_prover]
    #[verifier::rlimit(100)]
    fn end_sequence(&mut self, shared: &mut SharedState)
        requires
            cd_wf(old(self)@),
            old(self)@.sub_cpu.sequence == SubCpuSequence::IrqDelay,
            shared_ok(*old(shared)),
        ensures
            cd_wf(final(self)@),
            shared_ok(*final(shared)),
            world(final(self)@, *final(shared)) == trigger_irq(
                CdWorld {
                    cd: CdRomView {
                        command: None,
                        sub_cpu: SubCpuView { sequence: SubCpuSequence::Idle, ..old(self)@.sub_cpu },
                        ..old(self)@
                    },
                    ..world(old(self)@, *old(shared))
                },
                old(self)@.sub_cpu.irq_code,
            ),
            final(shared).counter_values() == old(shared).counter_values(),
    {
        proof {
            lemma_wf_facts(old(self)@);
        }
        let irq_code = self.sub_cpu.irq_code;
        self.command = None;
        self.sub_cpu.sequence = SubCpuSequence::Idle;
        proof {
            lemma_wf_intro(self@);
        }
        assert(self@ == CdRomView {
            command: None,
            sub_cpu: SubCpuView { sequence: SubCpuSequence::Idle, ..old(self)@.sub_cpu },
            ..old(self)@
        });
        assert(world(self@, *shared) == CdWorld {
            cd: self@,
            ..world(old(self)@, *old(shared))
        });
        self.trigger_irq(shared, irq_code);
    }

    /// Called when it's time to advance in the sub-CPU execution
    /// sequence
    #[verifier::spinoff_prover]
    #[verifier::rlimit(100)]
    fn next_sub_cpu_step(&mut self, shared: &mut SharedState) -> (r: Result<(), CdError>)
        requires
            cd_wf(old(self)@),
            in_command(old(self)@),
            shared_ok(*old(shared)),
        ensures
            world_handled(
                next_step(world(old(self)@, *old(shared))),
                r,
                final(self)@,
                *final(shared),
                *old(shared),
            ),
    {
        proof {
            lemma_wf_facts(old(self)@);
        }
        proof {
            reveal(next_step);
        }
        match self.sub_cpu.sequence {
            SubCpuSequence::Idle => Ok(()),
            SubCpuSequence::CommandPending | SubCpuSequence::ParamPush => self.step_params(),
            SubCpuSequence::Execution => {
                self.host_response.clear();
                self.sub_cpu.timer = RX_FLUSH;
                self.sub_cpu.sequence = SubCpuSequence::RxFlush;
                proof {
                    lemma_wf_intro(self@);
                }
                Ok(())
            },
            SubCpuSequence::RxFlush | SubCpuSequence::RxPush => {
                // There is always at least one response byte for any
                // command so we can run this unconditionally after
                // `RxFlush`
                self.step_response(false);
                Ok(())
            },
            SubCpuSequence::BusyDelay => {
                self.sub_cpu.timer = IRQ_DELAY;
                self.sub_cpu.sequence = SubCpuSequence::IrqDelay;
                proof {
                    lemma_wf_intro(self@);
                }
                Ok(())
            },
            SubCpuSequence::IrqDelay => {
                self.end_sequence(shared);
                Ok(())
            },
            SubCpuSequence::AsyncRxPush => {
                self.step_response(true);
                Ok(())
            },
        }
    }
}

} // verus!
