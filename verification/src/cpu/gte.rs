//! Geometry Transform Engine (Coprocessor 2) registers

use vstd::prelude::*;

verus! {

/// Low halfword of a register value, signed
pub open spec fn lo16(val: u32) -> i16 {
    val as i16
}

/// High halfword of a register value, signed
pub open spec fn hi16(val: u32) -> i16 {
    (val >> 16u32) as i16
}

/// A 3x3 matrix (row major, 9 entries) after a write of `val` to its
/// `k`th register: registers 0 to 3 hold two consecutive entries,
/// register 4 the last one
pub open spec fn matrix_written(m: Seq<i16>, k: int, val: u32) -> Seq<i16> {
    if k < 4 {
        m.update(2 * k, lo16(val)).update(2 * k + 1, hi16(val))
    } else {
        m.update(8, lo16(val))
    }
}

/// Abstract state of the GTE registers
pub struct GteView {
    pub rbk: i32,
    pub gbk: i32,
    pub bbk: i32,
    pub rfc: i32,
    pub gfc: i32,
    pub bfc: i32,
    pub ofx: i32,
    pub ofy: i32,
    pub h: u16,
    pub dqa: i16,
    pub dqb: i32,
    pub zsf3: i16,
    pub zsf4: i16,
    pub tr: Seq<i32>,
    pub lsm: Seq<i16>,
    pub lcm: Seq<i16>,
    pub rm: Seq<i16>,
    pub v0: Seq<i16>,
    pub v1: Seq<i16>,
    pub v2: Seq<i16>,
}

/// Register state after a write of `val` to control register `reg`
pub open spec fn control_written(g: GteView, reg: u32, val: u32) -> GteView {
    if reg <= 4 {
        GteView { rm: matrix_written(g.rm, reg as int, val), ..g }
    } else if reg <= 7 {
        GteView { tr: g.tr.update(reg - 5, val as i32), ..g }
    } else if reg <= 12 {
        GteView { lsm: matrix_written(g.lsm, reg - 8, val), ..g }
    } else if reg == 13 {
        GteView { rbk: val as i32, ..g }
    } else if reg == 14 {
        GteView { gbk: val as i32, ..g }
    } else if reg == 15 {
        GteView { bbk: val as i32, ..g }
    } else if reg <= 20 {
        GteView { lcm: matrix_written(g.lcm, reg - 16, val), ..g }
    } else if reg == 21 {
        GteView { rfc: val as i32, ..g }
    } else if reg == 22 {
        GteView { gfc: val as i32, ..g }
    } else if reg == 23 {
        GteView { bfc: val as i32, ..g }
    } else if reg == 24 {
        GteView { ofx: val as i32, ..g }
    } else if reg == 25 {
        GteView { ofy: val as i32, ..g }
    } else if reg == 26 {
        GteView { h: val as u16, ..g }
    } else if reg == 27 {
        GteView { dqa: val as i16, ..g }
    } else if reg == 28 {
        GteView { dqb: val as i32, ..g }
    } else if reg == 29 {
        GteView { zsf3: val as i16, ..g }
    } else {
        GteView { zsf4: val as i16, ..g }
    }
}

/// Register state after a write of `val` to data register `reg`
pub open spec fn data_written(g: GteView, reg: u32, val: u32) -> GteView {
    if reg == 0 {
        GteView { v0: g.v0.update(0, lo16(val)).update(1, hi16(val)), ..g }
    } else if reg == 1 {
        GteView { v0: g.v0.update(2, lo16(val)), ..g }
    } else if reg == 2 {
        GteView { v1: g.v1.update(0, lo16(val)).update(1, hi16(val)), ..g }
    } else if reg == 3 {
        GteView { v1: g.v1.update(2, lo16(val)), ..g }
    } else if reg == 4 {
        GteView { v2: g.v2.update(0, lo16(val)).update(1, hi16(val)), ..g }
    } else {
        GteView { v2: g.v2.update(2, lo16(val)), ..g }
    }
}

/// All registers cleared
pub open spec fn gte_zero() -> GteView {
    GteView {
        rbk: 0,
        gbk: 0,
        bbk: 0,
        rfc: 0,
        gfc: 0,
        bfc: 0,
        ofx: 0,
        ofy: 0,
        h: 0,
        dqa: 0,
        dqb: 0,
        zsf3: 0,
        zsf4: 0,
        tr: Seq::new(3, |i: int| 0i32),
        lsm: Seq::new(9, |i: int| 0i16),
        lcm: Seq::new(9, |i: int| 0i16),
        rm: Seq::new(9, |i: int| 0i16),
        v0: Seq::new(3, |i: int| 0i16),
        v1: Seq::new(3, |i: int| 0i16),
        v2: Seq::new(3, |i: int| 0i16),
    }
}

/// Vector and matrix sizes
pub open spec fn gte_wf(g: GteView) -> bool {
    &&& g.tr.len() == 3
    &&& g.lsm.len() == 9
    &&& g.lcm.len() == 9
    &&& g.rm.len() == 9
    &&& g.v0.len() == 3
    &&& g.v1.len() == 3
    &&& g.v2.len() == 3
}

/// Geometry Transform Engine
pub struct Gte {
    // Control registers
    /// Background color red component: signed 20.12
    rbk: i32,
    /// Background color green component: signed 20.12
    gbk: i32,
    /// Background color blue component: signed 20.12
    bbk: i32,
    /// Far color red component: signed 28.4
    rfc: i32,
    /// Far color green component: signed 28.4
    gfc: i32,
    /// Far color blue component: signed 28.4
    bfc: i32,
    /// Screen offset X: signed 16.16
    ofx: i32,
    /// Screen offset Y: signed 16.16
    ofy: i32,
    /// Projection plane distance (XXX reads back as a signed value
    /// even though unsigned)
    h: u16,
    /// Depth queing coeffient: signed 8.8
    dqa: i16,
    /// Depth queing offset: signed 8.24
    dqb: i32,
    /// Scale factor when computing the average of 3 Z values
    /// (triangle): signed 4.12.
    zsf3: i16,
    /// Scale factor when computing the average of 4 Z values
    /// (quad): signed 4.12
    zsf4: i16,
    /// Translation vector: 3x signed word
    tr: Vec<i32>,
    /// Light source matrix: 3x3 signed 4.12, row major
    lsm: Vec<i16>,
    /// Light color matrix: 3x3 signed 4.12, row major
    lcm: Vec<i16>,
    /// Rotation matrix: 3x3 signed 4.12, row major
    rm: Vec<i16>,
    // Data registers
    /// Vector 0: 3x signed 4.12
    v0: Vec<i16>,
    /// Vector 1: 3x signed 4.12
    v1: Vec<i16>,
    /// Vector 2: 3x signed 4.12
    v2: Vec<i16>,
}

impl View for Gte {
    type V = GteView;

    closed spec fn view(&self) -> GteView {
        GteView {
            rbk: self.rbk,
            gbk: self.gbk,
            bbk: self.bbk,
            rfc: self.rfc,
            gfc: self.gfc,
            bfc: self.bfc,
            ofx: self.ofx,
            ofy: self.ofy,
            h: self.h,
            dqa: self.dqa,
            dqb: self.dqb,
            zsf3: self.zsf3,
            zsf4: self.zsf4,
            tr: self.tr@,
            lsm: self.lsm@,
            lcm: self.lcm@,
            rm: self.rm@,
            v0: self.v0@,
            v1: self.v1@,
            v2: self.v2@,
        }
    }
}

fn zeroes_i16(n: usize) -> (v: Vec<i16>)
    ensures
        v@ == Seq::new(n as nat, |i: int| 0i16),
{
    let mut v: Vec<i16> = Vec::new();
    let mut i: usize = 0;
    while i < n
        invariant
            i <= n,
            v@ == Seq::new(i as nat, |j: int| 0i16),
        decreases n - i,
    {
        v.push(0);
        i += 1;
        assert(v@ =~= Seq::new(i as nat, |j: int| 0i16));
    }
    v
}

/// Write `val` to the `k`th register of a 3x3 matrix
fn write_matrix(m: &mut Vec<i16>, k: u32, val: u32)
    requires
        old(m)@.len() == 9,
        k <= 4,
    ensures
        final(m)@ == matrix_written(old(m)@, k as int, val),
{
    let v0 = val as i16;
    let v1 = (val >> 16) as i16;
    if k < 4 {
        m.set(2 * k as usize, v0);
        m.set(2 * k as usize + 1, v1);
    } else {
        m.set(8, v0);
    }
}

impl Gte {
    pub fn new() -> (g: Gte)
        ensures
            gte_wf(g@),
            g@ == gte_zero(),
    {
        // It seems that none of the registers are reset even when I
        // reboot the whole system. So the initial register values
        // probably don't matter much.
        let mut tr: Vec<i32> = Vec::new();
        tr.push(0);
        tr.push(0);
        tr.push(0);
        assert(tr@ =~= Seq::new(3, |i: int| 0i32));
        let g = Gte {
            rbk: 0,
            gbk: 0,
            bbk: 0,
            rfc: 0,
            gfc: 0,
            bfc: 0,
            ofx: 0,
            ofy: 0,
            h: 0,
            dqa: 0,
            dqb: 0,
            zsf3: 0,
            zsf4: 0,
            tr: tr,
            rm: zeroes_i16(9),
            lsm: zeroes_i16(9),
            lcm: zeroes_i16(9),
            v0: zeroes_i16(3),
            v1: zeroes_i16(3),
            v2: zeroes_i16(3),
        };
        assert(g@ =~= gte_zero());
        g
    }

    /// Store value in one of the "control" registers (0 to 30). Used
    /// by the CTC2 opcode.
    pub fn set_control(&mut self, reg: u32, val: u32)
        requires
            gte_wf(old(self)@),
            reg <= 30,
        ensures
            gte_wf(final(self)@),
            final(self)@ == control_written(old(self)@, reg, val),
    {
        // XXX: on the real hardware it seems that there's a "store
        // delay" when setting a register in the GTE.
        if reg <= 4 {
            write_matrix(&mut self.rm, reg, val);
        } else if reg <= 7 {
            self.tr.set((reg - 5) as usize, val as i32);
        } else if reg <= 12 {
            write_matrix(&mut self.lsm, reg - 8, val);
        } else if reg == 13 {
            self.rbk = val as i32;
        } else if reg == 14 {
            self.gbk = val as i32;
        } else if reg == 15 {
            self.bbk = val as i32;
        } else if reg <= 20 {
            write_matrix(&mut self.lcm, reg - 16, val);
        } else if reg == 21 {
            self.rfc = val as i32;
        } else if reg == 22 {
            self.gfc = val as i32;
        } else if reg == 23 {
            self.bfc = val as i32;
        } else if reg == 24 {
            self.ofx = val as i32;
        } else if reg == 25 {
            self.ofy = val as i32;
        } else if reg == 26 {
            self.h = val as u16;
        } else if reg == 27 {
            self.dqa = val as i16;
        } else if reg == 28 {
            self.dqb = val as i32;
        } else if reg == 29 {
            self.zsf3 = val as i16;
        } else {
            self.zsf4 = val as i16;
        }
    }

    /// Store value in one of the "data" registers (0 to 5). Used by
    /// the MTC2 and LWC2 opcodes
    pub fn set_data(&mut self, reg: u32, val: u32)
        requires
            gte_wf(old(self)@),
            reg <= 5,
        ensures
            gte_wf(final(self)@),
            final(self)@ == data_written(old(self)@, reg, val),
    {
        let v0 = val as i16;
        let v1 = (val >> 16) as i16;
        if reg == 0 {
            self.v0.set(0, v0);
            self.v0.set(1, v1);
        } else if reg == 1 {
            self.v0.set(2, v0);
        } else if reg == 2 {
            self.v1.set(0, v0);
            self.v1.set(1, v1);
        } else if reg == 3 {
            self.v1.set(2, v0);
        } else if reg == 4 {
            self.v2.set(0, v0);
            self.v2.set(1, v1);
        } else {
            self.v2.set(2, v0);
        }
    }
}

} // verus!
