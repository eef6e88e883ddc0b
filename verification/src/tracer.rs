//! Interface used to log internal variables in order to generate
//! traces

use vstd::prelude::*;

use crate::text::str_eq;

verus! {

pub type ValueType = u32;

pub type ValueSize = u8;

/// Underlying type of every logged value. Since we use a `u32` we
/// only support variables up to 32bits for now. The 2nd parameter is
/// the size of the value in bits.
#[derive(Copy, Clone)]
pub struct SizedValue(pub ValueType, pub ValueSize);

impl From<bool> for SizedValue {
    fn from(v: bool) -> (r: SizedValue) {
        SizedValue(
            if v {
                1
            } else {
                0
            },
            1,
        )
    }
}

impl vstd::std_specs::convert::FromSpecImpl<bool> for SizedValue {
    open spec fn obeys_from_spec() -> bool {
        true
    }

    open spec fn from_spec(v: bool) -> SizedValue {
        SizedValue(
            if v {
                1
            } else {
                0
            },
            1,
        )
    }
}

impl From<u8> for SizedValue {
    fn from(v: u8) -> (r: SizedValue) {
        SizedValue(v as ValueType, 8)
    }
}

impl vstd::std_specs::convert::FromSpecImpl<u8> for SizedValue {
    open spec fn obeys_from_spec() -> bool {
        true
    }

    open spec fn from_spec(v: u8) -> SizedValue {
        SizedValue(v as ValueType, 8)
    }
}

impl From<u16> for SizedValue {
    fn from(v: u16) -> (r: SizedValue) {
        SizedValue(v as ValueType, 16)
    }
}

impl vstd::std_specs::convert::FromSpecImpl<u16> for SizedValue {
    open spec fn obeys_from_spec() -> bool {
        true
    }

    open spec fn from_spec(v: u16) -> SizedValue {
        SizedValue(v as ValueType, 16)
    }
}

impl From<u32> for SizedValue {
    fn from(v: u32) -> (r: SizedValue) {
        SizedValue(v, 32)
    }
}

impl vstd::std_specs::convert::FromSpecImpl<u32> for SizedValue {
    open spec fn obeys_from_spec() -> bool {
        true
    }

    open spec fn from_spec(v: u32) -> SizedValue {
        SizedValue(v, 32)
    }
}

/// A logged variable: its size in bits and its log of `(date, value)`
pub struct Variable {
    size: ValueSize,
    /// Log for this variable: `(date, value)`
    log: Vec<(u64, ValueType)>,
}

/// Abstract state of a variable: its size and its log
pub struct VariableView {
    pub size: ValueSize,
    pub log: Seq<(u64, ValueType)>,
}

impl View for Variable {
    type V = VariableView;

    closed spec fn view(&self) -> VariableView {
        VariableView { size: self.size, log: self.log@ }
    }
}

/// A log only holds value changes, in chronological order: the dates
/// strictly increase and two consecutive entries have different values
pub open spec fn log_wf(log: Seq<(u64, ValueType)>) -> bool {
    forall|i: int| 0 < i < log.len() ==> #[trigger] log[i].0 > log[i - 1].0 && log[i].1 != log[i
        - 1].1
}

impl Variable {
    fn new(size: ValueSize) -> (v: Variable)
        ensures
            v@.size == size,
            v@.log == Seq::<(u64, ValueType)>::empty(),
    {
        Variable { size: size, log: Vec::new() }
    }

    pub fn size(&self) -> (r: ValueSize)
        ensures
            r == self@.size,
    {
        self.size
    }

    pub fn log(&self) -> (r: &Vec<(u64, ValueType)>)
        ensures
            r@ == self@.log,
    {
        &self.log
    }
}

/// Position of the variable `name` in `vars`, if it is there
pub open spec fn find_var(vars: Seq<(Seq<char>, VariableView)>, name: Seq<char>) -> Option<int> {
    if exists|i: int| 0 <= i < vars.len() && vars[i].0 == name {
        Some(choose|i: int| 0 <= i < vars.len() && vars[i].0 == name)
    } else {
        None
    }
}

/// Names are unique and every log is well formed
pub open spec fn module_wf(vars: Seq<(Seq<char>, VariableView)>) -> bool {
    &&& forall|i: int, j: int| 0 <= i < j < vars.len() ==> vars[i].0 != vars[j].0
    &&& forall|i: int| 0 <= i < vars.len() ==> log_wf(#[trigger] vars[i].1.log)
}

/// The value can be logged: a known variable keeps its size and its
/// log goes forward in time
pub open spec fn trace_ok(vars: Seq<(Seq<char>, VariableView)>, date: u64, name: Seq<char>, v: SizedValue) -> bool {
    match find_var(vars, name) {
        Some(i) => {
            let var = vars[i].1;
            &&& var.size == v.1
            &&& var.log.len() > 0 ==> var.log.last().0 < date
        },
        None => true,
    }
}

/// Variables after logging `v` for `name` at `date`: a new variable is
/// created the first time, and only value changes are recorded
pub open spec fn traced(vars: Seq<(Seq<char>, VariableView)>, date: u64, name: Seq<char>, v: SizedValue) -> Seq<
    (Seq<char>, VariableView),
> {
    match find_var(vars, name) {
        Some(i) => {
            let var = vars[i].1;
            if var.log.len() > 0 && var.log.last().1 == v.0 {
                // No value change
                vars
            } else {
                vars.update(i, (name, VariableView { log: var.log.push((date, v.0)), ..var }))
            }
        },
        None => vars.push((name, VariableView { size: v.1, log: seq![(date, v.0)] })),
    }
}

/// The logged variables of one module
pub struct Module {
    /// Variables, with their names
    variables: Vec<(&'static str, Variable)>,
}

impl View for Module {
    type V = Seq<(Seq<char>, VariableView)>;

    closed spec fn view(&self) -> Seq<(Seq<char>, VariableView)> {
        self.variables@.map_values(|e: (&'static str, Variable)| (e.0@, e.1@))
    }
}

impl Module {
    pub fn new() -> (m: Module)
        ensures
            m@ == Seq::<(Seq<char>, VariableView)>::empty(),
            module_wf(m@),
    {
        let m = Module { variables: Vec::new() };
        assert(m@ =~= Seq::<(Seq<char>, VariableView)>::empty());
        m
    }

    pub fn variables(&self) -> (r: &Vec<(&'static str, Variable)>)
        ensures
            r@.map_values(|e: (&'static str, Variable)| (e.0@, e.1@)) == self@,
    {
        &self.variables
    }

    /// Position of the variable `name`
    fn find(&self, name: &'static str) -> (r: Option<usize>)
        requires
            module_wf(self@),
        ensures
            match r {
                Some(i) => find_var(self@, name@) == Some(i as int) && i < self@.len(),
                None => find_var(self@, name@) is None,
            },
    {
        let mut i: usize = 0;
        while i < self.variables.len()
            invariant
                i <= self.variables@.len(),
                self@.len() == self.variables@.len(),
                module_wf(self@),
                forall|j: int| 0 <= j < i ==> self@[j].0 != name@,
            decreases self.variables@.len() - i,
        {
            if str_eq(self.variables[i].0, name) {
                proof {
                    assert(self@[i as int].0 == name@);
                    let k = choose|k: int| 0 <= k < self@.len() && self@[k].0 == name@;
                    assert(k == i);
                }
                return Some(i);
            }
            i += 1;
        }
        None
    }

    /// Log `sized_value` for the variable `name` at `date`
    pub fn trace(&mut self, date: u64, name: &'static str, sized_value: SizedValue)
        requires
            module_wf(old(self)@),
            trace_ok(old(self)@, date, name@, sized_value),
        ensures
            module_wf(final(self)@),
            final(self)@ == traced(old(self)@, date, name@, sized_value),
    {
        let SizedValue(value, size) = sized_value;
        match self.find(name) {
            None => {
                let mut var = Variable::new(size);
                var.log.push((date, value));
                self.variables.push((name, var));
                proof {
                    assert(self@ =~= old(self)@.push(
                        (name@, VariableView { size: size, log: seq![(date, value)] }),
                    ));
                    assert forall|j: int| 0 <= j < old(self)@.len() implies old(self)@[j].0 != name@ by {
                        if old(self)@[j].0 == name@ {
                            assert(exists|k: int| 0 <= k < old(self)@.len() && old(self)@[k].0 == name@);
                        }
                    }
                    let nv = self@;
                    assert forall|a: int, b: int| 0 <= a < b < nv.len() implies nv[a].0 != nv[b].0 by {
                        if b < old(self)@.len() {
                            assert(nv[a] == old(self)@[a] && nv[b] == old(self)@[b]);
                        } else {
                            assert(nv[a] == old(self)@[a]);
                        }
                    }
                    assert forall|a: int| 0 <= a < nv.len() implies log_wf(#[trigger] nv[a].1.log) by {
                        if a < old(self)@.len() {
                            assert(nv[a] == old(self)@[a]);
                        }
                    }
                }
            },
            Some(i) => {
                let (n, mut var) = self.variables.remove(i);
                let len = var.log.len();
                if len > 0 && var.log[len - 1].1 == value {
                    // No value change
                    self.variables.insert(i, (n, var));
                    proof {
                        assert(self@ =~= old(self)@);
                    }
                    return;
                }
                var.log.push((date, value));
                self.variables.insert(i, (n, var));
                proof {
                    let ov = old(self)@[i as int].1;
                    let nl = ov.log.push((date, value));
                    assert(old(self)@[i as int].0 == name@);
                    assert(log_wf(ov.log));
                    assert forall|k: int| 0 < k < nl.len() implies #[trigger] nl[k].0 > nl[k - 1].0
                        && nl[k].1 != nl[k - 1].1 by {
                        if k < nl.len() - 1 {
                            assert(nl[k] == ov.log[k] && nl[k - 1] == ov.log[k - 1]);
                        }
                    }
                    assert(log_wf(nl));
                    assert(self@ =~= old(self)@.update(
                        i as int,
                        (name@, VariableView { log: nl, ..ov }),
                    ));
                    let nv = self@;
                    assert forall|a: int, b: int| 0 <= a < b < nv.len() implies nv[a].0 != nv[b].0 by {
                        assert(nv[a].0 == old(self)@[a].0 && nv[b].0 == old(self)@[b].0);
                    }
                    assert forall|a: int| 0 <= a < nv.len() implies log_wf(#[trigger] nv[a].1.log) by {
                        if a != i {
                            assert(nv[a] == old(self)@[a]);
                        }
                    }
                }
            },
        }
    }
}

/// Modules, with their names
pub struct Tracer {
    modules: Vec<(&'static str, Module)>,
}

impl View for Tracer {
    type V = Seq<(Seq<char>, Seq<(Seq<char>, VariableView)>)>;

    closed spec fn view(&self) -> Seq<(Seq<char>, Seq<(Seq<char>, VariableView)>)> {
        self.modules@.map_values(|e: (&'static str, Module)| (e.0@, e.1@))
    }
}

impl Tracer {
    pub fn new() -> (t: Tracer)
        ensures
            t@ == Seq::<(Seq<char>, Seq<(Seq<char>, VariableView)>)>::empty(),
    {
        let t = Tracer { modules: Vec::new() };
        assert(t@ =~= Seq::<(Seq<char>, Seq<(Seq<char>, VariableView)>)>::empty());
        t
    }

    /// Reset the tracer and return the content of the previous trace
    pub fn remove_trace(&mut self) -> (r: Vec<(&'static str, Module)>)
        ensures
            final(self)@ == Seq::<(Seq<char>, Seq<(Seq<char>, VariableView)>)>::empty(),
            r@.map_values(|e: (&'static str, Module)| (e.0@, e.1@)) == old(self)@,
    {
        let mut swap = Vec::new();
        std::mem::swap(&mut self.modules, &mut swap);
        assert(self@ =~= Seq::<(Seq<char>, Seq<(Seq<char>, VariableView)>)>::empty());
        swap
    }
}

/// Tracing is compiled out: there is never a trace to return
pub fn remove_trace() -> (r: Vec<(&'static str, Module)>)
    ensures
        r@.len() == 0,
{
    Vec::new()
}

/// Tracing is compiled out: the module tracer is never called
pub fn module_tracer<F: FnOnce(&mut Module)>(_name: &'static str, _f: F) {
}

} // verus!
