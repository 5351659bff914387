//! Gate registry, the witness region that fills a single advice column, and
//! the frozen table that the checker reads.
use crate::expr::{cell_at, max_nat, Expr};
use halo2_proofs::pasta::Fp;
use vstd::prelude::*;

verus! {

/// What can go wrong while configuring or assigning a circuit.
#[derive(Debug, Clone, Copy, PartialEq, Eq, Structural)]
pub enum CircuitError {
    /// A gate's degree exceeds the configured maximum, or its name is taken.
    Configuration,
    /// A row, a public-input slot or a selector enablement is out of bounds.
    Range,
    /// A computed cell reads a cell that has not been assigned.
    UnassignedOperand,
    /// A public-input slot is already the target of a copy constraint.
    DuplicateBinding,
}

/// A named gate; it must evaluate to zero on every row where the selector
/// is enabled.
pub struct Gate {
    pub name: String,
    pub poly: Expr,
}

/// The kinds of column a circuit declares.
#[derive(Debug, Clone, Copy, PartialEq, Eq, Structural)]
pub enum ColumnKind {
    Advice,
    Instance,
    Selector,
}

/// A declared column: its kind and its name, unique among the columns.
pub struct Column {
    pub kind: ColumnKind,
    pub name: String,
}

/// The declared columns, the gates of a circuit and the largest degree a gate
/// may have. All gates are guarded by the one selector.
pub struct ConstraintSystem {
    pub columns: Vec<Column>,
    pub gates: Vec<Gate>,
    pub max_degree: u64,
}

/// True when some column in `columns` is called `name`.
pub open spec fn column_taken(columns: Seq<Column>, name: Seq<char>) -> bool {
    exists|i: int| 0 <= i < columns.len() && (#[trigger] columns[i]).name@ == name
}

/// The degree of the constraint `selector * poly` that a gate enforces: the
/// selector adds one to the degree of its polynomial.
pub open spec fn gate_degree(poly: Expr) -> nat {
    poly.degree() + 1
}

/// True when some gate in `gates` is called `name`.
pub open spec fn name_taken(gates: Seq<Gate>, name: Seq<char>) -> bool {
    exists|i: int| 0 <= i < gates.len() && (#[trigger] gates[i]).name@ == name
}

/// The largest row offset that any of `gates` queries.
pub open spec fn gates_max_off(gates: Seq<Gate>) -> nat
    decreases gates.len(),
{
    if gates.len() == 0 {
        0
    } else {
        max_nat(gates_max_off(gates.drop_last()), gates.last().poly.max_off())
    }
}

/// Declaring a column makes its name taken and keeps every other.
pub proof fn lemma_column_taken_push(columns: Seq<Column>, c: Column, name: Seq<char>)
    ensures
        column_taken(columns.push(c), name) <==> (column_taken(columns, name) || c.name@ == name),
{
    let pushed = columns.push(c);
    if column_taken(columns, name) {
        let i = choose|i: int| 0 <= i < columns.len() && (#[trigger] columns[i]).name@ == name;
        assert(pushed[i] == columns[i]);
    }
    if c.name@ == name {
        assert(pushed[columns.len() as int] == c);
    }
    if column_taken(pushed, name) && c.name@ != name {
        let i = choose|i: int| 0 <= i < pushed.len() && (#[trigger] pushed[i]).name@ == name;
        assert(i < columns.len());
        assert(columns[i] == pushed[i]);
    }
}

impl ConstraintSystem {
    /// An empty registry whose gates may have degree at most `max_degree`.
    pub fn new(max_degree: u64) -> (r: ConstraintSystem)
        ensures
            r.columns@.len() == 0,
            r.gates@.len() == 0,
            r.max_degree == max_degree,
    {
        ConstraintSystem { columns: Vec::new(), gates: Vec::new(), max_degree }
    }

    /// Whether a column called `name` is declared.
    pub fn column_name_taken(&self, name: &String) -> (r: bool)
        ensures
            r == column_taken(self.columns@, name@),
    {
        let mut i: usize = 0;
        while i < self.columns.len()
            invariant
                i <= self.columns@.len(),
                forall|j: int| 0 <= j < i ==> (#[trigger] self.columns@[j]).name@ != name@,
            decreases self.columns@.len() - i,
        {
            if self.columns[i].name == *name {
                return true;
            }
            i = i + 1;
        }
        false
    }

    /// Whether a gate called `name` is registered.
    pub fn gate_name_taken(&self, name: &String) -> (r: bool)
        ensures
            r == name_taken(self.gates@, name@),
    {
        let mut i: usize = 0;
        while i < self.gates.len()
            invariant
                i <= self.gates@.len(),
                forall|j: int| 0 <= j < i ==> (#[trigger] self.gates@[j]).name@ != name@,
            decreases self.gates@.len() - i,
        {
            if self.gates[i].name == *name {
                return true;
            }
            i = i + 1;
        }
        false
    }

    fn register_column(&mut self, kind: ColumnKind, name: String) -> (r: Result<
        usize,
        CircuitError,
    >)
        ensures
            final(self).max_degree == old(self).max_degree,
            final(self).gates@ == old(self).gates@,
            r is Err <==> column_taken(old(self).columns@, name@),
            r is Err ==> r == Err::<usize, CircuitError>(CircuitError::Configuration)
                && final(self).columns@ == old(self).columns@,
            r is Ok ==> r->Ok_0 == old(self).columns@.len() && final(self).columns@ == old(
                self,
            ).columns@.push(Column { kind, name }),
    {
        if self.column_name_taken(&name) {
            return Err(CircuitError::Configuration);
        }
        let index = self.columns.len();
        self.columns.push(Column { kind, name });
        Ok(index)
    }

    /// Declares an advice column called `name`; refused when the name is taken.
    pub fn register_advice_column(&mut self, name: String) -> (r: Result<usize, CircuitError>)
        ensures
            final(self).max_degree == old(self).max_degree,
            final(self).gates@ == old(self).gates@,
            r is Err <==> column_taken(old(self).columns@, name@),
            r is Err ==> r == Err::<usize, CircuitError>(CircuitError::Configuration)
                && final(self).columns@ == old(self).columns@,
            r is Ok ==> r->Ok_0 == old(self).columns@.len() && final(self).columns@ == old(
                self,
            ).columns@.push(Column { kind: ColumnKind::Advice, name }),
    {
        self.register_column(ColumnKind::Advice, name)
    }

    /// Declares an instance column called `name`; refused when the name is
    /// taken. Instance columns take part in copy constraints.
    pub fn register_instance_column(&mut self, name: String) -> (r: Result<usize, CircuitError>)
        ensures
            final(self).max_degree == old(self).max_degree,
            final(self).gates@ == old(self).gates@,
            r is Err <==> column_taken(old(self).columns@, name@),
            r is Err ==> r == Err::<usize, CircuitError>(CircuitError::Configuration)
                && final(self).columns@ == old(self).columns@,
            r is Ok ==> r->Ok_0 == old(self).columns@.len() && final(self).columns@ == old(
                self,
            ).columns@.push(Column { kind: ColumnKind::Instance, name }),
    {
        self.register_column(ColumnKind::Instance, name)
    }

    /// Declares a selector called `name`; refused when the name is taken.
    pub fn register_selector(&mut self, name: String) -> (r: Result<usize, CircuitError>)
        ensures
            final(self).max_degree == old(self).max_degree,
            final(self).gates@ == old(self).gates@,
            r is Err <==> column_taken(old(self).columns@, name@),
            r is Err ==> r == Err::<usize, CircuitError>(CircuitError::Configuration)
                && final(self).columns@ == old(self).columns@,
            r is Ok ==> r->Ok_0 == old(self).columns@.len() && final(self).columns@ == old(
                self,
            ).columns@.push(Column { kind: ColumnKind::Selector, name }),
    {
        self.register_column(ColumnKind::Selector, name)
    }

    /// Registers a gate called `name` that enforces `selector * poly`; refused
    /// when that product's degree is above the maximum or the name is already
    /// in use.
    pub fn create_gate(&mut self, name: String, poly: Expr) -> (r: Result<(), CircuitError>)
        ensures
            final(self).max_degree == old(self).max_degree,
            final(self).columns@ == old(self).columns@,
            r is Err <==> (gate_degree(poly) > old(self).max_degree as nat || name_taken(
                old(self).gates@,
                name@,
            )),
            r is Err ==> r == Err::<(), CircuitError>(CircuitError::Configuration) && final(self).gates@ == old(self).gates@,
            r is Ok ==> final(self).gates@ == old(self).gates@.push(Gate { name, poly }),
    {
        match poly.degree_checked() {
            Some(d) => if d >= self.max_degree {
                return Err(CircuitError::Configuration);
            },
            None => return Err(CircuitError::Configuration),
        }
        let mut i: usize = 0;
        while i < self.gates.len()
            invariant
                i <= self.gates@.len(),
                forall|j: int| 0 <= j < i ==> (#[trigger] self.gates@[j]).name@ != name@,
            decreases self.gates@.len() - i,
        {
            if self.gates[i].name == name {
                return Err(CircuitError::Configuration);
            }
            i = i + 1;
        }
        self.gates.push(Gate { name, poly });
        Ok(())
    }

    /// The largest row offset that any gate queries.
    pub fn max_offset(&self) -> (r: usize)
        ensures
            r as nat == gates_max_off(self.gates@),
    {
        let mut m: usize = 0;
        let mut i: usize = 0;
        while i < self.gates.len()
            invariant
                i <= self.gates@.len(),
                m as nat == gates_max_off(self.gates@.take(i as int)),
            decreases self.gates@.len() - i,
        {
            let o = self.gates[i].poly.max_offset();
            proof {
                assert(self.gates@.take(i + 1).drop_last() =~= self.gates@.take(i as int));
            }
            if o > m {
                m = o;
            }
            i = i + 1;
        }
        proof {
            assert(self.gates@.take(i as int) =~= self.gates@);
        }
        m
    }
}

/// A copy constraint: the advice cell at `row` must equal public input `slot`.
#[derive(Debug, Clone, Copy, PartialEq, Eq, Structural)]
pub struct Binding {
    pub row: usize,
    pub slot: usize,
}

/// True when some copy constraint in `bindings` targets public input `slot`.
pub open spec fn slot_bound(bindings: Seq<Binding>, slot: usize) -> bool {
    exists|i: int| 0 <= i < bindings.len() && (#[trigger] bindings[i]).slot == slot
}

/// Appending a copy constraint binds its slot and keeps every other.
pub proof fn lemma_slot_bound_push(bindings: Seq<Binding>, b: Binding, slot: usize)
    ensures
        slot_bound(bindings.push(b), slot) <==> (slot_bound(bindings, slot) || b.slot == slot),
{
    let pushed = bindings.push(b);
    if slot_bound(bindings, slot) {
        let i = choose|i: int| 0 <= i < bindings.len() && (#[trigger] bindings[i]).slot == slot;
        assert(pushed[i] == bindings[i]);
    }
    if b.slot == slot {
        assert(pushed[bindings.len() as int] == b);
    }
    if slot_bound(pushed, slot) && b.slot != slot {
        let i = choose|i: int| 0 <= i < pushed.len() && (#[trigger] pushed[i]).slot == slot;
        assert(i < bindings.len());
        assert(bindings[i] == pushed[i]);
    }
}

/// A cell assigned in a region: its row and the value written there.
#[derive(Clone, Copy)]
pub struct AssignedCell {
    pub row: usize,
    pub value: Fp,
}

/// The assignment session over the whole table: one advice column, the
/// selector, the public inputs and the copy constraints recorded so far.
pub struct Region {
    pub height: usize,
    pub max_offset: usize,
    pub public: Vec<Fp>,
    pub cells: Vec<Option<Fp>>,
    pub enabled: Vec<bool>,
    pub bindings: Vec<Binding>,
}

/// A table after assignment; it is only read from then on.
pub struct Table {
    pub public: Vec<Fp>,
    pub cells: Vec<Option<Fp>>,
    pub enabled: Vec<bool>,
    pub bindings: Vec<Binding>,
}

/// The contents of a table.
pub ghost struct TableView {
    pub public: Seq<Fp>,
    pub cells: Seq<Option<Fp>>,
    pub enabled: Seq<bool>,
    pub bindings: Seq<Binding>,
}

impl View for Table {
    type V = TableView;

    open spec fn view(&self) -> TableView {
        TableView {
            public: self.public@,
            cells: self.cells@,
            enabled: self.enabled@,
            bindings: self.bindings@,
        }
    }
}

impl Region {
    /// The advice column and the selector span exactly `height` rows.
    pub open spec fn wf(&self) -> bool {
        &&& self.cells@.len() == self.height
        &&& self.enabled@.len() == self.height
    }

    /// Opens a region of `height` rows, all unassigned and all selectors
    /// off, for the gates of `cs` and the public inputs `public`.
    pub fn begin(cs: &ConstraintSystem, height: usize, public: Vec<Fp>) -> (r: Region)
        ensures
            r.wf(),
            r.height == height,
            r.max_offset as nat == gates_max_off(cs.gates@),
            r.public@ == public@,
            forall|i: int| 0 <= i < height ==> (#[trigger] r.cells@[i]) is None,
            forall|i: int| 0 <= i < height ==> !(#[trigger] r.enabled@[i]),
            r.bindings@.len() == 0,
    {
        let mut cells: Vec<Option<Fp>> = Vec::new();
        let mut enabled: Vec<bool> = Vec::new();
        let mut i: usize = 0;
        while i < height
            invariant
                i <= height,
                cells@.len() == i,
                enabled@.len() == i,
                forall|j: int| 0 <= j < i ==> (#[trigger] cells@[j]) is None,
                forall|j: int| 0 <= j < i ==> !(#[trigger] enabled@[j]),
            decreases height - i,
        {
            cells.push(None);
            enabled.push(false);
            i = i + 1;
        }
        Region {
            height,
            max_offset: cs.max_offset(),
            public,
            cells,
            enabled,
            bindings: Vec::new(),
        }
    }

    /// Whether a copy constraint already targets public input `slot`.
    pub fn slot_taken(&self, slot: usize) -> (r: bool)
        ensures
            r == slot_bound(self.bindings@, slot),
    {
        let mut i: usize = 0;
        while i < self.bindings.len()
            invariant
                i <= self.bindings@.len(),
                forall|j: int| 0 <= j < i ==> (#[trigger] self.bindings@[j]).slot != slot,
            decreases self.bindings@.len() - i,
        {
            if self.bindings[i].slot == slot {
                return true;
            }
            i = i + 1;
        }
        false
    }

    /// Turns the selector on at `row`; refused where the gates' query window
    /// from `row` would leave the table.
    pub fn enable_selector(&mut self, row: usize) -> (r: Result<(), CircuitError>)
        requires
            old(self).wf(),
        ensures
            final(self).wf(),
            r is Err <==> row as int + old(self).max_offset as int >= old(self).height as int,
            r is Err ==> r == Err::<(), CircuitError>(CircuitError::Range) && *final(self)
                == *old(self),
            r is Ok ==> final(self).enabled@ == old(self).enabled@.update(row as int, true),
            final(self).height == old(self).height,
            final(self).max_offset == old(self).max_offset,
            final(self).public@ == old(self).public@,
            final(self).cells@ == old(self).cells@,
            final(self).bindings@ == old(self).bindings@,
    {
        if row >= self.height || self.max_offset >= self.height - row {
            return Err(CircuitError::Range);
        }
        self.enabled.set(row, true);
        Ok(())
    }

    /// Copies public input `slot` into the advice cell at `row` and records
    /// the copy constraint between them.
    pub fn assign_from_instance(&mut self, slot: usize, row: usize) -> (r: Result<
        AssignedCell,
        CircuitError,
    >)
        requires
            old(self).wf(),
        ensures
            final(self).wf(),
            r is Err <==> slot >= old(self).public@.len() || row >= old(self).height || slot_bound(
                old(self).bindings@,
                slot,
            ),
            slot >= old(self).public@.len() || row >= old(self).height ==> r == Err::<
                AssignedCell,
                CircuitError,
            >(CircuitError::Range),
            r is Err && slot < old(self).public@.len() && row < old(self).height ==> r->Err_0
                == CircuitError::DuplicateBinding,
            r is Err ==> *final(self) == *old(self),
            r is Ok ==> {
                &&& r->Ok_0.row == row
                &&& r->Ok_0.value == old(self).public@[slot as int]
                &&& final(self).cells@ == old(self).cells@.update(
                    row as int,
                    Some(old(self).public@[slot as int]),
                )
                &&& final(self).bindings@ == old(self).bindings@.push(Binding { row, slot })
            },
            final(self).height == old(self).height,
            final(self).max_offset == old(self).max_offset,
            final(self).public@ == old(self).public@,
            final(self).enabled@ == old(self).enabled@,
    {
        if slot >= self.public.len() || row >= self.height {
            return Err(CircuitError::Range);
        }
        if self.slot_taken(slot) {
            return Err(CircuitError::DuplicateBinding);
        }
        let v = self.public[slot];
        self.cells.set(row, Some(v));
        self.bindings.push(Binding { row, slot });
        Ok(AssignedCell { row, value: v })
    }

    /// Writes at `row` the value of `compute` evaluated at row `base`; the
    /// cells it reads must already be assigned.
    pub fn assign_advice(&mut self, row: usize, compute: &Expr, base: usize) -> (r: Result<
        AssignedCell,
        CircuitError,
    >)
        requires
            old(self).wf(),
        ensures
            final(self).wf(),
            row >= old(self).height ==> r == Err::<AssignedCell, CircuitError>(
                CircuitError::Range,
            ),
            row < old(self).height && compute.eval(old(self).cells@, base as int) is None ==> r
                == Err::<AssignedCell, CircuitError>(CircuitError::UnassignedOperand),
            r is Err <==> row >= old(self).height || compute.eval(old(self).cells@, base as int) is None,
            r is Err ==> *final(self) == *old(self),
            r is Ok ==> {
                &&& row < old(self).height
                &&& compute.eval(old(self).cells@, base as int) == Some(r->Ok_0.value)
                &&& r->Ok_0.row == row
                &&& final(self).cells@ == old(self).cells@.update(row as int, Some(r->Ok_0.value))
            },
            final(self).height == old(self).height,
            final(self).max_offset == old(self).max_offset,
            final(self).public@ == old(self).public@,
            final(self).enabled@ == old(self).enabled@,
            final(self).bindings@ == old(self).bindings@,
    {
        if row >= self.height {
            return Err(CircuitError::Range);
        }
        match compute.evaluate(&self.cells, base) {
            Some(v) => {
                self.cells.set(row, Some(v));
                Ok(AssignedCell { row, value: v })
            },
            None => Err(CircuitError::UnassignedOperand),
        }
    }

    /// Records that the advice cell at `row` is exposed as public input `slot`.
    pub fn expose_public(&mut self, row: usize, slot: usize) -> (r: Result<(), CircuitError>)
        requires
            old(self).wf(),
        ensures
            final(self).wf(),
            r is Err <==> slot >= old(self).public@.len() || row >= old(self).height || slot_bound(
                old(self).bindings@,
                slot,
            ),
            slot >= old(self).public@.len() || row >= old(self).height ==> r == Err::<
                (),
                CircuitError,
            >(CircuitError::Range),
            r is Err && slot < old(self).public@.len() && row < old(self).height ==> r->Err_0
                == CircuitError::DuplicateBinding,
            r is Err ==> *final(self) == *old(self),
            r is Ok ==> final(self).bindings@ == old(self).bindings@.push(Binding { row, slot }),
            final(self).height == old(self).height,
            final(self).max_offset == old(self).max_offset,
            final(self).public@ == old(self).public@,
            final(self).cells@ == old(self).cells@,
            final(self).enabled@ == old(self).enabled@,
    {
        if slot >= self.public.len() || row >= self.height {
            return Err(CircuitError::Range);
        }
        if self.slot_taken(slot) {
            return Err(CircuitError::DuplicateBinding);
        }
        self.bindings.push(Binding { row, slot });
        Ok(())
    }

    /// Closes the region; the table keeps everything that was assigned.
    pub fn freeze(self) -> (t: Table)
        ensures
            t.public@ == self.public@,
            t.cells@ == self.cells@,
            t.enabled@ == self.enabled@,
            t.bindings@ == self.bindings@,
    {
        Table {
            public: self.public,
            cells: self.cells,
            enabled: self.enabled,
            bindings: self.bindings,
        }
    }
}

} // verus!
