//! The value decoder.
//!
//! The wire client hands out a cell only through typed accessors: asked for
//! a cell as some type, it answers with the value, with "null", or with a
//! type mismatch. A cell is therefore known by what each accessor says of
//! it, and decoding is probing: the accessors are tried in one fixed order
//! and the first that does not report a mismatch decides.

use vstd::prelude::*;
use vstd::string::*;

verus! {

/// What a typed accessor says of a cell.
pub enum Probed<T> {
    /// The cell is of another type.
    Mismatch,
    /// The cell is of this type and holds null.
    Absent,
    /// The cell is of this type and holds the value.
    Present(T),
}

/// The typed accessors that the decoder tries.
#[derive(Clone, Copy, Debug, PartialEq, Eq, Structural)]
pub enum Probe {
    Text,
    Int32,
    Int64,
    Int16,
    Float32,
    Float64,
    UInt8,
    Boolean,
    DateTime,
    Guid,
}

/// A cell of a raw row, as the ten accessors see it.
pub struct Cell {
    /// As text.
    pub text: Probed<String>,
    /// As a 32-bit integer.
    pub int32: Probed<i32>,
    /// As a 64-bit integer.
    pub int64: Probed<i64>,
    /// As a 16-bit integer.
    pub int16: Probed<i16>,
    /// As a single-precision number, given as the bits of the same number in
    /// double precision.
    pub float32: Probed<u64>,
    /// As a double-precision number, given by its bits.
    pub float64: Probed<u64>,
    /// As an unsigned byte.
    pub uint8: Probed<u8>,
    /// As a truth value.
    pub boolean: Probed<bool>,
    /// As a date with time, already in its text form.
    pub datetime: Probed<String>,
    /// As a unique identifier, already in its text form.
    pub guid: Probed<String>,
}

/// A decoded cell: one of a small closed set of portable kinds. Dates and
/// unique identifiers arrive as text.
pub enum PortableValue {
    /// No value.
    Null,
    /// A string.
    Text(String),
    /// An integer.
    Integer(i64),
    /// A finite double-precision number, given by its bits.
    Float(u64),
    /// A truth value.
    Boolean(bool),
    /// The placeholder for a cell that no accessor could read; it names the
    /// column.
    Unsupported(String),
}

/// The mathematical value of a [`PortableValue`].
pub enum PortableView {
    Null,
    Text(Seq<char>),
    Integer(int),
    Float(u64),
    Boolean(bool),
    Unsupported(Seq<char>),
}

impl View for PortableValue {
    type V = PortableView;

    open spec fn view(&self) -> PortableView {
        match self {
            PortableValue::Null => PortableView::Null,
            PortableValue::Text(s) => PortableView::Text(s@),
            PortableValue::Integer(n) => PortableView::Integer(*n as int),
            PortableValue::Float(bits) => PortableView::Float(*bits),
            PortableValue::Boolean(b) => PortableView::Boolean(*b),
            PortableValue::Unsupported(s) => PortableView::Unsupported(s@),
        }
    }
}

/// The order in which the accessors are tried. Some wire encodings can be
/// read as more than one type, so the order decides what comes out.
pub open spec fn probe_order() -> Seq<Probe> {
    seq![
        Probe::Text,
        Probe::Int32,
        Probe::Int64,
        Probe::Int16,
        Probe::Float32,
        Probe::Float64,
        Probe::UInt8,
        Probe::Boolean,
        Probe::DateTime,
        Probe::Guid,
    ]
}

/// Whether `bits` are those of a finite double-precision number: the
/// exponent is not all ones.
pub open spec fn is_finite_bits(bits: u64) -> bool {
    (bits >> 52) & 0x7FF != 0x7FF
}

/// The portable value of a number given by its bits: itself where it is
/// finite, null where it is an infinity or not a number.
pub open spec fn number_value(bits: u64) -> PortableView {
    if is_finite_bits(bits) {
        PortableView::Float(bits)
    } else {
        PortableView::Null
    }
}

/// What the accessor `probe` says of `cell`, with a value already in its
/// portable kind.
pub open spec fn outcome(cell: Cell, probe: Probe) -> Probed<PortableView> {
    match probe {
        Probe::Text => match cell.text {
            Probed::Mismatch => Probed::Mismatch,
            Probed::Absent => Probed::Absent,
            Probed::Present(s) => Probed::Present(PortableView::Text(s@)),
        },
        Probe::Int32 => match cell.int32 {
            Probed::Mismatch => Probed::Mismatch,
            Probed::Absent => Probed::Absent,
            Probed::Present(n) => Probed::Present(PortableView::Integer(n as int)),
        },
        Probe::Int64 => match cell.int64 {
            Probed::Mismatch => Probed::Mismatch,
            Probed::Absent => Probed::Absent,
            Probed::Present(n) => Probed::Present(PortableView::Integer(n as int)),
        },
        Probe::Int16 => match cell.int16 {
            Probed::Mismatch => Probed::Mismatch,
            Probed::Absent => Probed::Absent,
            Probed::Present(n) => Probed::Present(PortableView::Integer(n as int)),
        },
        Probe::Float32 => match cell.float32 {
            Probed::Mismatch => Probed::Mismatch,
            Probed::Absent => Probed::Absent,
            Probed::Present(bits) => Probed::Present(number_value(bits)),
        },
        Probe::Float64 => match cell.float64 {
            Probed::Mismatch => Probed::Mismatch,
            Probed::Absent => Probed::Absent,
            Probed::Present(bits) => Probed::Present(number_value(bits)),
        },
        Probe::UInt8 => match cell.uint8 {
            Probed::Mismatch => Probed::Mismatch,
            Probed::Absent => Probed::Absent,
            Probed::Present(n) => Probed::Present(PortableView::Integer(n as int)),
        },
        Probe::Boolean => match cell.boolean {
            Probed::Mismatch => Probed::Mismatch,
            Probed::Absent => Probed::Absent,
            Probed::Present(b) => Probed::Present(PortableView::Boolean(b)),
        },
        Probe::DateTime => match cell.datetime {
            Probed::Mismatch => Probed::Mismatch,
            Probed::Absent => Probed::Absent,
            Probed::Present(s) => Probed::Present(PortableView::Text(s@)),
        },
        Probe::Guid => match cell.guid {
            Probed::Mismatch => Probed::Mismatch,
            Probed::Absent => Probed::Absent,
            Probed::Present(s) => Probed::Present(PortableView::Text(s@)),
        },
    }
}

/// The placeholder for a cell of the column `column` that no accessor could
/// read.
pub open spec fn placeholder(column: Seq<char>) -> Seq<char> {
    "[Unsupported type: "@ + column + "]"@
}

/// What an answer settles: a mismatch leaves the decision to `otherwise`,
/// null is null, and a value is itself.
pub open spec fn settled(answer: Probed<PortableView>, otherwise: PortableView) -> PortableView {
    match answer {
        Probed::Mismatch => otherwise,
        Probed::Absent => PortableView::Null,
        Probed::Present(v) => v,
    }
}

/// What the probes from position `k` of the order on say of `cell`: the
/// first that is no mismatch decides; the placeholder where all are
/// mismatches.
pub open spec fn decoded_from(cell: Cell, column: Seq<char>, k: int) -> PortableView
    decreases probe_order().len() - k,
{
    if k < 0 || k >= probe_order().len() {
        PortableView::Unsupported(placeholder(column))
    } else {
        settled(outcome(cell, probe_order()[k]), decoded_from(cell, column, k + 1))
    }
}

/// The portable value of `cell`, which stands in the column `column`: what
/// the first accessor that reports no mismatch says, null where it reports
/// null, and the placeholder where every accessor reports a mismatch.
pub open spec fn decoded(cell: Cell, column: Seq<char>) -> PortableView {
    settled(
        outcome(cell, Probe::Text),
        settled(
            outcome(cell, Probe::Int32),
            settled(
                outcome(cell, Probe::Int64),
                settled(
                    outcome(cell, Probe::Int16),
                    settled(
                        outcome(cell, Probe::Float32),
                        settled(
                            outcome(cell, Probe::Float64),
                            settled(
                                outcome(cell, Probe::UInt8),
                                settled(
                                    outcome(cell, Probe::Boolean),
                                    settled(
                                        outcome(cell, Probe::DateTime),
                                        settled(
                                            outcome(cell, Probe::Guid),
                                            PortableView::Unsupported(placeholder(column)),
                                        ),
                                    ),
                                ),
                            ),
                        ),
                    ),
                ),
            ),
        ),
    )
}

/// Decoding follows the probe order from its start.
pub proof fn lemma_decoded_follows_the_order(cell: Cell, column: Seq<char>)
    ensures
        decoded(cell, column) == decoded_from(cell, column, 0),
{
    reveal_with_fuel(decoded_from, 11);
}

/// The name of column `i`, empty where `columns` has no such column.
pub open spec fn column_name(columns: Seq<String>, i: int) -> Seq<char> {
    if 0 <= i < columns.len() {
        columns[i]@
    } else {
        Seq::empty()
    }
}

/// The portable values of a row, cell by cell.
pub open spec fn decoded_row(columns: Seq<String>, row: Seq<Cell>) -> Seq<PortableView> {
    Seq::new(row.len(), |i: int| decoded(row[i], column_name(columns, i)))
}

/// The views of a sequence of values.
pub open spec fn views(values: Seq<PortableValue>) -> Seq<PortableView> {
    Seq::new(values.len(), |i: int| values[i]@)
}

/// The first accessor in the order that reports no mismatch decides: its
/// value comes out, or null where it reports null, whatever the accessors
/// after it would say.
pub proof fn lemma_first_answer_decides(cell: Cell, column: Seq<char>, k: int)
    requires
        0 <= k < probe_order().len(),
        forall|j: int| 0 <= j < k ==> outcome(cell, #[trigger] probe_order()[j]) is Mismatch,
        !(outcome(cell, probe_order()[k]) is Mismatch),
    ensures
        outcome(cell, probe_order()[k]) is Absent ==> decoded(cell, column) == PortableView::Null,
        outcome(cell, probe_order()[k]) matches Probed::Present(v) ==> decoded(cell, column) == v,
{
    lemma_mismatches_are_passed(cell, column, k);
}

/// Probes that report a mismatch leave the decision to those after them.
pub proof fn lemma_mismatches_are_passed(cell: Cell, column: Seq<char>, k: int)
    requires
        0 <= k <= probe_order().len(),
        forall|j: int| 0 <= j < k ==> outcome(cell, #[trigger] probe_order()[j]) is Mismatch,
    ensures
        decoded(cell, column) == decoded_from(cell, column, k),
    decreases k,
{
    if k > 0 {
        lemma_mismatches_are_passed(cell, column, k - 1);
        assert(outcome(cell, probe_order()[k - 1]) is Mismatch);
    } else {
        lemma_decoded_follows_the_order(cell, column);
    }
}

/// The placeholder comes out exactly for the cells that every accessor
/// reports as a mismatch.
pub proof fn lemma_placeholder_iff_unreadable(cell: Cell, column: Seq<char>)
    ensures
        decoded(cell, column) is Unsupported <==> forall|j: int|
            0 <= j < probe_order().len() ==> outcome(cell, #[trigger] probe_order()[j]) is Mismatch,
        decoded(cell, column) is Unsupported ==> decoded(cell, column) == PortableView::Unsupported(
            placeholder(column),
        ),
{
    let n = probe_order().len() as int;
    if forall|j: int| 0 <= j < n ==> outcome(cell, #[trigger] probe_order()[j]) is Mismatch {
        lemma_mismatches_are_passed(cell, column, n);
    } else {
        let k = first_answer(cell, 0);
        lemma_first_answer(cell, 0);
        lemma_first_answer_decides(cell, column, k);
    }
}

/// The position of the first accessor at or after `k` that reports no
/// mismatch, or the length of the order.
pub open spec fn first_answer(cell: Cell, k: int) -> int
    decreases probe_order().len() - k,
{
    if k < 0 || k >= probe_order().len() {
        k
    } else if outcome(cell, probe_order()[k]) is Mismatch {
        first_answer(cell, k + 1)
    } else {
        k
    }
}

/// [`first_answer`] passes mismatches only and stops at an answer.
pub proof fn lemma_first_answer(cell: Cell, k: int)
    requires
        0 <= k <= probe_order().len(),
    ensures
        k <= first_answer(cell, k) <= probe_order().len(),
        forall|j: int|
            k <= j < first_answer(cell, k) ==> outcome(cell, #[trigger] probe_order()[j])
                is Mismatch,
        first_answer(cell, k) < probe_order().len() ==> !(outcome(
            cell,
            probe_order()[first_answer(cell, k)],
        ) is Mismatch),
    decreases probe_order().len() - k,
{
    if k < probe_order().len() && outcome(cell, probe_order()[k]) is Mismatch {
        lemma_first_answer(cell, k + 1);
    }
}

/// A number that comes out of the decoder is finite.
pub proof fn lemma_decoded_numbers_are_finite(cell: Cell, column: Seq<char>)
    ensures
        decoded(cell, column) matches PortableView::Float(bits) ==> is_finite_bits(bits),
{
    let n = probe_order().len() as int;
    let k = first_answer(cell, 0);
    lemma_first_answer(cell, 0);
    if k < n {
        lemma_first_answer_decides(cell, column, k);
    } else {
        lemma_mismatches_are_passed(cell, column, n);
    }
}

impl Cell {
    /// A cell that every accessor reports as a mismatch.
    pub fn unknown() -> (c: Cell)
        ensures
            forall|p: Probe| outcome(c, p) is Mismatch,
            c == Cell::unknown_spec(),
    {
        Cell {
            text: Probed::Mismatch,
            int32: Probed::Mismatch,
            int64: Probed::Mismatch,
            int16: Probed::Mismatch,
            float32: Probed::Mismatch,
            float64: Probed::Mismatch,
            uint8: Probed::Mismatch,
            boolean: Probed::Mismatch,
            datetime: Probed::Mismatch,
            guid: Probed::Mismatch,
        }
    }

    /// The cell that every accessor reports as a mismatch.
    pub open spec fn unknown_spec() -> Cell {
        Cell {
            text: Probed::Mismatch,
            int32: Probed::Mismatch,
            int64: Probed::Mismatch,
            int16: Probed::Mismatch,
            float32: Probed::Mismatch,
            float64: Probed::Mismatch,
            uint8: Probed::Mismatch,
            boolean: Probed::Mismatch,
            datetime: Probed::Mismatch,
            guid: Probed::Mismatch,
        }
    }
}

/// The order in which the accessors are tried.
pub fn probe_sequence() -> (order: Vec<Probe>)
    ensures
        order@ == probe_order(),
{
    let mut order: Vec<Probe> = Vec::new();
    order.push(Probe::Text);
    order.push(Probe::Int32);
    order.push(Probe::Int64);
    order.push(Probe::Int16);
    order.push(Probe::Float32);
    order.push(Probe::Float64);
    order.push(Probe::UInt8);
    order.push(Probe::Boolean);
    order.push(Probe::DateTime);
    order.push(Probe::Guid);
    assert(order@ =~= probe_order());
    order
}

/// Whether `bits` are those of a finite double-precision number.
pub fn finite_bits(bits: u64) -> (r: bool)
    ensures
        r == is_finite_bits(bits),
{
    (bits >> 52) & 0x7FF != 0x7FF
}

/// The portable value of a number given by its bits.
fn number(bits: u64) -> (v: PortableValue)
    ensures
        v@ == number_value(bits),
{
    if finite_bits(bits) {
        PortableValue::Float(bits)
    } else {
        PortableValue::Null
    }
}

/// What the accessor `probe` says of `cell`.
pub fn probe_cell(cell: &Cell, probe: Probe) -> (r: Probed<PortableValue>)
    ensures
        match r {
            Probed::Mismatch => outcome(*cell, probe) is Mismatch,
            Probed::Absent => outcome(*cell, probe) is Absent,
            Probed::Present(v) => outcome(*cell, probe) == Probed::Present(v@),
        },
{
    match probe {
        Probe::Text => match &cell.text {
            Probed::Mismatch => Probed::Mismatch,
            Probed::Absent => Probed::Absent,
            Probed::Present(s) => Probed::Present(PortableValue::Text(s.clone())),
        },
        Probe::Int32 => match cell.int32 {
            Probed::Mismatch => Probed::Mismatch,
            Probed::Absent => Probed::Absent,
            Probed::Present(n) => Probed::Present(PortableValue::Integer(n as i64)),
        },
        Probe::Int64 => match cell.int64 {
            Probed::Mismatch => Probed::Mismatch,
            Probed::Absent => Probed::Absent,
            Probed::Present(n) => Probed::Present(PortableValue::Integer(n)),
        },
        Probe::Int16 => match cell.int16 {
            Probed::Mismatch => Probed::Mismatch,
            Probed::Absent => Probed::Absent,
            Probed::Present(n) => Probed::Present(PortableValue::Integer(n as i64)),
        },
        Probe::Float32 => match cell.float32 {
            Probed::Mismatch => Probed::Mismatch,
            Probed::Absent => Probed::Absent,
            Probed::Present(bits) => Probed::Present(number(bits)),
        },
        Probe::Float64 => match cell.float64 {
            Probed::Mismatch => Probed::Mismatch,
            Probed::Absent => Probed::Absent,
            Probed::Present(bits) => Probed::Present(number(bits)),
        },
        Probe::UInt8 => match cell.uint8 {
            Probed::Mismatch => Probed::Mismatch,
            Probed::Absent => Probed::Absent,
            Probed::Present(n) => Probed::Present(PortableValue::Integer(n as i64)),
        },
        Probe::Boolean => match cell.boolean {
            Probed::Mismatch => Probed::Mismatch,
            Probed::Absent => Probed::Absent,
            Probed::Present(b) => Probed::Present(PortableValue::Boolean(b)),
        },
        Probe::DateTime => match &cell.datetime {
            Probed::Mismatch => Probed::Mismatch,
            Probed::Absent => Probed::Absent,
            Probed::Present(s) => Probed::Present(PortableValue::Text(s.clone())),
        },
        Probe::Guid => match &cell.guid {
            Probed::Mismatch => Probed::Mismatch,
            Probed::Absent => Probed::Absent,
            Probed::Present(s) => Probed::Present(PortableValue::Text(s.clone())),
        },
    }
}

/// The placeholder for a cell of the column `column` that no accessor could
/// read.
pub fn unsupported_placeholder(column: &str) -> (s: String)
    ensures
        s@ == placeholder(column@),
{
    let mut s = String::new();
    s.append("[Unsupported type: ");
    s.append(column);
    s.append("]");
    s
}

/// Decodes one cell of the column `column`.
pub fn decode_cell(cell: &Cell, column: &str) -> (v: PortableValue)
    ensures
        v@ == decoded(*cell, column@),
{
    let order = probe_sequence();
    let mut k: usize = 0;
    proof {
        lemma_decoded_follows_the_order(*cell, column@);
    }
    while k < order.len()
        invariant
            k <= order.len(),
            order@ == probe_order(),
            decoded(*cell, column@) == decoded_from(*cell, column@, k as int),
        decreases order.len() - k,
    {
        match probe_cell(cell, order[k]) {
            Probed::Mismatch => {},
            Probed::Absent => {
                return PortableValue::Null;
            },
            Probed::Present(v) => {
                return v;
            },
        }
        k += 1;
    }
    PortableValue::Unsupported(unsupported_placeholder(column))
}

/// Decodes a raw row cell by cell, in order. A cell beyond the named
/// columns counts as standing in a column without a name.
pub fn extract_row_values(columns: &Vec<String>, row: &Vec<Cell>) -> (values: Vec<PortableValue>)
    ensures
        views(values@) == decoded_row(columns@, row@),
{
    let mut values: Vec<PortableValue> = Vec::new();
    let mut i: usize = 0;
    while i < row.len()
        invariant
            i <= row.len(),
            values.len() == i,
            forall|j: int|
                0 <= j < i ==> (#[trigger] values@[j])@ == decoded(
                    row@[j],
                    column_name(columns@, j),
                ),
        decreases row.len() - i,
    {
        let value = if i < columns.len() {
            decode_cell(&row[i], columns[i].as_str())
        } else {
            decode_cell(&row[i], "")
        };
        proof {
            reveal_strlit("");
            assert(""@ =~= Seq::<char>::empty());
        }
        values.push(value);
        i += 1;
    }
    assert(views(values@) =~= decoded_row(columns@, row@));
    values
}

} // verus!
