//! Circuit breakers and the circuit breaker board.
//!
//! The board receives toggle requests through one simulation variable that carries a
//! 64-bit pattern: the row in the low 32 bits and the column in the high 32 bits. A NaN
//! pattern means "no request". Each row reports a 64-bit state word. Simulation
//! variables are doubles; this module works on their raw IEEE-754 bit patterns.
use vstd::prelude::*;

use crate::float_bits::{f64_is_nan, is_nan};
use crate::text::{append_chars, chars_of, string_from_chars};

verus! {

broadcast use vstd::string::group_string_axioms;

/// Identifies an element of the electrical network.
#[derive(Clone, Copy, PartialEq, Eq, Structural, Debug)]
pub struct ElectricalElementIdentifier {
    pub id: usize,
}

/// Identifies a simulation variable.
#[derive(Clone, Copy, PartialEq, Eq, Structural, Debug)]
pub struct VariableIdentifier {
    pub id: usize,
}

/// Declares electrical circuits; it carries no state.
pub struct Circuit {}

/// A circuit breaker: it conducts unless it is tripped. It cannot trip on current, only by
/// being toggled.
pub struct CircuitBreaker {
    identifier: ElectricalElementIdentifier,
    tripped: bool,
}

impl CircuitBreaker {
    pub closed spec fn identifier(&self) -> ElectricalElementIdentifier {
        self.identifier
    }

    pub closed spec fn tripped(&self) -> bool {
        self.tripped
    }

    /// A breaker that is not tripped, known to the network as `identifier`.
    pub fn new(identifier: ElectricalElementIdentifier) -> (r: Self)
        ensures
            r.identifier() == identifier,
            !r.tripped(),
    {
        CircuitBreaker { identifier, tripped: false }
    }

    /// Trips a conducting breaker, or resets a tripped one.
    pub fn toggle(&mut self)
        ensures
            final(self).tripped() == !old(self).tripped(),
            final(self).identifier() == old(self).identifier(),
    {
        self.tripped = !self.tripped;
    }

    pub fn is_tripped(&self) -> (r: bool)
        ensures
            r == self.tripped(),
    {
        self.tripped
    }

    /// The breaker is one element: input and output share its identifier.
    pub fn input_identifier(&self) -> (r: ElectricalElementIdentifier)
        ensures
            r == self.identifier(),
    {
        self.identifier
    }

    pub fn output_identifier(&self) -> (r: ElectricalElementIdentifier)
        ensures
            r == self.identifier(),
    {
        self.identifier
    }

    /// Current flows through the breaker exactly when it is not tripped.
    pub fn is_conductive(&self) -> (r: bool)
        ensures
            r == !self.tripped(),
    {
        !self.tripped
    }
}

/// The bit pattern a toggle event carries: the first event value in the low 32 bits and
/// the second in the high 32 bits.
pub open spec fn encode_toggle_spec(row: u32, col: u32) -> u64 {
    ((row as u64) & 0xFFFF_FFFFu64) | ((col as u64) << 32u64)
}

/// Packs the two values of a breaker toggle event (row, column) into the bit pattern of
/// the board's toggle variable.
pub fn encode_toggle_event(row: u32, col: u32) -> (r: u64)
    ensures
        r == encode_toggle_spec(row, col),
{
    ((row as u64) & 0xFFFF_FFFFu64) | ((col as u64) << 32u64)
}

/// The row a toggle request addresses: its low 32 bits.
pub open spec fn toggle_row_spec(bits: u64) -> u64 {
    bits & 0xFFFF_FFFFu64
}

/// The column a toggle request addresses: its high 32 bits.
pub open spec fn toggle_col_spec(bits: u64) -> u64 {
    bits >> 32u64
}

/// Decoding a packed toggle event gives back the row and column that were packed.
/// The packed pattern is a request (not NaN) unless bits 20 to 30 of the column are all set.
pub proof fn lemma_toggle_event_round_trip(row: u32, col: u32)
    ensures
        toggle_row_spec(encode_toggle_spec(row, col)) == row as u64,
        toggle_col_spec(encode_toggle_spec(row, col)) == col as u64,
        (col >> 20u32) & 0x7FFu32 != 0x7FFu32 ==> !f64_is_nan(encode_toggle_spec(row, col)),
{
    let r = row as u64;
    let c = col as u64;
    assert((((r & 0xFFFF_FFFFu64) | (c << 32u64)) & 0xFFFF_FFFFu64) == r) by (bit_vector)
        requires
            r <= 0xFFFF_FFFFu64,
    ;
    assert((((r & 0xFFFF_FFFFu64) | (c << 32u64)) >> 32u64) == c) by (bit_vector)
        requires
            c <= 0xFFFF_FFFFu64,
    ;
    assert((col >> 20u32) & 0x7FFu32 != 0x7FFu32 ==> ((((r & 0xFFFF_FFFFu64) | (c << 32u64))
        >> 52u64) & 0x7FFu64 != 0x7FFu64)) by (bit_vector)
        requires
            c == col as u64,
    ;
}

/// The name of row `row`'s state variable on board `name`: "CB_{name}_{letter}", the
/// letters running from 'A'.
pub open spec fn row_variable_name(name: Seq<char>, row: int) -> Seq<char> {
    "CB_"@ + name + seq!['_', (65 + row) as char]
}

/// The name of board `name`'s toggle variable.
pub open spec fn toggle_variable_name_spec(name: Seq<char>) -> Seq<char> {
    "CB_"@ + name + "_TOGGLE_ROW_COL"@
}

/// The name of the simulator event that toggles a breaker on board `name`.
pub open spec fn toggle_event_name_spec(name: Seq<char>) -> Seq<char> {
    "CB_"@ + name + "_TOGGLE"@
}

/// "CB_{name}_TOGGLE_ROW_COL"
pub fn toggle_variable_name(name: &str) -> (r: String)
    ensures
        r@ == toggle_variable_name_spec(name@),
{
    let mut v = chars_of("CB_");
    append_chars(&mut v, &chars_of(name));
    append_chars(&mut v, &chars_of("_TOGGLE_ROW_COL"));
    string_from_chars(&v)
}

/// "CB_{name}_TOGGLE"
pub fn toggle_event_name(name: &str) -> (r: String)
    ensures
        r@ == toggle_event_name_spec(name@),
{
    let mut v = chars_of("CB_");
    append_chars(&mut v, &chars_of(name));
    append_chars(&mut v, &chars_of("_TOGGLE"));
    string_from_chars(&v)
}

/// Names of the per-row state variables of board `name`, one per row.
pub fn generate_variable_names(name: &str, rows: usize) -> (r: Vec<String>)
    requires
        rows <= 26,
    ensures
        r.len() == rows,
        forall|i: int| 0 <= i < rows ==> #[trigger] r@[i]@ == row_variable_name(name@, i),
{
    let mut names: Vec<String> = Vec::new();
    let base = chars_of(name);
    let mut row: usize = 0;
    while row < rows
        invariant
            row <= rows <= 26,
            base@ == name@,
            names.len() == row,
            forall|i: int| 0 <= i < row ==> #[trigger] names@[i]@ == row_variable_name(name@, i),
        decreases rows - row,
    {
        let mut v = chars_of("CB_");
        append_chars(&mut v, &base);
        v.push('_');
        let letter: u8 = 65u8 + (row as u8);
        v.push(letter as char);
        proof {
            assert(v@ =~= row_variable_name(name@, row as int));
        }
        names.push(string_from_chars(&v));
        row = row + 1;
    }
    names
}

/// The state word of a row after toggling column `col`: the column's bit flips when the
/// breaker becomes tripped and is left alone when it is reset.
pub open spec fn toggled_state_word(word: u64, col: int, now_tripped: bool) -> u64 {
    if now_tripped {
        word ^ (1u64 << (col as u64))
    } else {
        word
    }
}

/// The board after toggling the breaker at (`row`, `col`): the breaker flips, and the row's
/// state word follows `toggled_state_word`; outside a `rows` by `cols` board nothing changes.
pub open spec fn toggled_view(v: BoardView, row: int, col: int, rows: int, cols: int) -> BoardView {
    if 0 <= row < rows && 0 <= col < cols {
        let now = !v.tripped[row][col];
        BoardView {
            tripped: v.tripped.update(row, v.tripped[row].update(col, now)),
            states: v.states.update(row, toggled_state_word(v.states[row], col, now)),
        }
    } else {
        v
    }
}

/// Toggling the same breaker twice restores every breaker, and flips the row's state word
/// in exactly that breaker's bit (once, on whichever of the two toggles trips it); the
/// other words are unchanged.
pub proof fn lemma_double_toggle(v: BoardView, row: int, col: int, rows: int, cols: int)
    requires
        0 <= row < rows,
        0 <= col < cols <= 64,
        v.tripped.len() == rows,
        v.states.len() == rows,
        v.tripped[row].len() == cols,
    ensures
        ({
            let w = toggled_view(toggled_view(v, row, col, rows, cols), row, col, rows, cols);
            &&& w.tripped == v.tripped
            &&& w.states == v.states.update(row, v.states[row] ^ (1u64 << (col as u64)))
        }),
{
    let w1 = toggled_view(v, row, col, rows, cols);
    let w = toggled_view(w1, row, col, rows, cols);
    assert(w1.tripped[row][col] == !v.tripped[row][col]);
    assert(w.tripped =~~= v.tripped);
    let x = v.states[row];
    let m = 1u64 << (col as u64);
    assert((x ^ m) ^ 0u64 == x ^ m) by (bit_vector);
    assert(w.states =~= v.states.update(row, x ^ m));
}

/// The abstract state of a board.
pub struct BoardView {
    /// `tripped[r][c]`: breaker at row `r`, column `c` is tripped.
    pub tripped: Seq<Seq<bool>>,
    /// The state word each row reports.
    pub states: Seq<u64>,
}

/// `id` is what `register` returns for a name whose characters are `name`.
pub open spec fn registered_as<F: Fn(String) -> VariableIdentifier>(register: F, name: Seq<char>, id: VariableIdentifier) -> bool {
    exists|s: String| s@ == name && #[trigger] call_ensures(register, (s,), id)
}

/// A board of `ROWS` by `COLUMNS` circuit breakers, toggled through one simulation variable.
pub struct CircuitBreakerBoard<const ROWS: usize, const COLUMNS: usize> {
    toggle_var_id: VariableIdentifier,
    breaker_state_ids: Vec<VariableIdentifier>,
    circuit_breakers: Vec<Vec<CircuitBreaker>>,
    circuit_breaker_states: Vec<u64>,
}

impl<const ROWS: usize, const COLUMNS: usize> CircuitBreakerBoard<ROWS, COLUMNS> {
    pub closed spec fn view(&self) -> BoardView {
        BoardView {
            tripped: Seq::new(
                self.circuit_breakers@.len(),
                |r: int| Seq::new(self.circuit_breakers@[r]@.len(), |c: int| self.circuit_breakers@[r]@[c].tripped()),
            ),
            states: self.circuit_breaker_states@,
        }
    }

    pub closed spec fn toggle_var_id(&self) -> VariableIdentifier {
        self.toggle_var_id
    }

    pub closed spec fn breaker_state_ids(&self) -> Seq<VariableIdentifier> {
        self.breaker_state_ids@
    }

    pub closed spec fn breaker_identifier(&self, row: int, col: int) -> ElectricalElementIdentifier {
        self.circuit_breakers@[row]@[col].identifier()
    }

    /// Dimensions match the board's parameters and every state word covers the columns.
    pub closed spec fn wf(&self) -> bool {
        &&& COLUMNS <= 64
        &&& self.breaker_state_ids@.len() == ROWS
        &&& self.circuit_breakers@.len() == ROWS
        &&& self.circuit_breaker_states@.len() == ROWS
        &&& forall|r: int| 0 <= r < ROWS ==> (#[trigger] self.circuit_breakers@[r])@.len() == COLUMNS
    }

    /// A board whose breakers all conduct and whose state words are all zero, with the
    /// given variables and breaker identifiers.
    fn from_identifiers(
        toggle_var_id: VariableIdentifier,
        breaker_state_ids: Vec<VariableIdentifier>,
        breaker_ids: &Vec<Vec<ElectricalElementIdentifier>>,
    ) -> (r: Self)
        requires
            COLUMNS <= 64,
            breaker_state_ids.len() == ROWS,
            breaker_ids.len() == ROWS,
            forall|i: int| 0 <= i < ROWS ==> (#[trigger] breaker_ids@[i])@.len() == COLUMNS,
        ensures
            r.wf(),
            r.toggle_var_id() == toggle_var_id,
            r.breaker_state_ids() == breaker_state_ids@,
            r.view().states == Seq::new(ROWS as nat, |i: int| 0u64),
            forall|i: int, j: int|
                0 <= i < ROWS && 0 <= j < COLUMNS ==> !(#[trigger] r.view().tripped[i][j]),
            forall|i: int, j: int|
                0 <= i < ROWS && 0 <= j < COLUMNS ==> #[trigger] r.breaker_identifier(i, j)
                    == breaker_ids@[i]@[j],
    {
        let mut breakers: Vec<Vec<CircuitBreaker>> = Vec::new();
        let mut states: Vec<u64> = Vec::new();
        let mut i: usize = 0;
        while i < ROWS
            invariant
                i <= ROWS,
                breaker_ids.len() == ROWS,
                forall|k: int| 0 <= k < ROWS ==> (#[trigger] breaker_ids@[k])@.len() == COLUMNS,
                breakers@.len() == i,
                states@ == Seq::new(i as nat, |k: int| 0u64),
                forall|k: int| 0 <= k < i ==> (#[trigger] breakers@[k])@.len() == COLUMNS,
                forall|k: int, j: int|
                    0 <= k < i && 0 <= j < COLUMNS ==> !(#[trigger] breakers@[k]@[j]).tripped()
                        && breakers@[k]@[j].identifier() == breaker_ids@[k]@[j],
            decreases ROWS - i,
        {
            let mut row: Vec<CircuitBreaker> = Vec::new();
            let mut j: usize = 0;
            while j < COLUMNS
                invariant
                    i < ROWS,
                    j <= COLUMNS,
                    breaker_ids.len() == ROWS,
                    breaker_ids@[i as int]@.len() == COLUMNS,
                    row@.len() == j,
                    forall|c: int|
                        0 <= c < j ==> !(#[trigger] row@[c]).tripped() && row@[c].identifier()
                            == breaker_ids@[i as int]@[c],
                decreases COLUMNS - j,
            {
                row.push(CircuitBreaker::new(breaker_ids[i][j]));
                j = j + 1;
            }
            breakers.push(row);
            states.push(0u64);
            i = i + 1;
            assert(states@ =~= Seq::new(i as nat, |k: int| 0u64));
        }
        let r = CircuitBreakerBoard {
            toggle_var_id,
            breaker_state_ids,
            circuit_breakers: breakers,
            circuit_breaker_states: states,
        };
        r
    }

    /// A board named `name` whose breakers all conduct and whose state words are all
    /// zero. Its variables are registered through `register`: first each row's
    /// state-word variable, in row order, named as `generate_variable_names` names them
    /// ("CB_{name}_A", "CB_{name}_B", ...), then the toggle variable
    /// "CB_{name}_TOGGLE_ROW_COL"; each keeps the identifier `register` returns for its
    /// name. `breaker_ids[r][c]` is the network identifier of the breaker at row `r`,
    /// column `c`.
    pub fn new<F: Fn(String) -> VariableIdentifier>(
        name: &str,
        register: F,
        breaker_ids: &Vec<Vec<ElectricalElementIdentifier>>,
    ) -> (r: Self)
        requires
            ROWS <= 26,
            COLUMNS <= 64,
            breaker_ids.len() == ROWS,
            forall|i: int| 0 <= i < ROWS ==> (#[trigger] breaker_ids@[i])@.len() == COLUMNS,
            forall|s: String| call_requires(register, (s,)),
        ensures
            r.wf(),
            registered_as(register, toggle_variable_name_spec(name@), r.toggle_var_id()),
            forall|i: int|
                0 <= i < ROWS ==> #[trigger] registered_as(register, row_variable_name(name@, i), r.breaker_state_ids()[i]),
            r.view().states == Seq::new(ROWS as nat, |i: int| 0u64),
            forall|i: int, j: int|
                0 <= i < ROWS && 0 <= j < COLUMNS ==> !(#[trigger] r.view().tripped[i][j]),
            forall|i: int, j: int|
                0 <= i < ROWS && 0 <= j < COLUMNS ==> #[trigger] r.breaker_identifier(i, j)
                    == breaker_ids@[i]@[j],
    {
        let names = generate_variable_names(name, ROWS);
        let mut ids: Vec<VariableIdentifier> = Vec::new();
        let mut i: usize = 0;
        while i < ROWS
            invariant
                i <= ROWS <= 26,
                names.len() == ROWS,
                forall|k: int| 0 <= k < ROWS ==> #[trigger] names@[k]@ == row_variable_name(name@, k),
                forall|s: String| call_requires(register, (s,)),
                ids.len() == i,
                forall|k: int|
                    0 <= k < i ==> #[trigger] registered_as(register, row_variable_name(name@, k), ids@[k]),
            decreases ROWS - i,
        {
            let s = names[i].clone();
            let ghost gs = s;
            assert(gs@ == row_variable_name(name@, i as int));
            let id = register(s);
            assert(call_ensures(register, (gs,), id));
            let ghost old_ids = ids@;
            ids.push(id);
            proof {
                assert forall|k: int| 0 <= k < i + 1 implies #[trigger] registered_as(
                    register,
                    row_variable_name(name@, k),
                    ids@[k],
                ) by {
                    if k < i {
                        assert(ids@[k] == old_ids[k]);
                        assert(registered_as(register, row_variable_name(name@, k), old_ids[k]));
                    } else {
                        assert(ids@[k] == id);
                        assert(gs@ == row_variable_name(name@, k) && call_ensures(register, (gs,), ids@[k]));
                    }
                }
            }
            i = i + 1;
        }
        let ghost final_ids = ids@;
        let t = toggle_variable_name(name);
        let ghost gt = t;
        let toggle_id = register(t);
        assert(call_ensures(register, (gt,), toggle_id));
        let r = Self::from_identifiers(toggle_id, ids, breaker_ids);
        assert forall|k: int| 0 <= k < ROWS implies #[trigger] registered_as(
            register,
            row_variable_name(name@, k),
            r.breaker_state_ids()[k],
        ) by {
            assert(r.breaker_state_ids()[k] == final_ids[k]);
            assert(registered_as(register, row_variable_name(name@, k), final_ids[k]));
        }
        assert(gt@ == toggle_variable_name_spec(name@) && call_ensures(register, (gt,), r.toggle_var_id()));
        r
    }

    /// Toggles the breaker at (`row`, `col`) and updates the row's state word; a request
    /// outside the board changes nothing.
    pub fn toggle_breaker(&mut self, row: usize, col: usize)
        requires
            old(self).wf(),
        ensures
            final(self).wf(),
            final(self).toggle_var_id() == old(self).toggle_var_id(),
            final(self).breaker_state_ids() == old(self).breaker_state_ids(),
            forall|i: int, j: int|
                0 <= i < ROWS && 0 <= j < COLUMNS ==> #[trigger] final(self).breaker_identifier(i, j)
                    == old(self).breaker_identifier(i, j),
            final(self).view() == toggled_view(old(self).view(), row as int, col as int, ROWS as int, COLUMNS as int),
    {
        if row < ROWS && col < COLUMNS {
            let ghost old_view = self.view();
            let ghost old_breakers = self.circuit_breakers@;
            self.circuit_breakers[row][col].toggle();
            let tripped = self.circuit_breakers[row][col].is_tripped();
            let word = self.circuit_breaker_states[row];
            let bit: u64 = if tripped { 1u64 } else { 0u64 };
            let new_word = word ^ (bit << (col as u64));
            proof {
                if !tripped {
                    assert(word ^ (0u64 << (col as u64)) == word) by (bit_vector);
                }
            }
            self.circuit_breaker_states.set(row, new_word);
            proof {
                assert(toggled_state_word(word, col as int, tripped) == new_word);
                assert forall|r: int| 0 <= r < ROWS implies (#[trigger] self.circuit_breakers@[r])@.len() == COLUMNS by {
                    if r != row {
                        assert(self.circuit_breakers@[r] == old_breakers[r]);
                    }
                }
                assert(self.view().tripped =~~= old_view.tripped.update(
                    row as int,
                    old_view.tripped[row as int].update(col as int, !old_view.tripped[row as int][col as int]),
                ));
                assert(self.view().states =~= old_view.states.update(
                    row as int,
                    toggled_state_word(old_view.states[row as int], col as int, tripped),
                ));
            }
        }
    }

    /// Reads the toggle variable (as its bit pattern) and applies the request it carries:
    /// a NaN pattern is no request; otherwise the low 32 bits give the row and the high
    /// 32 bits the column.
    pub fn read(&mut self, toggle_bits: u64)
        requires
            old(self).wf(),
        ensures
            final(self).wf(),
            f64_is_nan(toggle_bits) ==> final(self).view() == old(self).view(),
            !f64_is_nan(toggle_bits) ==> final(self).view() == toggled_view(
                old(self).view(),
                toggle_row_spec(toggle_bits) as int,
                toggle_col_spec(toggle_bits) as int,
                ROWS as int,
                COLUMNS as int,
            ),
    {
        if !is_nan(toggle_bits) {
            let row: u64 = toggle_bits & 0xFFFF_FFFFu64;
            let col: u64 = toggle_bits >> 32u64;
            assert(toggle_bits & 0xFFFF_FFFFu64 <= 0xFFFF_FFFFu64) by (bit_vector);
            assert(toggle_bits >> 32u64 <= 0xFFFF_FFFFu64) by (bit_vector);
            self.toggle_breaker(row as usize, col as usize);
        }
    }

    /// The values to publish: each row's state-word variable with its state word.
    pub fn write(&self) -> (r: Vec<(VariableIdentifier, u64)>)
        requires
            self.wf(),
        ensures
            r.len() == ROWS,
            forall|i: int|
                0 <= i < ROWS ==> #[trigger] r@[i] == (self.breaker_state_ids()[i], self.view().states[i]),
    {
        let mut out: Vec<(VariableIdentifier, u64)> = Vec::new();
        let mut i: usize = 0;
        while i < ROWS
            invariant
                self.wf(),
                i <= ROWS,
                out.len() == i,
                forall|k: int|
                    0 <= k < i ==> #[trigger] out@[k] == (self.breaker_state_ids()[k], self.view().states[k]),
            decreases ROWS - i,
        {
            out.push((self.breaker_state_ids[i], self.circuit_breaker_states[i]));
            i = i + 1;
        }
        out
    }
}

} // verus!
