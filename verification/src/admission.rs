//! The admission layer: an ordered table of `(matcher, policy)` rows walked
//! per call. The first matching row selects at most one concurrent-slot
//! policy; a nested sub-table with a fallback lets one cell carry either a
//! leaf policy or a whole sub-dispatch.

use crate::context::{Context, Extensions, ExtensionsView, Request};
use crate::matcher::Matcher;
use crate::net::SocketAddr;
use crate::policy::{AcquireStep, ConcurrentPolicy};
use vstd::pervasive::VecAdditionalExecFns;
use vstd::prelude::*;

verus! {

/// A table cell as the user writes it: a leaf policy, or a nested sub-table
/// with an optional fallback policy. A row's cell of `None` means the row
/// admits unconditionally.
#[derive(Debug)]
pub enum PolicyCell {
    Leaf(ConcurrentPolicy),
    Tree(Vec<(Matcher, Option<PolicyCell>)>, Option<ConcurrentPolicy>),
}

/// A stored table cell: the same shape with every policy replaced by the
/// index of its slot in the layer's policy store.
#[derive(Debug)]
pub enum CellIndex {
    Leaf(usize),
    Tree(Vec<(Matcher, Option<CellIndex>)>, Option<usize>),
}

/// What a call's walk over the table decided.
#[derive(Clone, Copy, PartialEq, Eq, Structural, Debug)]
pub enum Selection {
    /// No row matched: the call passes through.
    NoMatch,
    /// A row matched and admits unconditionally.
    Unconditional,
    /// A row matched and selected the policy in this slot.
    Limited(usize),
}

/// Proof that a slot of one policy is held. A permit is handed back exactly
/// once, to `finish`, which releases the slot; it can be neither copied nor
/// forged.
#[derive(Debug)]
pub struct Permit {
    idx: usize,
}

impl Permit {
    pub closed spec fn spec_idx(&self) -> usize {
        self.idx
    }

    /// The policy slot this permit holds.
    pub fn slot(&self) -> (r: usize)
        ensures
            r == self.spec_idx(),
    {
        self.idx
    }
}

/// One step of a call through the layer.
#[derive(Debug)]
pub enum CallStep {
    /// No limit applies: forward the call to the inner service unchanged.
    Forward,
    /// A slot was reserved: run the inner service, then hand the permit to
    /// `finish` on every exit path.
    Admitted(Permit),
    /// The selected policy denied the call: fail with `LimitExceeded`.
    Rejected,
    /// The caller's cancellation fired while waiting: fail with `Cancelled`.
    Cancelled,
    /// The selected policy is saturated: sleep this many milliseconds and
    /// poll again with the next attempt index.
    Sleep(u64),
}

/// The admission errors a caller can see; anything else a call returns
/// comes from the inner service.
#[derive(Clone, Copy, PartialEq, Eq, Structural, Debug)]
pub enum AdmissionError {
    /// The selected policy denied the call.
    LimitExceeded,
    /// The call was cancelled while waiting for a slot.
    Cancelled,
}

/// A stored cell is well formed for a policy store of `n` slots: every index
/// is in range and every matcher is well formed.
pub open spec fn spec_cell_wf(cell: CellIndex, n: nat) -> bool
    decreases cell, 0int, 0int,
{
    match cell {
        CellIndex::Leaf(i) => i < n,
        CellIndex::Tree(rows, fb) => spec_rows_wf(rows@, 0, n) && match fb {
            Some(i) => i < n,
            None => true,
        },
    }
}

/// Every row of a stored table from position `i` on is well formed.
pub open spec fn spec_rows_wf(rows: Seq<(Matcher, Option<CellIndex>)>, i: int, n: nat) -> bool
    decreases rows, rows.len() - i, 1int,
{
    if i < 0 || i >= rows.len() {
        true
    } else {
        spec_row_wf(rows[i], n) && spec_rows_wf(rows, i + 1, n)
    }
}

/// One stored row is well formed.
pub open spec fn spec_row_wf(row: (Matcher, Option<CellIndex>), n: nat) -> bool
    decreases row, 0int, 0int,
{
    row.0.wf() && match row.1 {
        None => true,
        Some(cell) => spec_cell_wf(cell, n),
    }
}

/// The selection a walk over stored rows makes, starting at row `i`: the
/// first matching row decides; later rows play no part.
pub open spec fn spec_select_rows(
    rows: Seq<(Matcher, Option<CellIndex>)>,
    i: int,
    peer: Option<SocketAddr>,
    req: Request,
) -> Selection
    decreases rows, rows.len() - i, 1int,
{
    if i < 0 || i >= rows.len() {
        Selection::NoMatch
    } else if rows[i].0.spec_matches(peer, req) {
        match rows[i].1 {
            None => Selection::Unconditional,
            Some(cell) => spec_select_cell(cell, peer, req),
        }
    } else {
        spec_select_rows(rows, i + 1, peer, req)
    }
}

/// The selection a matched cell makes: a leaf selects its policy; a nested
/// sub-table dispatches again, and its fallback stands in when no sub-row
/// matches.
pub open spec fn spec_select_cell(
    cell: CellIndex,
    peer: Option<SocketAddr>,
    req: Request,
) -> Selection
    decreases cell, 0int, 0int,
{
    match cell {
        CellIndex::Leaf(p) => Selection::Limited(p),
        CellIndex::Tree(sub, fb) => match spec_select_rows(sub@, 0, peer, req) {
            Selection::NoMatch => match fb {
                None => Selection::Unconditional,
                Some(p) => Selection::Limited(p),
            },
            s => s,
        },
    }
}


/// How the caller's scratch evolves while the walk from row `i` runs: a
/// failed matcher leaves it unchanged, the first matching one commits its
/// sub-matches, and a nested sub-table walks on with the committed scratch.
pub open spec fn spec_scratch_rows(
    rows: Seq<(Matcher, Option<CellIndex>)>,
    i: int,
    ext: ExtensionsView,
    peer: Option<SocketAddr>,
    req: Request,
) -> ExtensionsView
    decreases rows, rows.len() - i, 1int,
{
    if i < 0 || i >= rows.len() {
        ext
    } else if rows[i].0.spec_matches(peer, req) {
        let committed = rows[i].0.spec_commit(ext, peer, req);
        match rows[i].1 {
            Some(CellIndex::Tree(sub, fb)) => spec_scratch_rows(sub@, 0, committed, peer, req),
            _ => committed,
        }
    } else {
        spec_scratch_rows(rows, i + 1, ext, peer, req)
    }
}

/// Selection skips rows that do not match.
pub proof fn lemma_select_skip(
    rows: Seq<(Matcher, Option<CellIndex>)>,
    k: int,
    i: int,
    peer: Option<SocketAddr>,
    req: Request,
)
    requires
        0 <= k <= i <= rows.len(),
        forall|j: int| k <= j < i ==> !rows[j].0.spec_matches(peer, req),
    ensures
        spec_select_rows(rows, k, peer, req) == spec_select_rows(rows, i, peer, req),
    decreases i - k,
{
    if k < i {
        lemma_select_skip(rows, k + 1, i, peer, req);
    }
}

/// Selection uniqueness: when row `i` is the first row that matches, the
/// whole walk decides exactly what row `i`'s cell decides, whatever stands
/// in the rows after it.
pub proof fn lemma_selection_first_match(
    rows: Seq<(Matcher, Option<CellIndex>)>,
    i: int,
    peer: Option<SocketAddr>,
    req: Request,
)
    requires
        0 <= i < rows.len(),
        rows[i].0.spec_matches(peer, req),
        forall|j: int| 0 <= j < i ==> !rows[j].0.spec_matches(peer, req),
    ensures
        spec_select_rows(rows, 0, peer, req) == match rows[i].1 {
            None => Selection::Unconditional,
            Some(cell) => spec_select_cell(cell, peer, req),
        },
{
    lemma_select_skip(rows, 0, i, peer, req);
}


/// What a user table, as written, designates for a call: nothing, an
/// unconditional admit, or one concrete policy.
pub enum PolicyChoice {
    NoMatch,
    Unconditional,
    Limited(ConcurrentPolicy),
}

/// The choice a walk over user rows makes, starting at row `i`.
pub open spec fn spec_choice_rows(
    rows: Seq<(Matcher, Option<PolicyCell>)>,
    i: int,
    peer: Option<SocketAddr>,
    req: Request,
) -> PolicyChoice
    decreases rows, rows.len() - i, 1int,
{
    if i < 0 || i >= rows.len() {
        PolicyChoice::NoMatch
    } else if rows[i].0.spec_matches(peer, req) {
        match rows[i].1 {
            None => PolicyChoice::Unconditional,
            Some(cell) => spec_choice_cell(cell, peer, req),
        }
    } else {
        spec_choice_rows(rows, i + 1, peer, req)
    }
}

/// The choice a matched user cell makes.
pub open spec fn spec_choice_cell(
    cell: PolicyCell,
    peer: Option<SocketAddr>,
    req: Request,
) -> PolicyChoice
    decreases cell, 0int, 0int,
{
    match cell {
        PolicyCell::Leaf(p) => PolicyChoice::Limited(p),
        PolicyCell::Tree(sub, fb) => match spec_choice_rows(sub@, 0, peer, req) {
            PolicyChoice::NoMatch => match fb {
                None => PolicyChoice::Unconditional,
                Some(p) => PolicyChoice::Limited(p),
            },
            c => c,
        },
    }
}

/// A stored selection agrees with a user-table choice when they fall in the
/// same case and a selected slot holds exactly the designated policy.
pub open spec fn spec_selection_agrees(
    s: Selection,
    pols: Seq<ConcurrentPolicy>,
    c: PolicyChoice,
) -> bool {
    match (s, c) {
        (Selection::NoMatch, PolicyChoice::NoMatch) => true,
        (Selection::Unconditional, PolicyChoice::Unconditional) => true,
        (Selection::Limited(i), PolicyChoice::Limited(p)) => i < pols.len() && pols[i as int]
            == p,
        _ => false,
    }
}

/// Construction fidelity, row walk: stored rows that model user rows select
/// exactly what the user rows designate.
pub proof fn lemma_model_select_rows(
    rix: Seq<(Matcher, Option<CellIndex>)>,
    pols: Seq<ConcurrentPolicy>,
    rows: Seq<(Matcher, Option<PolicyCell>)>,
    j: int,
    peer: Option<SocketAddr>,
    req: Request,
)
    requires
        spec_rows_model(rix, pols, rows, j),
    ensures
        spec_selection_agrees(
            spec_select_rows(rix, j, peer, req),
            pols,
            spec_choice_rows(rows, j, peer, req),
        ),
    decreases rows, rows.len() - j, 1int,
{
    if 0 <= j < rows.len() {
        assert(spec_row_models(rix[j], pols, rows[j]));
        if rows[j].0.spec_matches(peer, req) {
            match (rix[j].1, rows[j].1) {
                (Some(cix), Some(cell)) => {
                    lemma_model_select_cell(cix, pols, cell, peer, req);
                },
                _ => {},
            }
        } else {
            lemma_model_select_rows(rix, pols, rows, j + 1, peer, req);
        }
    }
}

/// Construction fidelity, cell: a stored cell that models a user cell
/// selects exactly what the user cell designates.
pub proof fn lemma_model_select_cell(
    cix: CellIndex,
    pols: Seq<ConcurrentPolicy>,
    cell: PolicyCell,
    peer: Option<SocketAddr>,
    req: Request,
)
    requires
        spec_cell_models(cix, pols, cell),
    ensures
        spec_selection_agrees(
            spec_select_cell(cix, peer, req),
            pols,
            spec_choice_cell(cell, peer, req),
        ),
    decreases cell, 0int, 0int,
{
    match (cix, cell) {
        (CellIndex::Tree(rix, fix), PolicyCell::Tree(rows, fb)) => {
            lemma_model_select_rows(rix@, pols, rows@, 0, peer, req);
        },
        _ => {},
    }
}

/// The selection of a well-formed table only names policies in range.
pub proof fn lemma_select_rows_in_range(
    rows: Seq<(Matcher, Option<CellIndex>)>,
    i: int,
    n: nat,
    peer: Option<SocketAddr>,
    req: Request,
)
    requires
        spec_rows_wf(rows, i, n),
    ensures
        spec_select_rows(rows, i, peer, req) matches Selection::Limited(p) ==> p < n,
    decreases rows, rows.len() - i, 1int,
{
    if 0 <= i < rows.len() {
        assert(spec_row_wf(rows[i], n));
        if rows[i].0.spec_matches(peer, req) {
            match rows[i].1 {
                None => {},
                Some(cell) => {
                    lemma_select_cell_in_range(cell, n, peer, req);
                },
            }
        } else {
            lemma_select_rows_in_range(rows, i + 1, n, peer, req);
        }
    }
}

/// The selection of a well-formed cell only names policies in range.
pub proof fn lemma_select_cell_in_range(
    cell: CellIndex,
    n: nat,
    peer: Option<SocketAddr>,
    req: Request,
)
    requires
        spec_cell_wf(cell, n),
    ensures
        spec_select_cell(cell, peer, req) matches Selection::Limited(p) ==> p < n,
    decreases cell, 0int, 0int,
{
    match cell {
        CellIndex::Leaf(p) => {},
        CellIndex::Tree(sub, fb) => {
            lemma_select_rows_in_range(sub@, 0, n, peer, req);
        },
    }
}


/// A user cell is well formed: every policy and matcher in it is.
pub open spec fn spec_input_cell_wf(cell: PolicyCell) -> bool
    decreases cell, 0int, 0int,
{
    match cell {
        PolicyCell::Leaf(p) => p.wf(),
        PolicyCell::Tree(rows, fb) => spec_table_wf(rows@, 0) && match fb {
            Some(p) => p.wf(),
            None => true,
        },
    }
}

/// Every row of a user table from position `i` on is well formed.
pub open spec fn spec_table_wf(rows: Seq<(Matcher, Option<PolicyCell>)>, i: int) -> bool
    decreases rows, rows.len() - i, 1int,
{
    if i < 0 || i >= rows.len() {
        true
    } else {
        spec_input_row_wf(rows[i]) && spec_table_wf(rows, i + 1)
    }
}

/// One user row is well formed.
pub open spec fn spec_input_row_wf(row: (Matcher, Option<PolicyCell>)) -> bool
    decreases row, 0int, 0int,
{
    row.0.wf() && match row.1 {
        None => true,
        Some(cell) => spec_input_cell_wf(cell),
    }
}

/// Well-formedness of a user table extends to any later start.
pub proof fn lemma_table_wf_tail(rows: Seq<(Matcher, Option<PolicyCell>)>, i: int, j: int)
    requires
        0 <= i <= j,
        spec_table_wf(rows, i),
    ensures
        spec_table_wf(rows, j),
        j < rows.len() ==> spec_input_row_wf(rows[j]),
    decreases j - i,
{
    if i < j {
        lemma_table_wf_tail(rows, i + 1, j);
    }
}

/// A stored cell models a user cell over a policy store: the same shape and
/// matchers, with each policy moved into the slot its leaf names.
pub open spec fn spec_cell_models(
    cix: CellIndex,
    pols: Seq<ConcurrentPolicy>,
    cell: PolicyCell,
) -> bool
    decreases cell, 0int, 0int,
{
    match (cix, cell) {
        (CellIndex::Leaf(i), PolicyCell::Leaf(p)) => i < pols.len() && pols[i as int] == p,
        (CellIndex::Tree(rix, fix), PolicyCell::Tree(rows, fb)) => {
            spec_rows_model(rix@, pols, rows@, 0) && match (fix, fb) {
                (None, None) => true,
                (Some(i), Some(p)) => i < pols.len() && pols[i as int] == p,
                _ => false,
            }
        },
        _ => false,
    }
}

/// Stored rows model user rows, row for row from position `j` on.
pub open spec fn spec_rows_model(
    rix: Seq<(Matcher, Option<CellIndex>)>,
    pols: Seq<ConcurrentPolicy>,
    rows: Seq<(Matcher, Option<PolicyCell>)>,
    j: int,
) -> bool
    decreases rows, rows.len() - j, 1int,
{
    if rix.len() != rows.len() {
        false
    } else if j < 0 || j >= rows.len() {
        true
    } else {
        spec_row_models(rix[j], pols, rows[j]) && spec_rows_model(rix, pols, rows, j + 1)
    }
}

/// One stored row models one user row.
pub open spec fn spec_row_models(
    rx: (Matcher, Option<CellIndex>),
    pols: Seq<ConcurrentPolicy>,
    row: (Matcher, Option<PolicyCell>),
) -> bool
    decreases row, 0int, 0int,
{
    rx.0 == row.0 && match (rx.1, row.1) {
        (None, None) => true,
        (Some(cix), Some(cell)) => spec_cell_models(cix, pols, cell),
        _ => false,
    }
}

/// A model over a policy store still holds over any extension of the store.
pub proof fn lemma_cell_models_grow(
    cix: CellIndex,
    pols1: Seq<ConcurrentPolicy>,
    pols2: Seq<ConcurrentPolicy>,
    cell: PolicyCell,
)
    requires
        spec_cell_models(cix, pols1, cell),
        pols1.len() <= pols2.len(),
        pols2.subrange(0, pols1.len() as int) == pols1,
    ensures
        spec_cell_models(cix, pols2, cell),
    decreases cell, 0int, 0int,
{
    assert forall|k: int| 0 <= k < pols1.len() implies pols2[k] == pols1[k] by {
        assert(pols2.subrange(0, pols1.len() as int)[k] == pols2[k]);
    }
    match (cix, cell) {
        (CellIndex::Tree(rix, fix), PolicyCell::Tree(rows, fb)) => {
            lemma_rows_model_grow(rix@, pols1, pols2, rows@, 0);
        },
        _ => {},
    }
}

/// Row models over a policy store still hold over any extension of it.
pub proof fn lemma_rows_model_grow(
    rix: Seq<(Matcher, Option<CellIndex>)>,
    pols1: Seq<ConcurrentPolicy>,
    pols2: Seq<ConcurrentPolicy>,
    rows: Seq<(Matcher, Option<PolicyCell>)>,
    j: int,
)
    requires
        spec_rows_model(rix, pols1, rows, j),
        pols1.len() <= pols2.len(),
        pols2.subrange(0, pols1.len() as int) == pols1,
    ensures
        spec_rows_model(rix, pols2, rows, j),
    decreases rows, rows.len() - j, 1int,
{
    if 0 <= j < rows.len() {
        assert(spec_row_models(rix[j], pols1, rows[j]));
        match (rix[j].1, rows[j].1) {
            (Some(cix), Some(cell)) => {
                lemma_cell_models_grow(cix, pols1, pols2, cell);
            },
            _ => {},
        }
        assert(spec_row_models(rix[j], pols2, rows[j]));
        lemma_rows_model_grow(rix, pols1, pols2, rows, j + 1);
    }
}

/// Appending one modeled row keeps the rows modeled.
pub proof fn lemma_rows_model_push(
    rix: Seq<(Matcher, Option<CellIndex>)>,
    pols: Seq<ConcurrentPolicy>,
    rows: Seq<(Matcher, Option<PolicyCell>)>,
    rx: (Matcher, Option<CellIndex>),
    row: (Matcher, Option<PolicyCell>),
    j: int,
)
    requires
        0 <= j <= rows.len(),
        spec_rows_model(rix, pols, rows, j),
        spec_row_models(rx, pols, row),
    ensures
        spec_rows_model(rix.push(rx), pols, rows.push(row), j),
    decreases rows.len() - j,
{
    if j < rows.len() {
        assert(rix.push(rx)[j] == rix[j]);
        assert(rows.push(row)[j] == rows[j]);
        lemma_rows_model_push(rix, pols, rows, rx, row, j + 1);
    } else {
        assert(rix.push(rx)[j] == rx);
        assert(rows.push(row)[j] == row);
        assert(spec_rows_model(rix.push(rx), pols, rows.push(row), j + 1));
    }
}

/// A stored cell that models a well-formed user cell is well formed.
pub proof fn lemma_cell_model_wf(cix: CellIndex, pols: Seq<ConcurrentPolicy>, cell: PolicyCell)
    requires
        spec_cell_models(cix, pols, cell),
        spec_input_cell_wf(cell),
    ensures
        spec_cell_wf(cix, pols.len()),
    decreases cell, 0int, 0int,
{
    match (cix, cell) {
        (CellIndex::Tree(rix, fix), PolicyCell::Tree(rows, fb)) => {
            lemma_rows_model_wf(rix@, pols, rows@, 0);
        },
        _ => {},
    }
}

/// Stored rows that model a well-formed user table are well formed.
pub proof fn lemma_rows_model_wf(
    rix: Seq<(Matcher, Option<CellIndex>)>,
    pols: Seq<ConcurrentPolicy>,
    rows: Seq<(Matcher, Option<PolicyCell>)>,
    j: int,
)
    requires
        spec_rows_model(rix, pols, rows, j),
        spec_table_wf(rows, j),
    ensures
        spec_rows_wf(rix, j, pols.len()),
    decreases rows, rows.len() - j, 1int,
{
    if 0 <= j < rows.len() {
        assert(spec_row_models(rix[j], pols, rows[j]));
        assert(spec_input_row_wf(rows[j]));
        match (rix[j].1, rows[j].1) {
            (Some(cix), Some(cell)) => {
                lemma_cell_model_wf(cix, pols, cell);
            },
            _ => {},
        }
        assert(spec_row_wf(rix[j], pols.len()));
        lemma_rows_model_wf(rix, pols, rows, j + 1);
    }
}

/// Move the policies of one user cell into the store, leaving a stored cell
/// of slot indices.
fn flatten_cell(cell: PolicyCell, pols: &mut Vec<ConcurrentPolicy>) -> (r: CellIndex)
    requires
        spec_input_cell_wf(cell),
        forall|k: int| 0 <= k < old(pols)@.len() ==> (#[trigger] old(pols)@[k]).wf(),
    ensures
        final(pols)@.len() >= old(pols)@.len(),
        final(pols)@.subrange(0, old(pols)@.len() as int) == old(pols)@,
        forall|k: int| 0 <= k < final(pols)@.len() ==> (#[trigger] final(pols)@[k]).wf(),
        spec_cell_models(r, final(pols)@, cell),
    decreases cell, 0int, 0int,
{
    match cell {
        PolicyCell::Leaf(p) => {
            let i = pols.len();
            pols.push(p);
            proof {
                assert(pols@.subrange(0, old(pols)@.len() as int) =~= old(pols)@);
            }
            CellIndex::Leaf(i)
        },
        PolicyCell::Tree(rows, fb) => {
            let ghost pols0 = pols@;
            let ghost rows0 = rows@;
            let rix = flatten_rows(rows, pols);
            let ghost pols1 = pols@;
            let fix = match fb {
                None => None,
                Some(p) => {
                    let i = pols.len();
                    pols.push(p);
                    proof {
                        assert(pols@.subrange(0, pols1.len() as int) =~= pols1);
                        lemma_rows_model_grow(rix@, pols1, pols@, rows0, 0);
                        assert(pols@.subrange(0, pols0.len() as int) =~= pols0);
                    }
                    Some(i)
                },
            };
            CellIndex::Tree(rix, fix)
        },
    }
}

/// Move the policies of every user row into the store, row by row in table
/// order.
#[verifier::loop_isolation(false)]
fn flatten_rows(rows: Vec<(Matcher, Option<PolicyCell>)>, pols: &mut Vec<ConcurrentPolicy>) -> (r:
    Vec<(Matcher, Option<CellIndex>)>)
    requires
        spec_table_wf(rows@, 0),
        forall|k: int| 0 <= k < old(pols)@.len() ==> (#[trigger] old(pols)@[k]).wf(),
    ensures
        final(pols)@.len() >= old(pols)@.len(),
        final(pols)@.subrange(0, old(pols)@.len() as int) == old(pols)@,
        forall|k: int| 0 <= k < final(pols)@.len() ==> (#[trigger] final(pols)@[k]).wf(),
        spec_rows_model(r@, final(pols)@, rows@, 0),
    decreases rows@, 0int, 0int,
{
    let ghost rows0 = rows@;
    let ghost pols_in = pols@;
    let mut rows = rows;
    let mut out: Vec<(Matcher, Option<CellIndex>)> = Vec::new();
    while rows.len() > 0
        invariant
            out@.len() + rows@.len() == rows0.len(),
            rows@ == rows0.subrange(out@.len() as int, rows0.len() as int),
            pols@.len() >= pols_in.len(),
            pols@.subrange(0, pols_in.len() as int) == pols_in,
            forall|k: int| 0 <= k < pols@.len() ==> (#[trigger] pols@[k]).wf(),
            spec_rows_model(out@, pols@, rows0.subrange(0, out@.len() as int), 0),
        decreases rows@.len(),
    {
        let ghost k = out@.len() as int;
        proof {
            assert(rows@[0] == rows0[k]);
            lemma_table_wf_tail(rows0, 0, k);
        }
        let (m, c) = rows.remove(0);
        let ghost pols_before = pols@;
        let cix = match c {
            None => None,
            Some(cell) => {
                proof {
                    assert(decreases_to!(rows0 => rows0[k]));
                }
                Some(flatten_cell(cell, pols))
            },
        };
        proof {
            assert(pols@.subrange(0, pols_before.len() as int) == pols_before);
            lemma_rows_model_grow(out@, pols_before, pols@, rows0.subrange(0, k), 0);
            assert(spec_row_models((m, cix), pols@, rows0[k]));
            lemma_rows_model_push(out@, pols@, rows0.subrange(0, k), (m, cix), rows0[k], 0);
            assert(rows0.subrange(0, k).push(rows0[k]) =~= rows0.subrange(0, k + 1));
            assert(pols@.subrange(0, pols_in.len() as int) =~= pols_in);
        }
        out.push((m, cix));
    }
    proof {
        assert(rows0.subrange(0, out@.len() as int) =~= rows0);
    }
    out
}

/// The admission layer: stored rows and the policy store their leaf cells
/// index into. Matchers and table shape never change after construction;
/// only the policies' in-flight counters move.
#[derive(Debug)]
pub struct AdmissionLayer {
    rows: Vec<(Matcher, Option<CellIndex>)>,
    policies: Vec<ConcurrentPolicy>,
}

impl AdmissionLayer {
    pub closed spec fn spec_rows(&self) -> Seq<(Matcher, Option<CellIndex>)> {
        self.rows@
    }

    pub closed spec fn spec_policies(&self) -> Seq<ConcurrentPolicy> {
        self.policies@
    }

    /// Every stored index is in range, every matcher and policy well formed.
    pub open spec fn wf(&self) -> bool {
        spec_rows_wf(self.spec_rows(), 0, self.spec_policies().len())
            && forall|k: int|
                0 <= k < self.spec_policies().len() ==> (#[trigger] self.spec_policies()[k]).wf()
    }

    /// The selection this layer makes for a call.
    pub open spec fn spec_select(&self, peer: Option<SocketAddr>, req: Request) -> Selection {
        spec_select_rows(self.spec_rows(), 0, peer, req)
    }

    /// Build the layer from a table literal: each row a matcher and an
    /// optional cell. The policies move into the layer's store; the stored
    /// rows model the given table exactly, shape, matchers and policies.
    pub fn new(table: Vec<(Matcher, Option<PolicyCell>)>) -> (r: Self)
        requires
            spec_table_wf(table@, 0),
        ensures
            r.wf(),
            spec_rows_model(r.spec_rows(), r.spec_policies(), table@, 0),
    {
        let mut policies: Vec<ConcurrentPolicy> = Vec::new();
        let rows = flatten_rows(table, &mut policies);
        proof {
            lemma_rows_model_wf(rows@, policies@, table@, 0);
        }
        AdmissionLayer { rows, policies }
    }

    /// Construction fidelity: a layer whose stored rows model a user table
    /// selects, for every call, exactly the policy that table designates.
    pub proof fn lemma_selects_table_policy(
        &self,
        table: Seq<(Matcher, Option<PolicyCell>)>,
        peer: Option<SocketAddr>,
        req: Request,
    )
        requires
            spec_rows_model(self.spec_rows(), self.spec_policies(), table, 0),
        ensures
            spec_selection_agrees(
                self.spec_select(peer, req),
                self.spec_policies(),
                spec_choice_rows(table, 0, peer, req),
            ),
    {
        lemma_model_select_rows(self.spec_rows(), self.spec_policies(), table, 0, peer, req);
    }

    /// Walk the table for one call: the first matching row decides.
    pub fn select<State>(&self, ctx: &Context<State>, req: &Request) -> (s: Selection)
        requires
            self.wf(),
        ensures
            s == self.spec_select(ctx.spec_peer(), *req),
            s matches Selection::Limited(p) ==> p < self.spec_policies().len(),
    {
        proof {
            lemma_select_rows_in_range(
                self.spec_rows(),
                0,
                self.spec_policies().len() as nat,
                ctx.spec_peer(),
                *req,
            );
        }
        select_rows(&self.rows, Ghost(self.spec_policies().len() as nat), ctx, req)
    }

    /// Walk the table for one call, letting each consulted matcher read and
    /// write the caller's scratch: rows that do not match leave it exactly
    /// as it was, and the winning matcher commits its sub-matches.
    pub fn select_with_scratch<State>(
        &self,
        ctx: &Context<State>,
        req: &Request,
        scratch: &mut Extensions,
    ) -> (s: Selection)
        requires
            self.wf(),
        ensures
            s == self.spec_select(ctx.spec_peer(), *req),
            s matches Selection::Limited(p) ==> p < self.spec_policies().len(),
            final(scratch)@ == spec_scratch_rows(
                self.spec_rows(),
                0,
                old(scratch)@,
                ctx.spec_peer(),
                *req,
            ),
    {
        proof {
            lemma_select_rows_in_range(
                self.spec_rows(),
                0,
                self.spec_policies().len() as nat,
                ctx.spec_peer(),
                *req,
            );
        }
        select_rows_scratch(&self.rows, Ghost(self.spec_policies().len() as nat), ctx, req, scratch)
    }

    /// How many policy slots the layer holds.
    pub fn policy_count(&self) -> (r: usize)
        ensures
            r == self.spec_policies().len(),
    {
        self.policies.len()
    }

    /// The in-flight count of one policy slot.
    pub fn in_flight_of(&self, i: usize) -> (r: u64)
        requires
            i < self.spec_policies().len(),
        ensures
            r == self.spec_policies()[i as int].spec_in_flight(),
    {
        self.policies[i].in_flight()
    }

    /// One admission step for a selected call. Only the selected policy is
    /// consulted or changed; every other slot stays as it was.
    pub fn poll(&mut self, sel: Selection, attempt: u32, cancelled: bool, deadline_expired: bool)
        -> (r: CallStep)
        requires
            old(self).wf(),
            sel matches Selection::Limited(i) ==> i < old(self).spec_policies().len(),
        ensures
            final(self).wf(),
            final(self).spec_rows() == old(self).spec_rows(),
            final(self).spec_policies().len() == old(self).spec_policies().len(),
            (sel is NoMatch || sel is Unconditional) ==> (r is Forward
                && final(self).spec_policies() == old(self).spec_policies()),
            forall|k: int|
                0 <= k < old(self).spec_policies().len() && (sel matches Selection::Limited(i) ==> k
                    != i) ==> final(self).spec_policies()[k] == old(self).spec_policies()[k],
            sel matches Selection::Limited(i) ==> {
                let p = old(self).spec_policies()[i as int];
                &&& (cancelled ==> r is Cancelled && final(self).spec_policies() == old(
                    self).spec_policies())
                &&& (!cancelled && p.spec_in_flight() < p.spec_max() ==> (r matches
                CallStep::Admitted(permit) && permit.spec_idx() == i && final(self).spec_policies()
                    == old(self).spec_policies().update(i as int, p.spec_acquired())))
                &&& (!cancelled && p.spec_in_flight() >= p.spec_max()
                    ==> final(self).spec_policies() == old(self).spec_policies())
                &&& (!cancelled && p.spec_in_flight() >= p.spec_max() && deadline_expired ==> r
                    is Rejected)
                &&& (!cancelled && p.spec_in_flight() >= p.spec_max() && !deadline_expired
                    && p.spec_backoff() is None ==> r is Rejected)
                &&& (!cancelled && p.spec_in_flight() >= p.spec_max() && !deadline_expired
                    && p.spec_backoff() is Some ==> (r matches CallStep::Sleep(d) && d as int
                    == p.spec_backoff().unwrap().spec_delay(attempt as nat)))
            },
    {
        match sel {
            Selection::NoMatch => CallStep::Forward,
            Selection::Unconditional => CallStep::Forward,
            Selection::Limited(i) => {
                let mut p = self.policies[i];
                let step = p.acquire_poll(attempt, cancelled, deadline_expired);
                self.policies.set(i, p);
                match step {
                    AcquireStep::Acquired => CallStep::Admitted(Permit { idx: i }),
                    AcquireStep::Denied => CallStep::Rejected,
                    AcquireStep::Cancelled => {
                        proof {
                            assert(final(self).spec_policies() =~= old(self).spec_policies());
                        }
                        CallStep::Cancelled
                    },
                    AcquireStep::Sleep(d) => {
                        proof {
                            assert(final(self).spec_policies() =~= old(self).spec_policies());
                        }
                        CallStep::Sleep(d)
                    },
                }
            },
        }
    }

    /// Release the slot a permit holds. Called exactly once per permit, on
    /// every exit path of the downstream service; afterwards the policy's
    /// in-flight count is back to what it was before the slot was acquired.
    pub fn finish(&mut self, permit: Permit)
        requires
            old(self).wf(),
            permit.spec_idx() < old(self).spec_policies().len(),
            old(self).spec_policies()[permit.spec_idx() as int].spec_in_flight() >= 1,
        ensures
            final(self).wf(),
            final(self).spec_rows() == old(self).spec_rows(),
            final(self).spec_policies() == old(self).spec_policies().update(
                permit.spec_idx() as int,
                old(self).spec_policies()[permit.spec_idx() as int].spec_released(),
            ),
    {
        let i = permit.idx;
        let mut p = self.policies[i];
        p.release();
        self.policies.set(i, p);
    }
}


/// Walk stored rows for one call, evaluating matchers with the caller's
/// scratch.
#[verifier::loop_isolation(false)]
fn select_rows_scratch<State>(
    rows: &Vec<(Matcher, Option<CellIndex>)>,
    n: Ghost<nat>,
    ctx: &Context<State>,
    req: &Request,
    scratch: &mut Extensions,
) -> (s: Selection)
    requires
        spec_rows_wf(rows@, 0, n@),
    ensures
        s == spec_select_rows(rows@, 0, ctx.spec_peer(), *req),
        final(scratch)@ == spec_scratch_rows(rows@, 0, old(scratch)@, ctx.spec_peer(), *req),
    decreases rows@, 0int, 1int,
{
    let len = rows.len();
    let mut i: usize = 0;
    while i < len
        invariant
            i <= len,
            scratch@ == old(scratch)@,
            spec_rows_wf(rows@, i as int, n@),
            spec_select_rows(rows@, 0, ctx.spec_peer(), *req) == spec_select_rows(
                rows@,
                i as int,
                ctx.spec_peer(),
                *req,
            ),
            spec_scratch_rows(rows@, 0, old(scratch)@, ctx.spec_peer(), *req)
                == spec_scratch_rows(rows@, i as int, old(scratch)@, ctx.spec_peer(), *req),
        decreases len - i,
    {
        proof {
            assert(spec_row_wf(rows@[i as int], n@));
        }
        if rows[i].0.evaluate(ctx, req, scratch) {
            match &rows[i].1 {
                None => {
                    return Selection::Unconditional;
                },
                Some(cell) => {
                    proof {
                        assert(decreases_to!((*rows) => (*rows)[i as int]));
                        assert(decreases_to!(rows@ => rows@[i as int]));
                    }
                    proof {
                        assert(spec_select_rows(rows@, i as int, ctx.spec_peer(), *req)
                            == spec_select_cell(*cell, ctx.spec_peer(), *req));
                    }
                    match cell {
                        CellIndex::Leaf(p) => {
                            return Selection::Limited(*p);
                        },
                        CellIndex::Tree(sub, fb) => {
                            let s = select_rows_scratch(sub, n, ctx, req, scratch);
                            proof {
                                assert(spec_select_cell(*cell, ctx.spec_peer(), *req) == (
                                match spec_select_rows(sub@, 0, ctx.spec_peer(), *req) {
                                    Selection::NoMatch => match *fb {
                                        None => Selection::Unconditional,
                                        Some(p) => Selection::Limited(p),
                                    },
                                    other => other,
                                }));
                            }
                            match s {
                                Selection::NoMatch => match fb {
                                    None => {
                                        return Selection::Unconditional;
                                    },
                                    Some(p) => {
                                        return Selection::Limited(*p);
                                    },
                                },
                                _ => {
                                    return s;
                                },
                            }
                        },
                    }
                },
            }
        }
        i = i + 1;
    }
    Selection::NoMatch
}

/// Walk stored rows for one call, from the first row on.
#[verifier::loop_isolation(false)]
fn select_rows<State>(
    rows: &Vec<(Matcher, Option<CellIndex>)>,
    n: Ghost<nat>,
    ctx: &Context<State>,
    req: &Request,
) -> (s: Selection)
    requires
        spec_rows_wf(rows@, 0, n@),
    ensures
        s == spec_select_rows(rows@, 0, ctx.spec_peer(), *req),
    decreases rows@, 0int, 1int,
{
    let len = rows.len();
    let mut i: usize = 0;
    while i < len
        invariant
            i <= len,
            spec_rows_wf(rows@, i as int, n@),
            spec_select_rows(rows@, 0, ctx.spec_peer(), *req) == spec_select_rows(
                rows@,
                i as int,
                ctx.spec_peer(),
                *req,
            ),
        decreases len - i,
    {
        proof {
            assert(spec_row_wf(rows@[i as int], n@));
        }
        if rows[i].0.matches(ctx, req) {
            match &rows[i].1 {
                None => {
                    return Selection::Unconditional;
                },
                Some(cell) => {
                    proof {
                        assert(decreases_to!((*rows) => (*rows)[i as int]));
                        assert(decreases_to!(rows@ => rows@[i as int]));
                    }
                    return select_cell(cell, n, ctx, req);
                },
            }
        }
        i = i + 1;
    }
    Selection::NoMatch
}

/// Decide what a matched cell selects for one call.
fn select_cell<State>(cell: &CellIndex, n: Ghost<nat>, ctx: &Context<State>, req: &Request) -> (s:
    Selection)
    requires
        spec_cell_wf(*cell, n@),

    ensures
        s == spec_select_cell(*cell, ctx.spec_peer(), *req),
    decreases *cell, 0int, 0int,
{
    match cell {
        CellIndex::Leaf(p) => Selection::Limited(*p),
        CellIndex::Tree(sub, fb) => {
            let s = select_rows(sub, n, ctx, req);
            match s {
                Selection::NoMatch => match fb {
                    None => Selection::Unconditional,
                    Some(p) => Selection::Limited(*p),
                },
                _ => s,
            }
        },
    }
}

} // verus!
