//! The delivery ledger: one row per delivery attempt, written when the
//! attempt is made and changed once, when its outcome is known.

use crate::db::models::copy_opt;
use crate::text::{chars_of, opt_view, str_eq, string_of};
use vstd::prelude::*;

verus! {

/// Where a delivery attempt stands. An attempt starts as `Pending` and
/// ends as `Delivered` or `Failed`; nothing follows those two.
#[derive(Debug, Clone, Copy, PartialEq, Eq, Structural)]
pub enum DeliveryState {
    Pending,
    Delivered,
    Failed,
}

impl DeliveryState {
    /// The name that the state is stored under.
    pub open spec fn name_text(self) -> Seq<char> {
        match self {
            DeliveryState::Pending => "pending"@,
            DeliveryState::Delivered => "delivered"@,
            DeliveryState::Failed => "failed"@,
        }
    }

    /// The name that the state is stored under.
    pub fn name(&self) -> (n: &'static str)
        ensures
            n@ == self.name_text(),
    {
        match self {
            DeliveryState::Pending => "pending",
            DeliveryState::Delivered => "delivered",
            DeliveryState::Failed => "failed",
        }
    }

    /// The state stored under a name; `None` for any other text.
    pub fn from_name(name: &str) -> (r: Option<DeliveryState>)
        ensures
            match r {
                Some(state) => name@ == state.name_text(),
                None => name@ != "pending"@ && name@ != "delivered"@ && name@ != "failed"@,
            },
    {
        if str_eq(name, "pending") {
            Some(DeliveryState::Pending)
        } else if str_eq(name, "delivered") {
            Some(DeliveryState::Delivered)
        } else if str_eq(name, "failed") {
            Some(DeliveryState::Failed)
        } else {
            None
        }
    }
}

/// One delivery attempt.
#[derive(Debug, Clone)]
pub struct DeliveryAttempt {
    /// The attempt's position in the ledger.
    pub id: usize,
    pub subscription_id: i64,
    /// The event's identifier; the receiver's idempotency key.
    pub event_id: String,
    pub event_type: String,
    pub payload: String,
    pub attempted_at: i64,
    pub response_status: Option<u16>,
    pub response_body: Option<String>,
    pub success: bool,
    /// Reserved for a retry policy; always zero.
    pub retry_count: u32,
    /// Reserved for a retry policy; always absent.
    pub next_retry_at: Option<i64>,
    pub state: DeliveryState,
}

/// The mathematical value of a [`DeliveryAttempt`].
pub struct AttemptView {
    pub id: usize,
    pub subscription_id: i64,
    pub event_id: Seq<char>,
    pub event_type: Seq<char>,
    pub payload: Seq<char>,
    pub attempted_at: i64,
    pub response_status: Option<u16>,
    pub response_body: Option<Seq<char>>,
    pub success: bool,
    pub retry_count: u32,
    pub next_retry_at: Option<i64>,
    pub state: DeliveryState,
}

impl View for DeliveryAttempt {
    type V = AttemptView;

    open spec fn view(&self) -> AttemptView {
        AttemptView {
            id: self.id,
            subscription_id: self.subscription_id,
            event_id: self.event_id@,
            event_type: self.event_type@,
            payload: self.payload@,
            attempted_at: self.attempted_at,
            response_status: self.response_status,
            response_body: opt_view(self.response_body),
            success: self.success,
            retry_count: self.retry_count,
            next_retry_at: self.next_retry_at,
            state: self.state,
        }
    }
}

impl DeliveryAttempt {
    /// A copy of this attempt.
    pub fn duplicate(&self) -> (a: DeliveryAttempt)
        ensures
            a@ == self@,
    {
        DeliveryAttempt {
            id: self.id,
            subscription_id: self.subscription_id,
            event_id: self.event_id.clone(),
            event_type: self.event_type.clone(),
            payload: self.payload.clone(),
            attempted_at: self.attempted_at,
            response_status: self.response_status,
            response_body: copy_opt(&self.response_body),
            success: self.success,
            retry_count: self.retry_count,
            next_retry_at: self.next_retry_at,
            state: self.state,
        }
    }
}

/// How a delivery ended.
#[derive(Debug, Clone)]
pub enum DeliveryOutcome {
    /// The subscriber answered.
    Response { status: u16, body: Option<String> },
    /// No answer came: the connection failed or the request timed out.
    Unreachable,
}

/// The mathematical value of a [`DeliveryOutcome`].
pub enum OutcomeView {
    Response { status: u16, body: Option<Seq<char>> },
    Unreachable,
}

impl View for DeliveryOutcome {
    type V = OutcomeView;

    open spec fn view(&self) -> OutcomeView {
        match self {
            DeliveryOutcome::Response { status, body } => OutcomeView::Response {
                status: *status,
                body: opt_view(*body),
            },
            DeliveryOutcome::Unreachable => OutcomeView::Unreachable,
        }
    }
}

/// Why an outcome was not recorded.
#[derive(Debug, Clone, Copy, PartialEq, Eq, Structural)]
pub enum LedgerError {
    /// The ledger has no attempt with that identifier.
    NotFound,
    /// The attempt's outcome was recorded before.
    AlreadySettled,
}

/// The number of characters of a response body that the ledger keeps.
pub const RESPONSE_BODY_LIMIT: usize = 1024;

/// Any status from 200 to 299 is a success.
pub open spec fn is_success(status: u16) -> bool {
    200 <= status < 300
}

/// The part of a response body that the ledger keeps.
pub open spec fn truncated(body: Seq<char>) -> Seq<char> {
    if body.len() <= RESPONSE_BODY_LIMIT {
        body
    } else {
        body.take(RESPONSE_BODY_LIMIT as int)
    }
}

/// The row of an attempt whose outcome is not known yet.
pub open spec fn pending(
    id: usize,
    subscription_id: i64,
    event_id: Seq<char>,
    event_type: Seq<char>,
    payload: Seq<char>,
    at: i64,
) -> AttemptView {
    AttemptView {
        id,
        subscription_id,
        event_id,
        event_type,
        payload,
        attempted_at: at,
        response_status: None,
        response_body: None,
        success: false,
        retry_count: 0,
        next_retry_at: None,
        state: DeliveryState::Pending,
    }
}

/// The row of an attempt after its outcome was recorded.
pub open spec fn settled(row: AttemptView, outcome: OutcomeView) -> AttemptView {
    match outcome {
        OutcomeView::Response { status, body } => AttemptView {
            response_status: Some(status),
            response_body: match body {
                Some(b) => Some(truncated(b)),
                None => None,
            },
            success: is_success(status),
            state: if is_success(status) {
                DeliveryState::Delivered
            } else {
                DeliveryState::Failed
            },
            ..row
        },
        OutcomeView::Unreachable => AttemptView {
            response_status: None,
            response_body: None,
            success: false,
            state: DeliveryState::Failed,
            ..row
        },
    }
}

/// What holds of every row `i` of a ledger.
pub open spec fn row_ok(row: AttemptView, i: int) -> bool {
    &&& row.id == i
    &&& row.retry_count == 0
    &&& row.next_retry_at is None
    &&& row.success == (row.state == DeliveryState::Delivered)
    &&& row.state == DeliveryState::Pending ==> (row.response_status is None
        && row.response_body is None)
    &&& row.state == DeliveryState::Delivered ==> (row.response_status is Some && is_success(
        row.response_status->0,
    ))
}

/// The ledger's invariant on its rows.
pub open spec fn rows_ok(rows: Seq<AttemptView>) -> bool {
    forall|i: int| 0 <= i < rows.len() ==> row_ok(#[trigger] rows[i], i)
}

/// The rows after the outcome of attempt `id` was recorded; unchanged where
/// there is no such attempt or its outcome was recorded before.
pub open spec fn recorded(rows: Seq<AttemptView>, id: usize, outcome: OutcomeView) -> Seq<
    AttemptView,
> {
    if id < rows.len() && rows[id as int].state == DeliveryState::Pending {
        rows.update(id as int, settled(rows[id as int], outcome))
    } else {
        rows
    }
}

/// The attempts for subscription `subscription_id`, latest first, at most
/// `limit` of them.
pub open spec fn recent_of(rows: Seq<AttemptView>, subscription_id: i64, limit: nat) -> Seq<
    AttemptView,
>
    decreases rows.len(),
{
    if rows.len() == 0 || limit == 0 {
        Seq::empty()
    } else if rows.last().subscription_id == subscription_id {
        seq![rows.last()] + recent_of(rows.drop_last(), subscription_id, (limit - 1) as nat)
    } else {
        recent_of(rows.drop_last(), subscription_id, limit)
    }
}

/// The views of a sequence of attempts.
pub open spec fn attempt_views(rows: Seq<DeliveryAttempt>) -> Seq<AttemptView> {
    Seq::new(rows.len(), |i: int| rows[i]@)
}

/// The audit trail of delivery attempts. Rows are added and settled, never
/// removed.
pub struct DeliveryLedger {
    rows: Vec<DeliveryAttempt>,
}

impl View for DeliveryLedger {
    type V = Seq<AttemptView>;

    closed spec fn view(&self) -> Seq<AttemptView> {
        attempt_views(self.rows@)
    }
}

/// The first `RESPONSE_BODY_LIMIT` characters of a response body.
fn truncate(body: &Option<String>) -> (r: Option<String>)
    ensures
        opt_view(r) == match opt_view(*body) {
            Some(b) => Some(truncated(b)),
            None => None,
        },
{
    match body {
        Some(b) => {
            let chars = chars_of(b.as_str());
            if chars.len() <= RESPONSE_BODY_LIMIT {
                Some(b.clone())
            } else {
                Some(string_of(&chars, 0, RESPONSE_BODY_LIMIT))
            }
        },
        None => None,
    }
}

impl DeliveryLedger {
    /// The ledger's invariant: see [`rows_ok`].
    pub open spec fn wf(&self) -> bool {
        rows_ok(self@)
    }

    /// A ledger without attempts.
    pub fn new() -> (ledger: DeliveryLedger)
        ensures
            ledger@ == Seq::<AttemptView>::empty(),
            ledger.wf(),
    {
        let ledger = DeliveryLedger { rows: Vec::new() };
        ledger
    }

    /// A ledger holding the given rows, which must be numbered by their
    /// position and be in a state that the ledger can have left them in.
    pub fn load(rows: Vec<DeliveryAttempt>) -> (r: Option<DeliveryLedger>)
        ensures
            match r {
                Some(ledger) => ledger@ == attempt_views(rows@) && ledger.wf(),
                None => !rows_ok(attempt_views(rows@)),
            },
    {
        let ghost views = attempt_views(rows@);
        let mut i: usize = 0;
        while i < rows.len()
            invariant
                i <= rows@.len(),
                views == attempt_views(rows@),
                forall|k: int| 0 <= k < i ==> row_ok(#[trigger] views[k], k),
            decreases rows@.len() - i,
        {
            let row = &rows[i];
            let delivered = match row.state {
                DeliveryState::Delivered => true,
                _ => false,
            };
            let pending = match row.state {
                DeliveryState::Pending => true,
                _ => false,
            };
            let answered_well = match row.response_status {
                Some(status) => 200 <= status && status < 300,
                None => false,
            };
            let ok = row.id == i && row.retry_count == 0 && row.next_retry_at.is_none()
                && row.success == delivered && (!pending || (row.response_status.is_none()
                && row.response_body.is_none())) && (!delivered || answered_well);
            if !ok {
                assert(!row_ok(views[i as int], i as int));
                return None;
            }
            i += 1;
        }
        Some(DeliveryLedger { rows })
    }

    /// The number of attempts.
    pub fn len(&self) -> (n: usize)
        ensures
            n == self@.len(),
    {
        self.rows.len()
    }

    /// A copy of attempt `id`.
    pub fn attempt(&self, id: usize) -> (r: Option<DeliveryAttempt>)
        ensures
            match r {
                Some(a) => id < self@.len() && a@ == self@[id as int],
                None => id >= self@.len(),
            },
    {
        if id < self.rows.len() {
            Some(self.rows[id].duplicate())
        } else {
            None
        }
    }

    /// Adds the row of a new attempt, outcome pending, and returns its
    /// identifier.
    pub fn record_attempt(
        &mut self,
        subscription_id: i64,
        event_id: &str,
        event_type: &str,
        payload: &str,
        at: i64,
    ) -> (id: usize)
        requires
            old(self).wf(),
        ensures
            final(self).wf(),
            id == old(self)@.len(),
            final(self)@ == old(self)@.push(
                pending(id, subscription_id, event_id@, event_type@, payload@, at),
            ),
    {
        let id = self.rows.len();
        let ghost before = self@;
        self.rows.push(
            DeliveryAttempt {
                id,
                subscription_id,
                event_id: event_id.to_owned(),
                event_type: event_type.to_owned(),
                payload: payload.to_owned(),
                attempted_at: at,
                response_status: None,
                response_body: None,
                success: false,
                retry_count: 0,
                next_retry_at: None,
                state: DeliveryState::Pending,
            },
        );
        proof {
            assert forall|i: int| 0 <= i < self@.len() implies row_ok(#[trigger] self@[i], i) by {
                if i < before.len() {
                    assert(row_ok(before[i], i));
                }
            }
        }
        id
    }

    /// Records the outcome of attempt `id`. This succeeds once per attempt:
    /// an attempt that is not pending keeps the outcome it has.
    pub fn record_outcome(&mut self, id: usize, outcome: &DeliveryOutcome) -> (r: Result<
        (),
        LedgerError,
    >)
        requires
            old(self).wf(),
        ensures
            final(self).wf(),
            final(self)@ == recorded(old(self)@, id, outcome@),
            r == if id >= old(self)@.len() {
                Err::<(), LedgerError>(LedgerError::NotFound)
            } else if old(self)@[id as int].state != DeliveryState::Pending {
                Err::<(), LedgerError>(LedgerError::AlreadySettled)
            } else {
                Ok::<(), LedgerError>(())
            },
    {
        if id >= self.rows.len() {
            return Err(LedgerError::NotFound);
        }
        let ghost before = self@;
        match self.rows[id].state {
            DeliveryState::Pending => {},
            _ => {
                return Err(LedgerError::AlreadySettled);
            },
        }
        let mut row = self.rows[id].duplicate();
        match outcome {
            DeliveryOutcome::Response { status, body } => {
                let ok = 200 <= *status && *status < 300;
                row.response_status = Some(*status);
                row.response_body = truncate(body);
                row.success = ok;
                row.state = if ok {
                    DeliveryState::Delivered
                } else {
                    DeliveryState::Failed
                };
            },
            DeliveryOutcome::Unreachable => {
                row.response_status = None;
                row.response_body = None;
                row.success = false;
                row.state = DeliveryState::Failed;
            },
        }
        self.rows.set(id, row);
        proof {
            assert forall|i: int| 0 <= i < self@.len() implies row_ok(#[trigger] self@[i], i) by {
                assert(row_ok(before[i], i));
            }
        }
        Ok(())
    }

    /// The attempts for one subscription, latest first, at most `limit`.
    pub fn recent(&self, subscription_id: i64, limit: usize) -> (page: Vec<DeliveryAttempt>)
        ensures
            attempt_views(page@) == recent_of(self@, subscription_id, limit as nat),
    {
        let mut page: Vec<DeliveryAttempt> = Vec::new();
        let mut i: usize = self.rows.len();
        assert(self@.take(i as int) =~= self@);
        while i > 0 && page.len() < limit
            invariant
                i <= self.rows@.len(),
                page@.len() <= limit,
                recent_of(self@, subscription_id, limit as nat) == attempt_views(page@) + recent_of(
                    self@.take(i as int),
                    subscription_id,
                    (limit - page@.len()) as nat,
                ),
            decreases i,
        {
            let ghost prefix = self@.take(i as int);
            assert(prefix.drop_last() =~= self@.take(i - 1));
            i -= 1;
            if self.rows[i].subscription_id == subscription_id {
                let a = self.rows[i].duplicate();
                page.push(a);
            }
        }
        page
    }
}

/// Deliveries are isolated: recording the outcome of one attempt changes
/// that attempt's row and no other, so the outcomes of two attempts can be
/// recorded in either order with the same result, and what is recorded for
/// one does not depend on how the other ended.
pub proof fn lemma_outcomes_independent(
    rows: Seq<AttemptView>,
    a: usize,
    outcome_a: OutcomeView,
    b: usize,
    outcome_b: OutcomeView,
)
    requires
        a != b,
    ensures
        recorded(recorded(rows, a, outcome_a), b, outcome_b) == recorded(
            recorded(rows, b, outcome_b),
            a,
            outcome_a,
        ),
        b < rows.len() ==> recorded(recorded(rows, a, outcome_a), b, outcome_b)[b as int]
            == recorded(rows, b, outcome_b)[b as int],
        forall|i: int|
            0 <= i < rows.len() && i != a ==> recorded(rows, a, outcome_a)[i] == rows[i],
        recorded(rows, a, outcome_a).len() == rows.len(),
{
}

/// An outcome is recorded once: a settled attempt keeps its outcome,
/// whatever is reported for it later. A pending attempt ends as delivered
/// exactly where the subscriber answered with a status from 200 to 299,
/// and as failed otherwise.
pub proof fn lemma_settled_is_final(
    rows: Seq<AttemptView>,
    id: usize,
    first: OutcomeView,
    second: OutcomeView,
)
    requires
        rows_ok(rows),
        id < rows.len(),
        rows[id as int].state == DeliveryState::Pending,
    ensures
        rows_ok(recorded(rows, id, first)),
        recorded(rows, id, first)[id as int].state != DeliveryState::Pending,
        recorded(recorded(rows, id, first), id, second) == recorded(rows, id, first),
        recorded(rows, id, first)[id as int].success == (first matches OutcomeView::Response {
            status,
            ..
        } && is_success(status)),
        recorded(rows, id, first)[id as int].state == if recorded(rows, id, first)[id as int].success {
            DeliveryState::Delivered
        } else {
            DeliveryState::Failed
        },
{
}

} // verus!
