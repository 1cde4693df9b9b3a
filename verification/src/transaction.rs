//! Transaction bookkeeping: requests, responses and the bounded pool
//! that tracks them through submission, confirmation and expiry.
//! Addresses and mints are integer keys, signatures strings, instants
//! `i64` milliseconds since the Unix epoch.

use vstd::prelude::*;
use crate::time_utils::spec_div_trunc;
use crate::units::valid_timestamp;

verus! {

/// How long confirmed and failed responses are retained, in
/// milliseconds.
pub const RESPONSE_RETENTION_MILLIS: i64 = 86_400_000;

/// Lifecycle state of a tracked transaction.
#[derive(Clone, Copy, PartialEq, Eq, Structural, Debug)]
pub enum TransactionStatus {
    Pending,
    Submitted,
    Confirmed,
    Failed,
    Cancelled,
    Expired,
}

/// One instruction as recorded in transaction metadata.
#[derive(Debug)]
pub struct InstructionInfo {
    pub program_id_index: u8,
    pub accounts: Vec<u8>,
    pub data: String,
}

/// A nested instruction group as recorded in transaction metadata.
#[derive(Debug)]
pub struct InnerInstruction {
    pub index: u8,
    pub instructions: Vec<InstructionInfo>,
}

/// A transfer waiting to be built and submitted.
#[derive(Debug)]
pub struct TransactionRequest {
    pub id: String,
    pub from: u64,
    pub to: u64,
    pub amount: u64,
    pub token_mint: u64,
    pub fee: Option<u64>,
    pub priority_fee: Option<u64>,
    pub max_retries: u32,
    pub timeout_seconds: u64,
    /// Milliseconds since the Unix epoch.
    pub created_at: i64,
}

/// Whether a request has outlived its timeout at `now`: strictly more
/// whole seconds have passed than the timeout allows.
pub open spec fn spec_request_expired(t: TransactionRequest, now: int) -> bool {
    spec_div_trunc(now - t.created_at, 1_000) > t.timeout_seconds
}

impl TransactionRequest {
    /// A fresh request created at `now`, with three retries and a
    /// thirty-second timeout.
    pub fn new(from: u64, to: u64, amount: u64, token_mint: u64, now: i64) -> (r:
        TransactionRequest)
        ensures
            r.id@.len() == 36,
            r.from == from,
            r.to == to,
            r.amount == amount,
            r.token_mint == token_mint,
            r.fee is None,
            r.priority_fee is None,
            r.max_retries == 3,
            r.timeout_seconds == 30,
            r.created_at == now,
    {
        TransactionRequest {
            id: crate::ids::new_uuid_string(),
            from,
            to,
            amount,
            token_mint,
            fee: None,
            priority_fee: None,
            max_retries: 3,
            timeout_seconds: 30,
            created_at: now,
        }
    }

    /// The same request with an explicit fee.
    pub fn with_fee(self, fee: u64) -> (r: TransactionRequest)
        ensures
            r == (TransactionRequest { fee: Some(fee), ..self }),
    {
        TransactionRequest { fee: Some(fee), ..self }
    }

    /// The same request with a priority fee.
    pub fn with_priority_fee(self, priority_fee: u64) -> (r: TransactionRequest)
        ensures
            r == (TransactionRequest { priority_fee: Some(priority_fee), ..self }),
    {
        TransactionRequest { priority_fee: Some(priority_fee), ..self }
    }

    /// The same request with another retry budget and timeout.
    pub fn with_retry_config(self, max_retries: u32, timeout_seconds: u64) -> (r:
        TransactionRequest)
        ensures
            r == (TransactionRequest { max_retries, timeout_seconds, ..self }),
    {
        TransactionRequest { max_retries, timeout_seconds, ..self }
    }

    /// Whether the request has outlived its timeout at `now`.
    pub fn is_expired(&self, now: i64) -> (r: bool)
        requires
            valid_timestamp(self.created_at as int),
            valid_timestamp(now as int),
        ensures
            r == spec_request_expired(*self, now as int),
    {
        let elapsed_seconds: i64 = if now >= self.created_at {
            (now - self.created_at) / 1_000
        } else {
            -((self.created_at - now) / 1_000)
        };
        if elapsed_seconds < 0 {
            false
        } else {
            elapsed_seconds as u64 > self.timeout_seconds
        }
    }
}

impl Clone for TransactionRequest {
    fn clone(&self) -> (r: TransactionRequest)
        ensures
            r == *self,
    {
        TransactionRequest {
            id: self.id.clone(),
            from: self.from,
            to: self.to,
            amount: self.amount,
            token_mint: self.token_mint,
            fee: self.fee,
            priority_fee: self.priority_fee,
            max_retries: self.max_retries,
            timeout_seconds: self.timeout_seconds,
            created_at: self.created_at,
        }
    }
}

/// The tracked outcome of one submitted request.
#[derive(Debug)]
pub struct TransactionResponse {
    pub request_id: String,
    pub signature: String,
    pub status: TransactionStatus,
    /// Milliseconds since the Unix epoch.
    pub block_time: Option<i64>,
    pub slot: Option<u64>,
    pub confirmation_status: Option<String>,
    pub error: Option<String>,
    pub gas_used: Option<u64>,
    pub gas_price: Option<u64>,
    pub total_cost: Option<u64>,
    /// Milliseconds since the Unix epoch.
    pub created_at: i64,
    pub updated_at: i64,
}

impl TransactionResponse {
    /// A freshly submitted response created at `now`.
    pub fn new(request_id: String, signature: String, now: i64) -> (r: TransactionResponse)
        ensures
            r.request_id == request_id,
            r.signature == signature,
            r.status is Submitted,
            r.block_time is None,
            r.slot is None,
            r.confirmation_status is None,
            r.error is None,
            r.gas_used is None,
            r.gas_price is None,
            r.total_cost is None,
            r.created_at == now,
            r.updated_at == now,
    {
        TransactionResponse {
            request_id,
            signature,
            status: TransactionStatus::Submitted,
            block_time: None,
            slot: None,
            confirmation_status: None,
            error: None,
            gas_used: None,
            gas_price: None,
            total_cost: None,
            created_at: now,
            updated_at: now,
        }
    }

    /// Replace the status and stamp the update.
    pub fn update_status(&mut self, status: TransactionStatus, now: i64)
        ensures
            *final(self) == (TransactionResponse { status, updated_at: now, ..*old(self) }),
    {
        self.status = status;
        self.updated_at = now;
    }

    /// Record confirmation: slot, block time and the confirmed marker.
    pub fn confirm(&mut self, slot: u64, block_time: i64, now: i64)
        ensures
            final(self).status is Confirmed,
            final(self).slot == Some(slot),
            final(self).block_time == Some(block_time),
            final(self).confirmation_status is Some,
            final(self).confirmation_status->0@ == "confirmed"@,
            final(self).updated_at == now,
            final(self).request_id == old(self).request_id,
            final(self).signature == old(self).signature,
            final(self).error == old(self).error,
            final(self).gas_used == old(self).gas_used,
            final(self).gas_price == old(self).gas_price,
            final(self).total_cost == old(self).total_cost,
            final(self).created_at == old(self).created_at,
    {
        self.status = TransactionStatus::Confirmed;
        self.slot = Some(slot);
        self.block_time = Some(block_time);
        self.confirmation_status = Some(String::from_str("confirmed"));
        self.updated_at = now;
    }

    /// Record failure with its error text.
    pub fn fail(&mut self, error: String, now: i64)
        ensures
            *final(self) == (TransactionResponse {
                status: TransactionStatus::Failed,
                error: Some(error),
                updated_at: now,
                ..*old(self)
            }),
    {
        self.status = TransactionStatus::Failed;
        self.error = Some(error);
        self.updated_at = now;
    }

    /// Whether the response is confirmed.
    pub fn is_confirmed(&self) -> (r: bool)
        ensures
            r == (self.status is Confirmed),
    {
        matches!(self.status, TransactionStatus::Confirmed)
    }

    /// Whether the response is failed.
    pub fn is_failed(&self) -> (r: bool)
        ensures
            r == (self.status is Failed),
    {
        matches!(self.status, TransactionStatus::Failed)
    }

    /// Whether the response still awaits an outcome.
    pub fn is_pending(&self) -> (r: bool)
        ensures
            r == (self.status is Pending || self.status is Submitted),
    {
        matches!(self.status, TransactionStatus::Pending | TransactionStatus::Submitted)
    }
}

impl Clone for TransactionResponse {
    fn clone(&self) -> (r: TransactionResponse)
        ensures
            r == *self,
    {
        TransactionResponse {
            request_id: self.request_id.clone(),
            signature: self.signature.clone(),
            status: self.status,
            block_time: self.block_time,
            slot: self.slot,
            confirmation_status: crate::token::clone_opt_string(&self.confirmation_status),
            error: crate::token::clone_opt_string(&self.error),
            gas_used: self.gas_used,
            gas_price: self.gas_price,
            total_cost: self.total_cost,
            created_at: self.created_at,
            updated_at: self.updated_at,
        }
    }
}

/// Submission policy knobs. The priority-fee multiplier is in
/// millionths.
#[derive(Debug)]
pub struct TransactionConfig {
    pub commitment: String,
    pub max_retries: u32,
    pub retry_delay_ms: u64,
    pub timeout_seconds: u64,
    pub priority_fee_multiplier: u128,
    pub max_priority_fee: u64,
}

impl TransactionConfig {
    /// The stock policy: confirmed commitment, three retries a second
    /// apart, a thirty-second timeout, a 1.1x priority multiplier and a
    /// one-SOL fee cap.
    pub fn new() -> (r: TransactionConfig)
        ensures
            r.commitment@ == "confirmed"@,
            r.max_retries == 3,
            r.retry_delay_ms == 1_000,
            r.timeout_seconds == 30,
            r.priority_fee_multiplier == 1_100_000,
            r.max_priority_fee == 1_000_000,
    {
        TransactionConfig {
            commitment: String::from_str("confirmed"),
            max_retries: 3,
            retry_delay_ms: 1_000,
            timeout_seconds: 30,
            priority_fee_multiplier: 1_100_000,
            max_priority_fee: 1_000_000,
        }
    }

    /// The same policy with another commitment level.
    pub fn with_commitment(self, commitment: String) -> (r: TransactionConfig)
        ensures
            r == (TransactionConfig { commitment, ..self }),
    {
        TransactionConfig { commitment, ..self }
    }

    /// The same policy with another retry budget and delay.
    pub fn with_retry_config(self, max_retries: u32, retry_delay_ms: u64) -> (r:
        TransactionConfig)
        ensures
            r == (TransactionConfig { max_retries, retry_delay_ms, ..self }),
    {
        TransactionConfig { max_retries, retry_delay_ms, ..self }
    }

    /// The same policy with another fee multiplier and cap.
    pub fn with_fee_config(self, priority_fee_multiplier: u128, max_priority_fee: u64) -> (r:
        TransactionConfig)
        ensures
            r == (TransactionConfig { priority_fee_multiplier, max_priority_fee, ..self }),
    {
        TransactionConfig { priority_fee_multiplier, max_priority_fee, ..self }
    }
}

impl Default for TransactionConfig {
    /// The stock policy of [`TransactionConfig::new`].
    fn default() -> (r: TransactionConfig)
        ensures
            r.commitment@ == "confirmed"@,
            r.max_retries == 3,
            r.retry_delay_ms == 1_000,
            r.timeout_seconds == 30,
            r.priority_fee_multiplier == 1_100_000,
            r.max_priority_fee == 1_000_000,
    {
        TransactionConfig::new()
    }
}

/// The pending requests still alive at `now`, in order.
pub open spec fn spec_live_requests(s: Seq<TransactionRequest>, now: int) -> Seq<
    TransactionRequest,
>
    decreases s.len(),
{
    if s.len() == 0 {
        Seq::empty()
    } else {
        let prefix = spec_live_requests(s.drop_last(), now);
        if spec_request_expired(s.last(), now) {
            prefix
        } else {
            prefix.push(s.last())
        }
    }
}

/// The responses still inside the retention window at `now`, in order.
pub open spec fn spec_recent_responses(s: Seq<TransactionResponse>, now: int) -> Seq<
    TransactionResponse,
>
    decreases s.len(),
{
    if s.len() == 0 {
        Seq::empty()
    } else {
        let prefix = spec_recent_responses(s.drop_last(), now);
        if now - s.last().updated_at < RESPONSE_RETENTION_MILLIS {
            prefix.push(s.last())
        } else {
            prefix
        }
    }
}

/// Whether a run of requests holds the id.
pub open spec fn spec_contains_request_id(s: Seq<TransactionRequest>, id: Seq<char>) -> bool {
    exists|i: int| 0 <= i < s.len() && s[i].id@ == id
}

/// The first position holding the id.
pub open spec fn spec_first_request_index(s: Seq<TransactionRequest>, id: Seq<char>) -> int {
    choose|i: int|
        0 <= i < s.len() && s[i].id@ == id && (forall|j: int| 0 <= j < i ==> s[j].id@ != id)
}

/// Tracks requests and responses through their lifecycle, with a cap on
/// the pending queue.
#[derive(Debug)]
pub struct TransactionPool {
    pending_transactions: Vec<TransactionRequest>,
    confirmed_transactions: Vec<TransactionResponse>,
    failed_transactions: Vec<TransactionResponse>,
    max_pool_size: usize,
}

impl TransactionPool {
    /// The requests waiting to run.
    pub closed spec fn pending(self) -> Seq<TransactionRequest> {
        self.pending_transactions@
    }

    /// The confirmed responses retained.
    pub closed spec fn confirmed(self) -> Seq<TransactionResponse> {
        self.confirmed_transactions@
    }

    /// The failed responses retained.
    pub closed spec fn failed(self) -> Seq<TransactionResponse> {
        self.failed_transactions@
    }

    /// The pending-queue cap.
    pub closed spec fn max_size(self) -> int {
        self.max_pool_size as int
    }

    /// The pool invariant: the pending queue respects its cap.
    pub open spec fn wf(self) -> bool {
        self.pending().len() <= self.max_size()
    }

    /// An empty pool with the given pending cap.
    pub fn new(max_pool_size: usize) -> (r: TransactionPool)
        ensures
            r.wf(),
            r.pending().len() == 0,
            r.confirmed().len() == 0,
            r.failed().len() == 0,
            r.max_size() == max_pool_size,
    {
        TransactionPool {
            pending_transactions: Vec::new(),
            confirmed_transactions: Vec::new(),
            failed_transactions: Vec::new(),
            max_pool_size,
        }
    }

    /// Queue a request; refused — and nothing changes — exactly when the
    /// queue is full.
    pub fn add_pending(&mut self, transaction: TransactionRequest) -> (r: Result<(), String>)
        requires
            old(self).wf(),
        ensures
            final(self).wf(),
            r is Ok <==> old(self).pending().len() < old(self).max_size(),
            r is Ok ==> final(self).pending() == old(self).pending().push(transaction),
            r is Err ==> final(self).pending() == old(self).pending(),
            final(self).confirmed() == old(self).confirmed(),
            final(self).failed() == old(self).failed(),
            final(self).max_size() == old(self).max_size(),
    {
        if self.pending_transactions.len() >= self.max_pool_size {
            return Err(String::from_str("Transaction pool is full"));
        }
        self.pending_transactions.push(transaction);
        Ok(())
    }

    /// Remove and return the first queued request with this id, if any.
    pub fn remove_pending(&mut self, id: &String) -> (r: Option<TransactionRequest>)
        requires
            old(self).wf(),
        ensures
            final(self).wf(),
            r is Some <==> spec_contains_request_id(old(self).pending(), id@),
            r is Some ==> ({
                let k = spec_first_request_index(old(self).pending(), id@);
                r->0 == old(self).pending()[k] && final(self).pending() == old(
                    self,
                ).pending().remove(k)
            }),
            r is None ==> final(self).pending() == old(self).pending(),
            final(self).confirmed() == old(self).confirmed(),
            final(self).failed() == old(self).failed(),
            final(self).max_size() == old(self).max_size(),
    {
        let mut i: usize = 0;
        while i < self.pending_transactions.len()
            invariant
                *self == *old(self),
                old(self).wf(),
                0 <= i <= self.pending().len(),
                forall|j: int| 0 <= j < i ==> self.pending()[j].id@ != id@,
            decreases self.pending().len() - i,
        {
            if self.pending_transactions[i].id == *id {
                proof {
                    let s = self.pending_transactions@;
                    assert(0 <= i < s.len() && s[i as int].id@ == id@ && (forall|j: int|
                        0 <= j < i ==> s[j].id@ != id@));
                    let k = spec_first_request_index(s, id@);
                    assert(0 <= k < s.len() && s[k].id@ == id@ && (forall|j: int|
                        0 <= j < k ==> s[j].id@ != id@));
                    if k < i {
                        assert(s[k].id@ != id@);
                    } else if i < k {
                        assert(s[i as int].id@ != id@);
                    }
                }
                let removed = self.pending_transactions.remove(i);
                return Some(removed);
            }
            i = i + 1;
        }
        None
    }

    /// Record a confirmed response.
    pub fn add_confirmed(&mut self, transaction: TransactionResponse)
        requires
            old(self).wf(),
        ensures
            final(self).wf(),
            final(self).confirmed() == old(self).confirmed().push(transaction),
            final(self).pending() == old(self).pending(),
            final(self).failed() == old(self).failed(),
            final(self).max_size() == old(self).max_size(),
    {
        self.confirmed_transactions.push(transaction);
    }

    /// Record a failed response.
    pub fn add_failed(&mut self, transaction: TransactionResponse)
        requires
            old(self).wf(),
        ensures
            final(self).wf(),
            final(self).failed() == old(self).failed().push(transaction),
            final(self).pending() == old(self).pending(),
            final(self).confirmed() == old(self).confirmed(),
            final(self).max_size() == old(self).max_size(),
    {
        self.failed_transactions.push(transaction);
    }

    /// The queued requests.
    pub fn get_pending(&self) -> (r: &Vec<TransactionRequest>)
        ensures
            r@ == self.pending(),
    {
        &self.pending_transactions
    }

    /// The retained confirmed responses.
    pub fn get_confirmed(&self) -> (r: &Vec<TransactionResponse>)
        ensures
            r@ == self.confirmed(),
    {
        &self.confirmed_transactions
    }

    /// The retained failed responses.
    pub fn get_failed(&self) -> (r: &Vec<TransactionResponse>)
        ensures
            r@ == self.failed(),
    {
        &self.failed_transactions
    }

    /// Drop timed-out requests from the queue and responses older than
    /// the retention window from both outcome lists.
    pub fn cleanup_expired(&mut self, now: i64)
        requires
            old(self).wf(),
            valid_timestamp(now as int),
            forall|i: int|
                0 <= i < old(self).pending().len() ==> valid_timestamp(
                    (#[trigger] old(self).pending()[i]).created_at as int,
                ),
        ensures
            final(self).wf(),
            final(self).pending() == spec_live_requests(old(self).pending(), now as int),
            final(self).confirmed() == spec_recent_responses(old(self).confirmed(), now as int),
            final(self).failed() == spec_recent_responses(old(self).failed(), now as int),
            final(self).max_size() == old(self).max_size(),
    {
        let ghost old_pending = self.pending_transactions@;
        let mut k: usize = 0;
        proof {
            assert(old_pending.take(0) =~= Seq::<TransactionRequest>::empty());
            assert(old_pending.skip(0) =~= old_pending);
        }
        while k < self.pending_transactions.len()
            invariant
                0 <= k,
                k <= self.pending_transactions@.len(),
                valid_timestamp(now as int),
                old_pending == old(self).pending(),
                forall|i: int|
                    0 <= i < old_pending.len() ==> valid_timestamp(
                        (#[trigger] old_pending[i]).created_at as int,
                    ),
                self.pending_transactions@.len() <= old_pending.len(),
                old_pending.len() <= old(self).max_size(),
                self.max_pool_size as int == old(self).max_size(),
                self.confirmed_transactions@ == old(self).confirmed(),
                self.failed_transactions@ == old(self).failed(),
                exists|done: int|
                    0 <= done <= old_pending.len() && k as int == spec_live_requests(
                        old_pending.take(done),
                        now as int,
                    ).len() && self.pending_transactions@ =~= spec_live_requests(
                        old_pending.take(done),
                        now as int,
                    ) + old_pending.skip(done),
            decreases self.pending_transactions@.len() - k,
        {
            let ghost done = choose|done: int|
                0 <= done <= old_pending.len() && k as int == spec_live_requests(
                    old_pending.take(done),
                    now as int,
                ).len() && self.pending_transactions@ =~= spec_live_requests(
                    old_pending.take(done),
                    now as int,
                ) + old_pending.skip(done);
            proof {
                assert(done < old_pending.len());
                assert(self.pending_transactions@[k as int] == old_pending[done]);
                assert(old_pending.take(done + 1).drop_last() =~= old_pending.take(done));
                assert(old_pending.take(done + 1).last() == old_pending[done]);
                assert(old_pending.skip(done).drop_first() =~= old_pending.skip(done + 1));
            }
            if self.pending_transactions[k].is_expired(now) {
                self.pending_transactions.remove(k);
                proof {
                    let pre = spec_live_requests(old_pending.take(done), now as int);
                    assert(spec_live_requests(old_pending.take(done + 1), now as int) == pre);
                    assert(self.pending_transactions@ =~= pre + old_pending.skip(done + 1));
                }
            } else {
                k = k + 1;
                proof {
                    let pre = spec_live_requests(old_pending.take(done), now as int);
                    assert(spec_live_requests(old_pending.take(done + 1), now as int)
                        == pre.push(old_pending[done]));
                    assert(self.pending_transactions@ =~= spec_live_requests(
                        old_pending.take(done + 1),
                        now as int,
                    ) + old_pending.skip(done + 1));
                }
            }
        }
        proof {
            let done = choose|done: int|
                0 <= done <= old_pending.len() && k as int == spec_live_requests(
                    old_pending.take(done),
                    now as int,
                ).len() && self.pending_transactions@ =~= spec_live_requests(
                    old_pending.take(done),
                    now as int,
                ) + old_pending.skip(done);
            assert(done == old_pending.len());
            assert(old_pending.take(done) =~= old_pending);
            assert(old_pending.skip(done) =~= Seq::<TransactionRequest>::empty());
            assert(self.pending_transactions@ =~= spec_live_requests(old_pending, now as int));
            lemma_live_requests_len(old_pending, now as int);
        }
        retain_recent(&mut self.confirmed_transactions, now);
        retain_recent(&mut self.failed_transactions, now);
    }
}

/// The live requests are never more numerous than the queue itself.
proof fn lemma_live_requests_len(s: Seq<TransactionRequest>, now: int)
    ensures
        spec_live_requests(s, now).len() <= s.len(),
    decreases s.len(),
{
    if s.len() > 0 {
        lemma_live_requests_len(s.drop_last(), now);
    }
}

/// Keep only the responses updated within the retention window.
fn retain_recent(responses: &mut Vec<TransactionResponse>, now: i64)
    requires
        valid_timestamp(now as int),
    ensures
        final(responses)@ == spec_recent_responses(old(responses)@, now as int),
{
    let ghost old_list = responses@;
    let mut k: usize = 0;
    proof {
        assert(old_list.take(0) =~= Seq::<TransactionResponse>::empty());
        assert(old_list.skip(0) =~= old_list);
    }
    while k < responses.len()
        invariant
            0 <= k,
            k <= responses@.len(),
            valid_timestamp(now as int),
            old_list == old(responses)@,
            responses@.len() <= old_list.len(),
            exists|done: int|
                0 <= done <= old_list.len() && k as int == spec_recent_responses(
                    old_list.take(done),
                    now as int,
                ).len() && responses@ =~= spec_recent_responses(old_list.take(done), now as int)
                    + old_list.skip(done),
        decreases responses@.len() - k,
    {
        let ghost done = choose|done: int|
            0 <= done <= old_list.len() && k as int == spec_recent_responses(
                old_list.take(done),
                now as int,
            ).len() && responses@ =~= spec_recent_responses(old_list.take(done), now as int)
                + old_list.skip(done);
        proof {
            assert(done < old_list.len());
            assert(responses@[k as int] == old_list[done]);
            assert(old_list.take(done + 1).drop_last() =~= old_list.take(done));
            assert(old_list.take(done + 1).last() == old_list[done]);
            assert(old_list.skip(done).drop_first() =~= old_list.skip(done + 1));
        }
        let keep: bool = responses[k].updated_at > now - RESPONSE_RETENTION_MILLIS;
        proof {
            assert(keep == (now - old_list[done].updated_at < RESPONSE_RETENTION_MILLIS));
        }
        if keep {
            k = k + 1;
            proof {
                let pre = spec_recent_responses(old_list.take(done), now as int);
                assert(spec_recent_responses(old_list.take(done + 1), now as int) == pre.push(
                    old_list[done],
                ));
                assert(responses@ =~= spec_recent_responses(old_list.take(done + 1), now as int)
                    + old_list.skip(done + 1));
            }
        } else {
            responses.remove(k);
            proof {
                let pre = spec_recent_responses(old_list.take(done), now as int);
                assert(spec_recent_responses(old_list.take(done + 1), now as int) == pre);
                assert(responses@ =~= pre + old_list.skip(done + 1));
            }
        }
    }
    proof {
        let done = choose|done: int|
            0 <= done <= old_list.len() && k as int == spec_recent_responses(
                old_list.take(done),
                now as int,
            ).len() && responses@ =~= spec_recent_responses(old_list.take(done), now as int)
                + old_list.skip(done);
        assert(done == old_list.len());
        assert(old_list.take(done) =~= old_list);
        assert(old_list.skip(done) =~= Seq::<TransactionResponse>::empty());
        assert(responses@ =~= spec_recent_responses(old_list, now as int));
    }
}

} // verus!
