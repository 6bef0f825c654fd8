//! The ingestion pipeline: pagination, retry classification, backoff,
//! cancellation and the lifecycle message stream.
//!
//! The decisions live here, verified. A host loop performs the outside
//! work (the source queries, the sleeps, the channel sends) and feeds the
//! outcomes back in; plain record data (an archive, a synthetic source)
//! can be driven wholly in here through [`run_ingestion`].

use vstd::prelude::*;
use crate::constants::MAX_RETRY_ATTEMPTS;
use crate::constants::RETRY_BASE_DELAY_MS;
use crate::record::EventRecord;
use crate::text::chars_of;
use crate::text::string_from_chars;
use crate::timefmt::iso_of;
use crate::timefmt::utc_ms_to_iso8601;

verus! {

// ── Messages ────────────────────────────────────────────────────────────

/// Messages sent from the ingestion worker to the consumer.
pub enum ReaderMessage {
    /// A batch of parsed records ready to append to the store.
    EventBatch(Vec<EventRecord>),
    /// Cumulative count so far and the channel being read.
    Progress { count: usize, channel: String },
    /// Reading finished for all requested channels.
    Complete { total: usize, elapsed_ms: u64 },
    /// A channel failed; the other channels still run.
    Error { channel: String, error: String },
}

/// The mathematical shape of a message.
pub enum MessageView {
    Batch(Seq<EventRecord>),
    Progress { count: int, channel: Seq<char> },
    Complete { total: int, elapsed_ms: u64 },
    Error { channel: Seq<char>, error: Seq<char> },
}

impl View for ReaderMessage {
    type V = MessageView;

    open spec fn view(&self) -> MessageView {
        match self {
            ReaderMessage::EventBatch(b) => MessageView::Batch(b@),
            ReaderMessage::Progress { count, channel } => MessageView::Progress {
                count: *count as int,
                channel: channel@,
            },
            ReaderMessage::Complete { total, elapsed_ms } => MessageView::Complete {
                total: *total as int,
                elapsed_ms: *elapsed_ms,
            },
            ReaderMessage::Error { channel, error } => MessageView::Error {
                channel: channel@,
                error: error@,
            },
        }
    }
}

// ── Transient-error classification and backoff ──────────────────────────

/// The error codes worth retrying: busy or unavailable services, aborted
/// connections, file locks, shutdown, not-ready, timeouts — and access
/// denied, which a service mid-restart can briefly report.
pub open spec fn is_transient_spec(code: u32) -> bool {
    ||| code == 0x800706BA
    ||| code == 0x800706BB
    ||| code == 0x800706BF
    ||| code == 0x80070020
    ||| code == 0x8007045B
    ||| code == 0x00000005
    ||| code == 0x80070015
    ||| code == 1460
    ||| code == 0x800705B4
}

/// Whether a source error code is considered transient.
pub fn is_transient_error(code: u32) -> (r: bool)
    ensures
        r == is_transient_spec(code),
{
    code == 0x800706BA || code == 0x800706BB || code == 0x800706BF || code == 0x80070020 || code
        == 0x8007045B || code == 0x00000005 || code == 0x80070015 || code == 1460 || code
        == 0x800705B4
}

/// Two to the `k`.
pub open spec fn pow2(k: nat) -> nat
    decreases k,
{
    if k == 0 {
        1
    } else {
        2 * pow2((k - 1) as nat)
    }
}

fn pow2_u64(k: u32) -> (r: u64)
    requires
        k <= 2,
    ensures
        r == pow2(k as nat),
        k == 0 ==> r == 1,
        k == 1 ==> r == 2,
        k == 2 ==> r == 4,
    decreases k,
{
    if k == 0 {
        1
    } else {
        2 * pow2_u64(k - 1)
    }
}

/// The backoff before retry attempt `n` (1-based):
/// `RETRY_BASE_DELAY_MS * 2^(n-1)` milliseconds.
pub open spec fn backoff_ms(attempt: u32) -> u64 {
    (RETRY_BASE_DELAY_MS * pow2((attempt - 1) as nat)) as u64
}

/// What to do after a failed attempt.
pub enum RetryDecision {
    /// Sleep this many milliseconds, then retry.
    RetryAfter(u64),
    /// Surface the error.
    GiveUp,
}

/// The retry policy: a transient failure within the attempt budget backs
/// off exponentially; anything else is surfaced at once.
pub fn retry_decision(attempt: u32, transient: bool) -> (r: RetryDecision)
    requires
        1 <= attempt,
    ensures
        (transient && attempt <= MAX_RETRY_ATTEMPTS) ==> r == RetryDecision::RetryAfter(
            backoff_ms(attempt),
        ),
        !(transient && attempt <= MAX_RETRY_ATTEMPTS) ==> r == RetryDecision::GiveUp,
{
    if transient && attempt <= MAX_RETRY_ATTEMPTS {
        RetryDecision::RetryAfter(RETRY_BASE_DELAY_MS * pow2_u64(attempt - 1))
    } else {
        RetryDecision::GiveUp
    }
}

// ── The per-channel pagination state machine ────────────────────────────

/// The live state of one channel read.
pub struct ChannelRead {
    /// Records delivered so far on this channel.
    pub count: usize,
    /// Consecutive pagination timeouts seen without progress.
    pub timeout_retries: u32,
    /// Per-channel record cap.
    pub max_events: usize,
}

/// The decision at the top of each pagination iteration.
pub enum IterDecision {
    /// Stop reading: cancelled, or the cap is reached.
    Stop,
    /// Issue the next pagination call, requesting at most this many
    /// records, so a fetch never runs past the cap.
    Fetch(usize),
}

/// The decision after a failed pagination call.
pub enum FetchErrorAction {
    /// The source reports no further results: the channel ends normally.
    EndOfStream,
    /// A pagination timeout within budget: sleep, then try again.
    RetryAfter(u64),
    /// Timeouts exhausted the budget: keep what was read, end the channel.
    GiveUpTimeout,
    /// Any other failure: surface it for this channel.
    Fatal(u32),
}

impl ChannelRead {
    /// A fresh read under the given cap.
    pub fn new(max_events: usize) -> (r: Self)
        ensures
            r.count == 0,
            r.timeout_retries == 0,
            r.max_events == max_events,
    {
        ChannelRead { count: 0, timeout_retries: 0, max_events }
    }

    /// Checked at the top of every iteration: cancellation stops at once
    /// (not an error), and so does reaching the cap; otherwise the next
    /// fetch is clamped to the page size or to what the cap still allows,
    /// whichever is smaller.
    pub fn begin_iteration(&self, cancelled: bool, page_size: usize) -> (r: IterDecision)
        ensures
            r == (if cancelled || self.count >= self.max_events {
                IterDecision::Stop
            } else {
                IterDecision::Fetch(
                    if page_size <= self.max_events - self.count {
                        page_size
                    } else {
                        (self.max_events - self.count) as usize
                    },
                )
            }),
    {
        if cancelled || self.count >= self.max_events {
            IterDecision::Stop
        } else {
            let cap_left = self.max_events - self.count;
            if page_size <= cap_left {
                IterDecision::Fetch(page_size)
            } else {
                IterDecision::Fetch(cap_left)
            }
        }
    }

    /// A page of `n` records was delivered: the count grows (saturating)
    /// and the timeout budget resets.
    pub fn on_batch(&mut self, n: usize)
        ensures
            final (self).count == (if old(self).count + n <= usize::MAX {
                old(self).count + n
            } else {
                usize::MAX as int
            }),
            final (self).timeout_retries == 0,
            final (self).max_events == old(self).max_events,
    {
        if self.count <= usize::MAX - n {
            self.count = self.count + n;
        } else {
            self.count = usize::MAX;
        }
        self.timeout_retries = 0;
    }

    /// Classify a failed pagination call: an end-of-results code ends the
    /// channel; a timeout is retried with backoff until the budget is
    /// spent, then the partial read stands; anything else is fatal to
    /// this channel.
    pub fn on_fetch_error(&mut self, code: u32) -> (r: FetchErrorAction)
        ensures
            final (self).count == old(self).count,
            final (self).max_events == old(self).max_events,
            (code == 259 || code == 0x80070103) ==> r == FetchErrorAction::EndOfStream
                && final (self).timeout_retries == old(self).timeout_retries,
            (code == 1460 || code == 0x800705B4) ==> {
                let bumped = if old(self).timeout_retries < u32::MAX {
                    old(self).timeout_retries + 1
                } else {
                    u32::MAX as int
                };
                &&& final (self).timeout_retries == bumped
                &&& (bumped <= MAX_RETRY_ATTEMPTS ==> r == FetchErrorAction::RetryAfter(
                    backoff_ms(bumped as u32),
                ))
                &&& (bumped > MAX_RETRY_ATTEMPTS ==> r == FetchErrorAction::GiveUpTimeout)
            },
            !(code == 259 || code == 0x80070103 || code == 1460 || code == 0x800705B4) ==> r
                == FetchErrorAction::Fatal(code)
                && final (self).timeout_retries == old(self).timeout_retries,
    {
        if code == 259 || code == 0x80070103 {
            FetchErrorAction::EndOfStream
        } else if code == 1460 || code == 0x800705B4 {
            let bumped: u32 = if self.timeout_retries < u32::MAX {
                self.timeout_retries + 1
            } else {
                u32::MAX
            };
            self.timeout_retries = bumped;
            if bumped <= MAX_RETRY_ATTEMPTS {
                FetchErrorAction::RetryAfter(RETRY_BASE_DELAY_MS * pow2_u64(bumped - 1))
            } else {
                FetchErrorAction::GiveUpTimeout
            }
        } else {
            FetchErrorAction::Fatal(code)
        }
    }
}

/// What to do after a failed render or format call: the renderer
/// negotiates its buffer size by growing once to the size the source
/// reported and retrying; a second failure, or any other code, stands.
pub enum RenderRetry {
    /// Grow the buffer to this many units and retry the call.
    GrowTo(usize),
    /// Give up with this code.
    Fail(u32),
}

/// The buffer-size negotiation: the insufficient-buffer code grows the
/// buffer to the reported need and retries once; any other failure, or a
/// failure after the retry, is surfaced.
pub fn render_retry_decision(code: u32, needed: usize, already_retried: bool) -> (r: RenderRetry)
    ensures
        (code == 0x8007007A && !already_retried) ==> r == RenderRetry::GrowTo(needed),
        !(code == 0x8007007A && !already_retried) ==> r == RenderRetry::Fail(code),
{
    if code == 0x8007007A && !already_retried {
        RenderRetry::GrowTo(needed)
    } else {
        RenderRetry::Fail(code)
    }
}

// ── Tail queries ────────────────────────────────────────────────────────

/// One time unit past the newest known instant, falling back to the
/// instant itself at the top of the representable range rather than
/// wrapping.
pub fn advance_tail_ms(newest: i64) -> (r: i64)
    ensures
        newest == i64::MAX ==> r == newest,
        newest < i64::MAX ==> r == newest + 1,
{
    if newest == i64::MAX {
        newest
    } else {
        newest + 1
    }
}

/// The time predicate of a tail query: from one unit past the newest
/// known record (else the standing lower bound), and never an upper
/// bound, so a stale `time_to` cannot starve the tail of new records.
pub fn tail_query_bounds(newest: Option<i64>, standing_from: Option<i64>) -> (r: (
    Option<i64>,
    Option<i64>,
))
    ensures
        r.1 is None,
        match newest {
            Some(t) => r.0 == Some(
                if t == i64::MAX {
                    t
                } else {
                    (t + 1) as i64
                },
            ),
            None => r.0 == standing_from,
        },
{
    match newest {
        Some(t) => (Some(advance_tail_ms(t)), None),
        None => (standing_from, None),
    }
}

// ── Server-side time predicate ──────────────────────────────────────────

/// The textual query expression for the time bounds.
pub open spec fn xpath_query_spec(time_from: Option<i64>, time_to: Option<i64>) -> Seq<char> {
    match (time_from, time_to) {
        (None, None) => "*"@,
        (Some(f), None) => "*[System[TimeCreated[@SystemTime >= '"@ + iso_of(f) + "']]]"@,
        (None, Some(t)) => "*[System[TimeCreated[@SystemTime <= '"@ + iso_of(t) + "']]]"@,
        (Some(f), Some(t)) => "*[System[TimeCreated[@SystemTime >= '"@ + iso_of(f)
            + "'] and TimeCreated[@SystemTime <= '"@ + iso_of(t) + "']]]"@,
    }
}

/// Build the server-side filter expression for the inclusive time bounds;
/// absent bounds mean match-all.
pub fn build_xpath_query(time_from: Option<i64>, time_to: Option<i64>) -> (r: String)
    ensures
        r@ == xpath_query_spec(time_from, time_to),
{
    match (time_from, time_to) {
        (None, None) => String::from_str("*"),
        (Some(f), None) => {
            let mut s = String::from_str("*[System[TimeCreated[@SystemTime >= '");
            let iso = utc_ms_to_iso8601(f);
            s.append(iso.as_str());
            s.append("']]]");
            s
        },
        (None, Some(t)) => {
            let mut s = String::from_str("*[System[TimeCreated[@SystemTime <= '");
            let iso = utc_ms_to_iso8601(t);
            s.append(iso.as_str());
            s.append("']]]");
            s
        },
        (Some(f), Some(t)) => {
            let mut s = String::from_str("*[System[TimeCreated[@SystemTime >= '");
            let iso_f = utc_ms_to_iso8601(f);
            s.append(iso_f.as_str());
            s.append("'] and TimeCreated[@SystemTime <= '");
            let iso_t = utc_ms_to_iso8601(t);
            s.append(iso_t.as_str());
            s.append("']]]");
            s
        },
    }
}


// ── Reading plain record data ───────────────────────────────────────────

/// One channel handed as plain data: its name and either its records in
/// delivery order, or the code of the failure that opening it produced.
pub struct ChannelSource {
    pub name: String,
    pub result: Result<Vec<EventRecord>, u32>,
}

/// The cancellation budget: how many more batches may be emitted before
/// the flag reads as set; `None` means never cancelled.
pub open spec fn budget_view(b: Option<usize>) -> Option<int> {
    match b {
        Some(x) => Some(x as int),
        None => None,
    }
}

/// One less after a batch.
pub open spec fn dec_budget(b: Option<int>) -> Option<int> {
    match b {
        Some(x) => Some(x - 1),
        None => None,
    }
}

/// Whether the cancellation flag reads as set.
pub open spec fn budget_spent(b: Option<int>) -> bool {
    b matches Some(x) && x <= 0
}

/// The batches a full pagination of `recs` delivers: pages of up to
/// `page` records, stopping at the top of an iteration once the flag is
/// set, and never delivering more than `cap_left` records in all — each
/// fetch is clamped to what the cap still allows.
pub open spec fn paged_read(
    recs: Seq<EventRecord>,
    page: int,
    cap_left: int,
    budget: Option<int>,
) -> Seq<Seq<EventRecord>>
    decreases recs.len(),
{
    if page < 1 || budget_spent(budget) || recs.len() == 0 || cap_left <= 0 {
        Seq::empty()
    } else {
        let want = if page <= cap_left {
            page
        } else {
            cap_left
        };
        let take = if want <= recs.len() {
            want
        } else {
            recs.len() as int
        };
        seq![recs.take(take)] + paged_read(recs.skip(take), page, cap_left - take, dec_budget(budget))
    }
}

/// Total records across a batch list.
pub open spec fn batches_total(bs: Seq<Seq<EventRecord>>) -> int
    decreases bs.len(),
{
    if bs.len() == 0 {
        0
    } else {
        bs[0].len() + batches_total(bs.drop_first())
    }
}

proof fn lemma_batches_total_push(bs: Seq<Seq<EventRecord>>, b: Seq<EventRecord>)
    ensures
        batches_total(bs.push(b)) == batches_total(bs) + b.len(),
    decreases bs.len(),
{
    assert(batches_total(bs.push(b)) == bs.push(b)[0].len() + batches_total(
        bs.push(b).drop_first(),
    ));
    if bs.len() == 0 {
        assert(bs.push(b).drop_first() =~= Seq::<Seq<EventRecord>>::empty());
        assert(bs.push(b)[0] == b);
        assert(batches_total(Seq::<Seq<EventRecord>>::empty()) == 0);
    } else {
        assert(bs.push(b).drop_first() =~= bs.drop_first().push(b));
        assert(bs.push(b)[0] == bs[0]);
        lemma_batches_total_push(bs.drop_first(), b);
        assert(batches_total(bs) == bs[0].len() + batches_total(bs.drop_first()));
    }
}

proof fn lemma_paged_read_total(recs: Seq<EventRecord>, page: int, cap: int, budget: Option<int>)
    ensures
        batches_total(paged_read(recs, page, cap, budget)) <= recs.len(),
        batches_total(paged_read(recs, page, cap, budget)) <= (if cap >= 0 {
            cap
        } else {
            0
        }),
    decreases recs.len(),
{
    if !(page < 1 || budget_spent(budget) || recs.len() == 0 || cap <= 0) {
        let want = if page <= cap {
            page
        } else {
            cap
        };
        let take = if want <= recs.len() {
            want
        } else {
            recs.len() as int
        };
        lemma_paged_read_total(recs.skip(take), page, cap - take, dec_budget(budget));
        let rest = paged_read(recs.skip(take), page, cap - take, dec_budget(budget));
        assert((seq![recs.take(take)] + rest).drop_first() =~= rest);
    }
}

/// Paginate plain records into delivered batches; returns the batches and
/// the count, and spends one unit of the cancellation budget per batch.
#[verifier::loop_isolation(false)]
pub fn read_channel_pages(
    records: Vec<EventRecord>,
    page_size: usize,
    max_events: usize,
    budget: &mut Option<usize>,
) -> (r: (Vec<Vec<EventRecord>>, usize))
    requires
        page_size >= 1,
    ensures
        r.0@.map_values(|b: Vec<EventRecord>| b@) == paged_read(
            records@,
            page_size as int,
            max_events as int,
            budget_view(*old(budget)),
        ),
        r.1 == batches_total(
            paged_read(records@, page_size as int, max_events as int, budget_view(*old(budget))),
        ),
        r.1 <= records@.len(),
        r.1 <= max_events,
        budget_view(*final (budget)) == ({
            let consumed = paged_read(
                records@,
                page_size as int,
                max_events as int,
                budget_view(*old(budget)),
            ).len();
            match budget_view(*old(budget)) {
                Some(x) => Some(x - consumed),
                None => None::<int>,
            }
        }),
{
    let ghost recs0 = records@;
    let ghost budget0 = budget_view(*old(budget));
    let n0: usize = records.len();
    let mut out: Vec<Vec<EventRecord>> = Vec::new();
    let mut rest = records;
    let mut count: usize = 0;
    proof {
        lemma_paged_read_total(recs0, page_size as int, max_events as int, budget0);
    }
    loop
        invariant
            page_size >= 1,
            recs0.len() == n0,
            rest@.len() <= n0,
            count <= recs0.len() - rest@.len(),
            count == batches_total(out@.map_values(|b: Vec<EventRecord>| b@)),
            paged_read(recs0, page_size as int, max_events as int, budget0) == out@.map_values(
                |b: Vec<EventRecord>| b@,
            ) + paged_read(
                rest@,
                page_size as int,
                max_events as int - count,
                budget_view(*budget),
            ),
            budget_view(*budget) == ({
                match budget0 {
                    Some(x) => Some(x - out@.len()),
                    None => None::<int>,
                }
            }),
        decreases rest@.len(),
    {
        let cancelled = match budget {
            Some(b) => *b == 0,
            None => false,
        };
        if cancelled || rest.len() == 0 || count >= max_events {
            break ;
        }
        let cap_left: usize = max_events - count;
        let want: usize = if page_size <= cap_left {
            page_size
        } else {
            cap_left
        };
        let take: usize = if want <= rest.len() {
            want
        } else {
            rest.len()
        };
        let ghost rest_before = rest@;
        let tail = rest.split_off(take);
        let batch = rest;
        rest = tail;
        proof {
            assert(batch@ =~= rest_before.take(take as int));
            assert(rest@ =~= rest_before.skip(take as int));
            lemma_batches_total_push(out@.map_values(|b: Vec<EventRecord>| b@), batch@);
            assert(out@.push(batch).map_values(|b: Vec<EventRecord>| b@) =~= out@.map_values(
                |b: Vec<EventRecord>| b@,
            ).push(batch@));
            assert((out@.map_values(|b: Vec<EventRecord>| b@) + seq![batch@]) =~= out@.map_values(
                |b: Vec<EventRecord>| b@,
            ).push(batch@));
            assert(paged_read(
                rest_before,
                page_size as int,
                max_events as int - count,
                budget_view(*budget),
            ) == seq![rest_before.take(take as int)] + paged_read(
                rest_before.skip(take as int),
                page_size as int,
                max_events as int - count - take,
                dec_budget(budget_view(*budget)),
            ));
            assert(out@.map_values(|b: Vec<EventRecord>| b@) + (seq![batch@] + paged_read(
                rest@,
                page_size as int,
                max_events as int - count - take,
                dec_budget(budget_view(*budget)),
            )) =~= out@.map_values(|b: Vec<EventRecord>| b@).push(batch@) + paged_read(
                rest@,
                page_size as int,
                max_events as int - count - take,
                dec_budget(budget_view(*budget)),
            ));
        }
        out.push(batch);
        count = count + take;
        match budget {
            Some(b) => {
                *budget = Some(*b - 1);
            },
            None => {},
        }
    }
    proof {
        assert(paged_read(
            rest@,
            page_size as int,
            max_events as int - count,
            budget_view(*budget),
        ) =~= Seq::<Seq<EventRecord>>::empty());
        assert(out@.map_values(|b: Vec<EventRecord>| b@) + Seq::<Seq<EventRecord>>::empty()
            =~= out@.map_values(|b: Vec<EventRecord>| b@));
    }
    (out, count)
}


// ── The full ingestion run over plain data ──────────────────────────────

/// The error text reported for a failed channel.
pub open spec fn channel_error_text(name: Seq<char>, code: u32) -> Seq<char> {
    "Windows API error: query on channel '"@ + name + "' (HRESULT: 0x"@ + crate::text::hex_of(
        code as nat,
        8,
    ) + ")"@
}

/// `k` budget units spent.
pub open spec fn budget_minus(b: Option<int>, k: int) -> Option<int> {
    match b {
        Some(x) => Some(x - k),
        None => None,
    }
}

/// Total records across the sources' data.
pub open spec fn total_records_of(srcs: Seq<ChannelSource>) -> int
    decreases srcs.len(),
{
    if srcs.len() == 0 {
        0
    } else {
        (match srcs[0].result {
            Ok(v) => v@.len() as int,
            Err(_) => 0,
        }) + total_records_of(srcs.drop_first())
    }
}

proof fn lemma_total_records_nonneg(srcs: Seq<ChannelSource>)
    ensures
        total_records_of(srcs) >= 0,
    decreases srcs.len(),
{
    if srcs.len() > 0 {
        lemma_total_records_nonneg(srcs.drop_first());
    }
}

/// The whole lifecycle message stream of one ingestion run: per channel,
/// in caller order, its batches then one cumulative progress report — or
/// one error, which leaves the remaining channels running — and exactly
/// one final completion carrying the total. A spent cancellation budget
/// stops the run at the next checkpoint with no error.
pub open spec fn run_msgs(
    srcs: Seq<ChannelSource>,
    page: int,
    cap: int,
    budget: Option<int>,
    total_before: int,
    elapsed_ms: u64,
) -> Seq<MessageView>
    decreases srcs.len(),
{
    if srcs.len() == 0 || budget_spent(budget) {
        seq![MessageView::Complete { total: total_before, elapsed_ms }]
    } else {
        match srcs[0].result {
            Ok(recs) => {
                let batches = paged_read(recs@, page, cap, budget);
                let n = batches_total(batches);
                batches.map_values(|b: Seq<EventRecord>| MessageView::Batch(b)) + seq![
                    MessageView::Progress { count: total_before + n, channel: srcs[0].name@ },
                ] + run_msgs(
                    srcs.drop_first(),
                    page,
                    cap,
                    budget_minus(budget, batches.len() as int),
                    total_before + n,
                    elapsed_ms,
                )
            },
            Err(code) => seq![
                MessageView::Error {
                    channel: srcs[0].name@,
                    error: channel_error_text(srcs[0].name@, code),
                },
            ] + run_msgs(srcs.drop_first(), page, cap, budget, total_before, elapsed_ms),
        }
    }
}

proof fn lemma_msg_push(msgs: Seq<ReaderMessage>, m: ReaderMessage)
    ensures
        msgs.push(m).map_values(|x: ReaderMessage| x@) =~= msgs.map_values(
            |x: ReaderMessage| x@,
        ).push(m@),
{
}

/// Move the batches into the message list.
#[verifier::loop_isolation(false)]
fn push_batch_messages(msgs: &mut Vec<ReaderMessage>, batches: Vec<Vec<EventRecord>>)
    ensures
        final (msgs)@.map_values(|x: ReaderMessage| x@) == old(msgs)@.map_values(
            |x: ReaderMessage| x@,
        ) + batches@.map_values(|b: Vec<EventRecord>| b@).map_values(
            |b: Seq<EventRecord>| MessageView::Batch(b),
        ),
{
    let ghost batches0 = batches@;
    let mut rem = batches;
    while rem.len() > 0
        invariant
            msgs@.map_values(|x: ReaderMessage| x@) + rem@.map_values(
                |b: Vec<EventRecord>| b@,
            ).map_values(|b: Seq<EventRecord>| MessageView::Batch(b)) == old(msgs)@.map_values(
                |x: ReaderMessage| x@,
            ) + batches0.map_values(|b: Vec<EventRecord>| b@).map_values(
                |b: Seq<EventRecord>| MessageView::Batch(b),
            ),
        decreases rem@.len(),
    {
        let ghost rem_before = rem@;
        let b = rem.remove(0);
        proof {
            lemma_msg_push(msgs@, ReaderMessage::EventBatch(b));
            assert(rem_before.map_values(|b: Vec<EventRecord>| b@).map_values(
                |b: Seq<EventRecord>| MessageView::Batch(b),
            ) =~= seq![MessageView::Batch(b@)] + rem@.map_values(
                |b: Vec<EventRecord>| b@,
            ).map_values(|b: Seq<EventRecord>| MessageView::Batch(b)));
            assert(msgs@.map_values(|x: ReaderMessage| x@).push(MessageView::Batch(b@)) + rem@.map_values(
                |b: Vec<EventRecord>| b@,
            ).map_values(|b: Seq<EventRecord>| MessageView::Batch(b)) =~= msgs@.map_values(
                |x: ReaderMessage| x@,
            ) + rem_before.map_values(|b: Vec<EventRecord>| b@).map_values(
                |b: Seq<EventRecord>| MessageView::Batch(b),
            ));
        }
        msgs.push(ReaderMessage::EventBatch(b));
    }
    proof {
        assert(rem@.map_values(|b: Vec<EventRecord>| b@).map_values(
            |b: Seq<EventRecord>| MessageView::Batch(b),
        ) =~= Seq::<MessageView>::empty());
        assert(msgs@.map_values(|x: ReaderMessage| x@) + Seq::<MessageView>::empty()
            =~= msgs@.map_values(|x: ReaderMessage| x@));
    }
}

/// Run a whole ingestion over plain channel data: paginate each channel
/// in caller order under the per-channel cap, observe the cancellation
/// budget at every checkpoint, and return the full message stream,
/// ending in the one completion message.
#[verifier::loop_isolation(false)]
#[verifier::rlimit(50)]
pub fn run_ingestion(
    sources: Vec<ChannelSource>,
    page_size: usize,
    max_per_channel: usize,
    cancel_after_batches: Option<usize>,
    elapsed_ms: u64,
) -> (r: Vec<ReaderMessage>)
    requires
        page_size >= 1,
        total_records_of(sources@) <= usize::MAX,
    ensures
        r@.map_values(|m: ReaderMessage| m@) == run_msgs(
            sources@,
            page_size as int,
            max_per_channel as int,
            budget_view(cancel_after_batches),
            0,
            elapsed_ms,
        ),
{
    let ghost srcs0 = sources@;
    let mut msgs: Vec<ReaderMessage> = Vec::new();
    let mut total: usize = 0;
    let mut budget: Option<usize> = cancel_after_batches;
    let mut rem = sources;
    proof {
        lemma_total_records_nonneg(srcs0);
    }
    loop
        invariant
            page_size >= 1,
            total + total_records_of(rem@) <= total_records_of(srcs0),
            total_records_of(srcs0) <= usize::MAX,
            total_records_of(rem@) >= 0,
            run_msgs(
                srcs0,
                page_size as int,
                max_per_channel as int,
                budget_view(cancel_after_batches),
                0,
                elapsed_ms,
            ) == msgs@.map_values(|x: ReaderMessage| x@) + run_msgs(
                rem@,
                page_size as int,
                max_per_channel as int,
                budget_view(budget),
                total as int,
                elapsed_ms,
            ),
        decreases rem@.len(),
    {
        let cancelled = match &budget {
            Some(b) => *b == 0,
            None => false,
        };
        if rem.len() == 0 || cancelled {
            break ;
        }
        let ghost rem_before = rem@;
        let src = rem.remove(0);
        proof {
            assert(rem@ =~= rem_before.drop_first());
            lemma_total_records_nonneg(rem@);
        }
        match src.result {
            Ok(recs) => {
                let ghost budget_before = budget_view(budget);
                let (batches, n) = read_channel_pages(recs, page_size, max_per_channel, &mut budget);
                let ghost paged = paged_read(
                    recs@,
                    page_size as int,
                    max_per_channel as int,
                    budget_before,
                );
                proof {
                    assert(batches@.map_values(|b: Vec<EventRecord>| b@).map_values(
                        |b: Seq<EventRecord>| MessageView::Batch(b),
                    ) =~= paged.map_values(|b: Seq<EventRecord>| MessageView::Batch(b)));
                }
                push_batch_messages(&mut msgs, batches);
                total = total + n;
                proof {
                    lemma_msg_push(
                        msgs@,
                        ReaderMessage::Progress { count: total, channel: src.name },
                    );
                }
                let ghost msgs_before = msgs@.map_values(|x: ReaderMessage| x@);
                msgs.push(ReaderMessage::Progress { count: total, channel: src.name });
                proof {
                    assert(msgs@.map_values(|x: ReaderMessage| x@) =~= msgs_before.push(
                        MessageView::Progress { count: total as int, channel: src.name@ },
                    ));
                    assert(run_msgs(
                        rem_before,
                        page_size as int,
                        max_per_channel as int,
                        budget_before,
                        (total - n) as int,
                        elapsed_ms,
                    ) == paged.map_values(|b: Seq<EventRecord>| MessageView::Batch(b)) + seq![
                        MessageView::Progress { count: total as int, channel: src.name@ },
                    ] + run_msgs(
                        rem@,
                        page_size as int,
                        max_per_channel as int,
                        budget_minus(budget_before, paged.len() as int),
                        total as int,
                        elapsed_ms,
                    ));
                    assert(msgs@.map_values(|x: ReaderMessage| x@) + run_msgs(
                        rem@,
                        page_size as int,
                        max_per_channel as int,
                        budget_view(budget),
                        total as int,
                        elapsed_ms,
                    ) =~= run_msgs(
                        srcs0,
                        page_size as int,
                        max_per_channel as int,
                        budget_view(cancel_after_batches),
                        0,
                        elapsed_ms,
                    ));
                }
            },
            Err(code) => {
                let mut ctx = String::from_str("query on channel '");
                ctx.append(src.name.as_str());
                ctx.append("'");
                let err = crate::error::windows_err(code, ctx.as_str());
                let text = err.message();
                proof {
                    reveal_strlit("Windows API error: ");
                    reveal_strlit("query on channel '");
                    reveal_strlit("Windows API error: query on channel '");
                    reveal_strlit("'");
                    reveal_strlit("' (HRESULT: 0x");
                    reveal_strlit(" (HRESULT: 0x");
                    reveal_strlit(")");
                    assert(text@ =~= channel_error_text(src.name@, code));
                    lemma_msg_push(
                        msgs@,
                        ReaderMessage::Error { channel: src.name, error: text },
                    );
                }
                let ghost msgs_before = msgs@.map_values(|x: ReaderMessage| x@);
                let ghost text_view = text@;
                msgs.push(ReaderMessage::Error { channel: src.name, error: text });
                proof {
                    assert(msgs@.map_values(|x: ReaderMessage| x@) =~= msgs_before.push(
                        MessageView::Error { channel: src.name@, error: text_view },
                    ));
                    assert(msgs@.map_values(|x: ReaderMessage| x@) + run_msgs(
                        rem@,
                        page_size as int,
                        max_per_channel as int,
                        budget_view(budget),
                        total as int,
                        elapsed_ms,
                    ) =~= run_msgs(
                        srcs0,
                        page_size as int,
                        max_per_channel as int,
                        budget_view(cancel_after_batches),
                        0,
                        elapsed_ms,
                    ));
                }
            },
        }
    }
    proof {
        lemma_msg_push(msgs@, ReaderMessage::Complete { total, elapsed_ms });
    }
    let ghost msgs_before = msgs@.map_values(|x: ReaderMessage| x@);
    msgs.push(ReaderMessage::Complete { total, elapsed_ms });
    proof {
        assert(run_msgs(
            rem@,
            page_size as int,
            max_per_channel as int,
            budget_view(budget),
            total as int,
            elapsed_ms,
        ) =~= seq![MessageView::Complete { total: total as int, elapsed_ms }]);
        assert(msgs@.map_values(|x: ReaderMessage| x@) =~= msgs_before + seq![
            MessageView::Complete { total: total as int, elapsed_ms },
        ]);
        assert(msgs@.map_values(|x: ReaderMessage| x@) =~= run_msgs(
            srcs0,
            page_size as int,
            max_per_channel as int,
            budget_view(cancel_after_batches),
            0,
            elapsed_ms,
        ));
    }
    msgs
}


// ── Raw-text helpers of the source reader ───────────────────────────────

/// First offset at or after `i` where `pat` occurs in `s`, or `s.len()`.
pub open spec fn find_from(s: Seq<char>, pat: Seq<char>, i: int) -> int
    decreases s.len() - i,
{
    if 0 <= i && i + pat.len() <= s.len() {
        if crate::text::match_at(s, pat, i) {
            i
        } else {
            find_from(s, pat, i + 1)
        }
    } else {
        s.len() as int
    }
}

/// The provider name as a cheap scan finds it, without a full parse: the
/// text between `Provider Name="` and the next quote.
pub open spec fn extract_provider_spec(s: Seq<char>) -> Option<Seq<char>> {
    let marker = "Provider Name=\""@;
    let p = find_from(s, marker, 0);
    if p + marker.len() <= s.len() {
        let start = p + marker.len();
        let q = find_from(s, seq!['"'], start);
        if q < s.len() {
            Some(s.subrange(start, q))
        } else {
            None
        }
    } else {
        None
    }
}

#[verifier::loop_isolation(false)]
fn find_first(v: &Vec<char>, pat: &Vec<char>, from: usize) -> (r: usize)
    requires
        from <= v@.len(),
    ensures
        r == find_from(v@, pat@, from as int),
        from <= r <= v@.len(),
        r + pat@.len() <= v@.len() ==> crate::text::match_at(v@, pat@, r as int),
{
    if pat.len() > v.len() {
        return v.len();
    }
    let mut i = from;
    while i <= v.len() - pat.len()
        invariant
            pat@.len() <= v@.len(),
            from <= i,
            i <= v@.len() + 1,
            find_from(v@, pat@, from as int) == find_from(v@, pat@, i as int),
        decreases v@.len() + 1 - i,
    {
        if crate::text::window_matches_exact(v, pat, i) {
            return i;
        }
        i = i + 1;
    }
    proof {
        assert(find_from(v@, pat@, i as int) == v@.len());
    }
    v.len()
}

/// Extract the `Provider Name="..."` attribute value from raw event text
/// without a full parse, for publisher metadata lookup.
pub fn extract_provider_name(xml: &str) -> (r: Option<String>)
    ensures
        match r {
            Some(s) => extract_provider_spec(xml@) == Some(s@),
            None => extract_provider_spec(xml@) is None,
        },
{
    let v = chars_of(xml);
    let marker = chars_of("Provider Name=\"");
    let p = find_first(&v, &marker, 0);
    if marker.len() > v.len() || p > v.len() - marker.len() {
        return None;
    }
    let start = p + marker.len();
    let mut quote: Vec<char> = Vec::new();
    quote.push('"');
    let q = find_first(&v, &quote, start);
    proof {
        reveal_strlit("Provider Name=\"");
        assert(quote@ =~= seq!['"']);
    }
    if q >= v.len() {
        return None;
    }
    proof {
        assert(q + 1 <= v@.len());
    }
    Some(string_from_chars(&crate::text::slice_chars(&v, start, q)))
}

/// Encode text as null-terminated UTF-16 code units, the form the system
/// APIs take strings in.
pub fn to_wide(s: &str) -> (r: Vec<u16>)
    ensures
        r@ == crate::text::utf16_of(s@) + seq![0u16],
{
    let chars = chars_of(s);
    let mut units = crate::text::utf16_units(&chars);
    units.push(0);
    proof {
        assert(units@ =~= crate::text::utf16_of(s@) + seq![0u16]);
    }
    units
}

} // verus!
