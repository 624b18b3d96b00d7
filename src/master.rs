//! Decision logic of the master discovery paging loop. The caller owns the
//! socket, the clock and the output channel: it asks `MasterQuery` for the
//! next request, reports what arrived (or that nothing did), and delivers
//! the addresses handed back.

use vstd::prelude::*;
use crate::codec::{address_text, decode_address, decodes_to, push_address_text, Address, ADDRESS_SIZE};
use crate::error::QueryError;
use crate::filters::{fragment, Filters};
use crate::packet::{request_bytes, ReqPacket, HEADER_MASTER_QUERY};

verus! {

/// Minimum time between the starts of two discovery requests, in milliseconds.
pub const RATE_LIMIT_MS: u64 = 10_000;
/// How long to wait for a master response, in milliseconds.
pub const RECEIVE_TIMEOUT_MS: u64 = 4_000;
/// Resends allowed after a timeout before the run fails.
pub const MAX_RETRIES: u32 = 6;
/// The region code byte that asks for every region.
pub const REGION_ALL: u8 = 0xFF;

/// Where a discovery run stands.
#[derive(Clone, Copy, Debug, PartialEq, Eq, Structural)]
pub enum MasterState {
    Running,
    /// The terminator address was seen.
    Completed,
    /// The consumer went away.
    ConsumerClosed,
    /// Retries were exhausted, or a response could not be framed.
    Failed,
}

/// The record is the placeholder `255.255.255.255:<any>`.
pub open spec fn is_placeholder_record(r: Seq<u8>) -> bool {
    r[0] == 255 && r[1] == 255 && r[2] == 255 && r[3] == 255
}

/// The record is the terminator `0.0.0.0:0`.
pub open spec fn is_terminator_record(r: Seq<u8>) -> bool {
    r[0] == 0 && r[1] == 0 && r[2] == 0 && r[3] == 0 && r[4] == 0 && r[5] == 0
}

/// Walks a response record by record: the records to deliver, in order, and
/// whether the terminator was reached. Placeholders are skipped; nothing
/// after the terminator is read.
pub open spec fn scan(data: Seq<u8>) -> (Seq<Seq<u8>>, bool)
    decreases data.len(),
{
    if data.len() < 6 {
        (Seq::empty(), false)
    } else {
        let r = data.subrange(0, 6);
        let rest = data.subrange(6, data.len() as int);
        if is_placeholder_record(r) {
            scan(rest)
        } else if is_terminator_record(r) {
            (Seq::empty(), true)
        } else {
            (seq![r] + scan(rest).0, scan(rest).1)
        }
    }
}

/// The payload of a discovery request: region code, cursor text, NUL, filter
/// fragment, NUL.
pub open spec fn master_payload(cursor: Address, filters: Filters) -> Seq<u8> {
    seq![REGION_ALL] + address_text(cursor) + seq![0u8] + fragment(filters) + seq![0u8]
}

/// No record that a response hands out is a placeholder or the terminator.
pub proof fn lemma_scan_delivers_real(data: Seq<u8>, j: int)
    requires
        0 <= j < scan(data).0.len(),
    ensures
        scan(data).0[j].len() == 6,
        !is_placeholder_record(scan(data).0[j]),
        !is_terminator_record(scan(data).0[j]),
    decreases data.len(),
{
    if data.len() >= 6 {
        let r = data.subrange(0, 6);
        let rest = data.subrange(6, data.len() as int);
        if is_placeholder_record(r) {
            lemma_scan_delivers_real(rest, j);
        } else if !is_terminator_record(r) && j > 0 {
            lemma_scan_delivers_real(rest, j - 1);
        }
    }
}

/// Requests that the engine lets start, one after another, start at least
/// its interval apart, measured from start to start.
pub proof fn lemma_requests_spaced(first: MasterQuery, t1: u64, next: MasterQuery, t2: u64)
    requires
        first.may_send(t1),
        next.last_request_ms == Some(t1),
        next.interval_ms == first.interval_ms,
        next.may_send(t2),
    ensures
        t2 as int >= t1 as int + first.interval_ms as int,
{
}

/// The paging engine of one discovery run.
#[derive(Clone, Debug)]
pub struct MasterQuery {
    pub filters: Filters,
    /// The last address delivered; `0.0.0.0:0` before the first.
    pub cursor: Address,
    pub state: MasterState,
    /// Timeouts in a row since the last response.
    pub retries: u32,
    /// When the last request started, in milliseconds on the caller's clock.
    pub last_request_ms: Option<u64>,
    pub interval_ms: u64,
}

impl MasterQuery {
    pub open spec fn wf(&self) -> bool {
        self.retries <= MAX_RETRIES
    }

    /// A request may start at `now`: the run goes on, and the interval since
    /// the start of the previous request has passed.
    pub open spec fn may_send(&self, now: u64) -> bool {
        &&& self.state == MasterState::Running
        &&& match self.last_request_ms {
            Some(t) => now as int >= t as int + self.interval_ms as int,
            None => true,
        }
    }

    /// Starts a run for `filters` whose requests start at least `interval_ms`
    /// apart.
    pub fn new(filters: Filters, interval_ms: u64) -> (r: MasterQuery)
        ensures
            r.wf(),
            r.filters == filters,
            r.cursor.spec_is_terminator(),
            r.state == MasterState::Running,
            r.retries == 0,
            r.last_request_ms.is_none(),
            r.interval_ms == interval_ms,
    {
        MasterQuery {
            filters,
            cursor: Address::unspecified(),
            state: MasterState::Running,
            retries: 0,
            last_request_ms: None,
            interval_ms,
        }
    }

    /// The discovery request for the current cursor.
    pub fn request_packet(&self) -> (r: Vec<u8>)
        ensures
            r@ == request_bytes(
                HEADER_MASTER_QUERY,
                Some(master_payload(self.cursor, self.filters)),
                None,
            ),
    {
        let mut payload: Vec<u8> = Vec::new();
        payload.push(REGION_ALL);
        push_address_text(&mut payload, &self.cursor);
        payload.push(0u8);
        let mut frag = self.filters.fragment_bytes();
        payload.append(&mut frag);
        payload.push(0u8);
        assert(payload@ =~= master_payload(self.cursor, self.filters));
        let packet = ReqPacket::new(HEADER_MASTER_QUERY, Some(payload), None);
        packet.to_raw()
    }

    /// The earliest time at which the next request may start.
    pub fn next_request_at(&self) -> (r: u64)
        ensures
            self.last_request_ms is None ==> r == 0,
            self.last_request_ms is Some ==> r as int == if self.last_request_ms->0 as int
                + self.interval_ms as int > u64::MAX as int {
                u64::MAX as int
            } else {
                self.last_request_ms->0 as int + self.interval_ms as int
            },
    {
        match self.last_request_ms {
            None => 0,
            Some(t) => t.saturating_add(self.interval_ms),
        }
    }

    /// Starts a request at `now` if the run goes on and the rate limit allows
    /// it: returns the bytes to send, and records `now` as the request's start.
    pub fn begin_request(&mut self, now: u64) -> (r: Option<Vec<u8>>)
        requires
            old(self).wf(),
        ensures
            final(self).wf(),
            r is Some <==> old(self).may_send(now),
            r is Some ==> r->0@ == request_bytes(
                HEADER_MASTER_QUERY,
                Some(master_payload(old(self).cursor, old(self).filters)),
                None,
            ) && *final(self) == (MasterQuery { last_request_ms: Some(now), ..*old(self) }),
            r is None ==> *final(self) == *old(self),
    {
        if self.state != MasterState::Running {
            return None;
        }
        match self.last_request_ms {
            Some(t) => {
                if now < t || now - t < self.interval_ms {
                    return None;
                }
            },
            None => {},
        }
        let packet = self.request_packet();
        self.last_request_ms = Some(now);
        Some(packet)
    }

    /// No response came within the window. Returns whether to resend (once
    /// the rate limit allows); after `MAX_RETRIES` resends the run fails.
    pub fn on_timeout(&mut self) -> (r: bool)
        requires
            old(self).wf(),
        ensures
            final(self).wf(),
            r <==> old(self).state == MasterState::Running && old(self).retries < MAX_RETRIES,
            r ==> *final(self) == (MasterQuery { retries: (old(self).retries + 1) as u32, ..*old(self) }),
            !r && old(self).state == MasterState::Running ==> *final(self) == (MasterQuery {
                state: MasterState::Failed,
                ..*old(self)
            }),
            old(self).state != MasterState::Running ==> *final(self) == *old(self),
    {
        if self.state != MasterState::Running {
            return false;
        }
        if self.retries < MAX_RETRIES {
            self.retries = self.retries + 1;
            true
        } else {
            self.state = MasterState::Failed;
            false
        }
    }

    /// Takes a master response: a flat run of 6-byte address records.
    /// Returns the addresses to deliver, in order: placeholders are skipped,
    /// and the terminator ends the run, with nothing after it read. The last
    /// address delivered becomes the cursor. An empty response ends the run;
    /// a response whose length is not a multiple of 6 fails it.
    pub fn on_response(&mut self, data: &[u8]) -> (r: Result<Vec<Address>, QueryError>)
        requires
            old(self).wf(),
        ensures
            final(self).wf(),
            old(self).state != MasterState::Running ==> r is Ok && r->Ok_0@.len() == 0
                && *final(self) == *old(self),
            old(self).state == MasterState::Running && data@.len() % 6 != 0 ==> r == Err::<
                Vec<Address>,
                QueryError,
            >(QueryError::MalformedPacket) && *final(self) == (MasterQuery {
                state: MasterState::Failed,
                ..*old(self)
            }),
            old(self).state == MasterState::Running && data@.len() == 0 ==> r is Ok
                && r->Ok_0@.len() == 0 && *final(self) == (MasterQuery {
                state: MasterState::Completed,
                retries: 0,
                ..*old(self)
            }),
            old(self).state == MasterState::Running && data@.len() > 0 && data@.len() % 6 == 0
                ==> {
                let recs = scan(data@).0;
                &&& r is Ok
                &&& r->Ok_0@.len() == recs.len()
                &&& forall|j: int| 0 <= j < recs.len() ==> decodes_to(recs[j], #[trigger] r->Ok_0@[j])
                &&& forall|j: int| 0 <= j < recs.len() ==> !(#[trigger] r->Ok_0@[j]).spec_is_placeholder()
                    && !r->Ok_0@[j].spec_is_terminator()
                &&& final(self).state == if scan(data@).1 {
                    MasterState::Completed
                } else {
                    MasterState::Running
                }
                &&& final(self).cursor == if recs.len() > 0 {
                    r->Ok_0@.last()
                } else {
                    old(self).cursor
                }
                &&& final(self).retries == 0
                &&& final(self).filters == old(self).filters
                &&& final(self).last_request_ms == old(self).last_request_ms
                &&& final(self).interval_ms == old(self).interval_ms
            },
    {
        if self.state != MasterState::Running {
            return Ok(Vec::new());
        }
        if data.len() % ADDRESS_SIZE != 0 {
            self.state = MasterState::Failed;
            return Err(QueryError::MalformedPacket);
        }
        self.retries = 0;
        if data.len() == 0 {
            self.state = MasterState::Completed;
            return Ok(Vec::new());
        }
        let mut out: Vec<Address> = Vec::new();
        let mut i: usize = 0;
        let mut done = false;
        let ghost mut delivered: Seq<Seq<u8>> = Seq::empty();
        let ghost start = *self;
        assert(data@.subrange(0, data@.len() as int) =~= data@);
        assert(delivered + scan(data@).0 =~= scan(data@).0);
        while i < data.len() && !done
            invariant
                data@.len() % 6 == 0,
                i <= data@.len(),
                i % 6 == 0,
                !done ==> scan(data@) == (
                    delivered + scan(data@.subrange(i as int, data@.len() as int)).0,
                    scan(data@.subrange(i as int, data@.len() as int)).1,
                ),
                done ==> scan(data@) == (delivered, true),
                out@.len() == delivered.len(),
                forall|j: int| 0 <= j < delivered.len() ==> decodes_to(delivered[j], #[trigger] out@[j]),
                self.cursor == if delivered.len() > 0 {
                    out@.last()
                } else {
                    start.cursor
                },
                self.state == MasterState::Running,
                *self == (MasterQuery { cursor: self.cursor, ..start }),
            decreases data@.len() - i,
        {
            let ghost rest = data@.subrange(i as int, data@.len() as int);
            let rec = &data[i..i + ADDRESS_SIZE];
            assert(rec@ =~= rest.subrange(0, 6));
            assert(rest.subrange(6, rest.len() as int) =~= data@.subrange(i + 6, data@.len() as int));
            let addr = decode_address(rec);
            if addr.is_placeholder() {
                assert(is_placeholder_record(rec@));
            } else if addr.is_terminator() {
                assert(is_terminator_record(rec@));
                done = true;
            } else {
                proof {
                    if is_placeholder_record(rec@) {
                        assert(addr.ip@ =~= seq![255u8, 255u8, 255u8, 255u8]);
                    }
                    if is_terminator_record(rec@) {
                        assert(addr.ip@ =~= seq![0u8, 0u8, 0u8, 0u8]);
                    }
                    delivered = delivered.push(rec@);
                }
                out.push(addr);
                self.cursor = addr;
            }
            i = i + ADDRESS_SIZE;
        }
        if !done {
            assert(data@.subrange(i as int, data@.len() as int).len() == 0);
        }
        assert forall|j: int| 0 <= j < out@.len() implies !(#[trigger] out@[j]).spec_is_placeholder()
            && !out@[j].spec_is_terminator() by {
            lemma_scan_delivers_real(data@, j);
            assert(out@[j].ip@ == delivered[j].subrange(0, 4));
        }
        if done {
            self.state = MasterState::Completed;
        }
        Ok(out)
    }

    /// The consumer went away: the run stops and sends nothing more.
    pub fn on_consumer_closed(&mut self)
        ensures
            *final(self) == (MasterQuery { state: MasterState::ConsumerClosed, ..*old(self) }),
    {
        self.state = MasterState::ConsumerClosed;
    }
}

} // verus!
