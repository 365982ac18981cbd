//! The messages exchanged with producers: the telemetry payload and its
//! validation, the per-message replies, and the filter records.

use chrono::Timelike;
use std::sync::{Arc, Mutex};
use vstd::prelude::*;
use vstd::string::*;

verus! {

/// The reply to a message that was accepted.
#[derive(Debug, Clone, Copy, PartialEq, Eq, Structural)]
pub struct SuccessFrame {
    pub success: bool,
    pub seq_number: u64,
}

/// The reply to a message whose payload failed validation.
#[derive(Debug, Clone)]
pub struct ErrorFrame {
    pub success: bool,
    pub seq_number: u64,
    /// The name of the error kind.
    pub error: String,
}

/// Event filtering settings sent from the uploader towards the producers.
#[derive(Debug, Clone, Copy, PartialEq, Eq, Structural)]
pub struct FilterFrame {
    pub nc: u64,
    pub nd: u64,
    pub ne: u64,
}

/// The value of each filter field when no filter was received.
pub const FILTER_ALL: u64 = 0x7FFFFFFF;

impl Default for FilterFrame {
    fn default() -> (r: FilterFrame)
        ensures
            r == (FilterFrame { nc: FILTER_ALL, nd: FILTER_ALL, ne: FILTER_ALL }),
    {
        FilterFrame { nc: FILTER_ALL, nd: FILTER_ALL, ne: FILTER_ALL }
    }
}

#[verifier::external_type_specification]
#[verifier::external_body]
#[verifier::reject_recursive_types(T)]
pub struct ExMutex<T: ?Sized>(Mutex<T>);

/// Relies on std's Mutex::new, which wraps the value in an unlocked mutex.
pub assume_specification<T>[ Mutex::<T>::new ](t: T) -> Mutex<T>;

/// The current default filter, shared between the threads that read and replace it.
pub type SharedFilterFrame = Arc<Mutex<FilterFrame>>;

/// A fresh shared cell holding the default filter.
pub fn default_shared_filterframe() -> SharedFilterFrame {
    Arc::new(Mutex::new(FilterFrame::default()))
}

/// A producer's answer to a filter it was sent.
#[derive(Debug, Clone)]
pub struct FilterAck {
    pub kind: String,
    pub success: bool,
    /// An optional description of what went wrong.
    pub reason: Option<String>,
}

/// The `kind` that marks a record as a filter acknowledgement.
pub open spec fn filter_ack_kind() -> Seq<char> {
    "FilterAck"@
}

impl Default for FilterAck {
    fn default() -> (r: FilterAck)
        ensures
            r.kind@ == filter_ack_kind(),
            r.success,
            r.reason is None,
    {
        FilterAck { kind: String::from_str("FilterAck"), success: true, reason: None }
    }
}

impl FilterAck {
    /// Whether this record carries the filter acknowledgement kind.
    pub fn is_filter_ack(&self) -> (r: bool)
        ensures
            r == (self.kind@ == filter_ack_kind()),
    {
        let expected = String::from_str("FilterAck");
        self.kind == expected
    }
}

/// One telemetry event. `Name` is mandatory and `DT` is filled in on
/// validation; every other field is optional.
#[derive(Debug, Clone)]
#[allow(non_snake_case)]
pub struct ClientPayload {
    /// The event name.
    pub name: String,
    /// When the data was collected; filled in on validation when absent
    pub DT: Option<String>,
    /// IMEI of the device
    pub DI1: Option<String>,
    /// IMSI of the SIM used
    pub DI2: Option<String>,
    /// MSISDN of the device
    pub DI3: Option<String>,
    /// Phone model reporting the data set
    pub DI4: Option<String>,
    /// SW version used in the device
    pub DI5: Option<String>,
    /// MCC/MNC
    pub LI1: Option<u32>,
    /// Tracking Area Code as seen by the device
    pub LI2: Option<u32>,
    /// Global Cell identifier
    pub LI3: Option<u32>,
    /// Physical cell identifier
    pub LI4: Option<u16>,
    /// Latitude (the bits of a 64-bit float)
    pub LI5: Option<u64>,
    /// Longitude (the bits of a 64-bit float)
    pub LI6: Option<u64>,
    /// Indicates GPS collected or not
    pub LI7: Option<bool>,
    /// Indicates the accuracy of GPS coordinates (the bits of a 64-bit float)
    pub LI8: Option<u64>,
    /// Battery Level of the device
    pub SI1: Option<u8>,
    /// CPU Usage in percentage
    pub SI2: Option<u8>,
    /// Memory usage in percentage
    pub SI3: Option<u8>,
    /// Device Temperature
    pub TI1: Option<i32>,
    /// Battery Temperature
    pub TI2: Option<i32>,
    /// RSRP as reported by the device. Represents -140 dBm to -43dBm
    pub RI1: Option<u8>,
    /// RSRQ as reported by the device. Represents -3dB to  -20dB
    pub RI2: Option<u8>,
    /// Signal to Interference plus Noise Ratio in dB
    pub RI3: Option<i8>,
    /// Channel Quality Indicator as derived by the device
    pub RI4: Option<u8>,
    /// Rank indicator when MIMO used
    pub RI5: Option<u8>,
    /// Current band used by the device
    pub RI6: Option<u8>,
    /// Frequency used by the device
    pub RI7: Option<u16>,
    /// Indicates if the device is out of service or in-service
    pub RI8: Option<bool>,
    /// Indicates the cause to initiate RRC Connection
    pub RI9: Option<String>,
    /// Indicates the cause of the RRC connection release.
    pub RI10: Option<u16>,
    /// Maximum power used for the latest RACH transmission
    pub RI11: Option<i8>,
    /// Residual BLER at the physical layer
    pub RI12: Option<u8>,
    /// Current timing advance used by the device to communicate with the eNB.
    pub RI13: Option<u16>,
    /// Transmit power of the device at the time of reading
    pub RI14: Option<i8>,
    /// Neighbour cell information
    pub RI15: Option<Vec<(u32, u32, u32)>>,
    /// Indicates if the device is in a roaming area or not
    pub NI1: Option<bool>,
    /// Indicates the attach failure causes
    pub NI2: Option<u8>,
    /// Indicates the TAC update failure causes
    pub NI3: Option<u8>,
    /// EPS bearer details.
    pub NI4: Option<String>,
    /// Received signal time differences between the serving cell and three neighbours (the bits of three 64-bit floats)
    pub OI1: Option<[u64; 3]>,
    /// The current status of SIP registration
    pub VI1: Option<String>,
    /// The reason for terminating the SIP session
    pub VI2: Option<u8>,
    /// This will contain muting events
    pub VI3: Option<String>,
    /// RTP Packet Loss percentage
    pub VI4: Option<u8>,
    /// Number of packets lost due to jitter loss
    pub VI5: Option<u64>,
    /// The number of received data bytes.
    pub HI1: Option<u64>,
    /// The number of transmitted data bytes.
    pub HI2: Option<u64>,
    /// Call trigger
    pub NE1: Option<String>,
    /// Call attempt failure
    pub NE2: Option<String>,
    /// Call established
    pub NE3: Option<String>,
    /// Call disconnect
    pub NE4: Option<String>,
    /// Call drop
    pub NE5: Option<String>,
    /// Call Muting
    pub NE6: Option<String>,
    /// SMS Sent
    pub NE7: Option<String>,
    /// SMS received
    pub NE8: Option<String>,
    /// VoLTE registration event
    pub NE9: Option<String>,
    /// VoLTE connection lost
    pub NE10: Option<String>,
    /// Autonomous data collector event
    pub NE11: Option<String>,
    /// Out of service
    pub NE12: Option<String>,
    /// In service
    pub NE13: Option<String>,
    /// ATTACH failure
    pub NE14: Option<String>,
    /// TAC update
    pub NE15: Option<String>,
    /// (RSRP<-110 dBm)
    pub NE16: Option<String>,
    /// RRC Connection Release
    pub NE17: Option<String>,
    /// RRC Connection failure
    pub NE18: Option<String>,
    /// Radio Link Failure
    pub NE19: Option<String>,
    /// Intra frequency handover
    pub NE20: Option<String>,
    /// Inter frequency handover
    pub NE21: Option<String>,
    /// Inter band handover
    pub NE22: Option<String>,
    /// Cell reselection
    pub NE23: Option<String>,
    /// RACH failure
    pub NE24: Option<String>,
    /// Data pause or recoverable data stall
    pub NE25: Option<String>,
    /// Non-recoverable data stall
    pub NE26: Option<String>,
    /// Number of outgoing calls
    pub NC1: Option<u32>,
    /// Number of incoming calls
    pub NC2: Option<u32>,
    /// Number of call attempt failures
    pub NC3: Option<u32>,
    /// Number of call drops
    pub NC4: Option<u32>,
    /// Number of data sessions
    pub NC5: Option<u32>,
    /// Number of data session attempts failed
    pub NC6: Option<u32>,
    /// Number of ATTACHs
    pub NC7: Option<u32>,
    /// Number of ATTACH failures
    pub NC8: Option<u32>,
    /// Number of DETACHs
    pub NC9: Option<u32>,
}

/// Whether the payload's name is empty and every other field absent.
pub open spec fn is_blank(p: ClientPayload) -> bool {
    p.name@.len() == 0 && no_fields(p)
}

/// Whether every field of the payload but its name is absent.
pub open spec fn no_fields(p: ClientPayload) -> bool {
    &&& p.DT is None
    &&& p.DI1 is None
    &&& p.DI2 is None
    &&& p.DI3 is None
    &&& p.DI4 is None
    &&& p.DI5 is None
    &&& p.LI1 is None
    &&& p.LI2 is None
    &&& p.LI3 is None
    &&& p.LI4 is None
    &&& p.LI5 is None
    &&& p.LI6 is None
    &&& p.LI7 is None
    &&& p.LI8 is None
    &&& p.SI1 is None
    &&& p.SI2 is None
    &&& p.SI3 is None
    &&& p.TI1 is None
    &&& p.TI2 is None
    &&& p.RI1 is None
    &&& p.RI2 is None
    &&& p.RI3 is None
    &&& p.RI4 is None
    &&& p.RI5 is None
    &&& p.RI6 is None
    &&& p.RI7 is None
    &&& p.RI8 is None
    &&& p.RI9 is None
    &&& p.RI10 is None
    &&& p.RI11 is None
    &&& p.RI12 is None
    &&& p.RI13 is None
    &&& p.RI14 is None
    &&& p.RI15 is None
    &&& p.NI1 is None
    &&& p.NI2 is None
    &&& p.NI3 is None
    &&& p.NI4 is None
    &&& p.OI1 is None
    &&& p.VI1 is None
    &&& p.VI2 is None
    &&& p.VI3 is None
    &&& p.VI4 is None
    &&& p.VI5 is None
    &&& p.HI1 is None
    &&& p.HI2 is None
    &&& p.NE1 is None
    &&& p.NE2 is None
    &&& p.NE3 is None
    &&& p.NE4 is None
    &&& p.NE5 is None
    &&& p.NE6 is None
    &&& p.NE7 is None
    &&& p.NE8 is None
    &&& p.NE9 is None
    &&& p.NE10 is None
    &&& p.NE11 is None
    &&& p.NE12 is None
    &&& p.NE13 is None
    &&& p.NE14 is None
    &&& p.NE15 is None
    &&& p.NE16 is None
    &&& p.NE17 is None
    &&& p.NE18 is None
    &&& p.NE19 is None
    &&& p.NE20 is None
    &&& p.NE21 is None
    &&& p.NE22 is None
    &&& p.NE23 is None
    &&& p.NE24 is None
    &&& p.NE25 is None
    &&& p.NE26 is None
    &&& p.NC1 is None
    &&& p.NC2 is None
    &&& p.NC3 is None
    &&& p.NC4 is None
    &&& p.NC5 is None
    &&& p.NC6 is None
    &&& p.NC7 is None
    &&& p.NC8 is None
    &&& p.NC9 is None
}

impl Default for ClientPayload {
    fn default() -> (r: ClientPayload)
        ensures
            is_blank(r),
    {
        ClientPayload {
            name: String::new(),
            DT: None,
            DI1: None,
            DI2: None,
            DI3: None,
            DI4: None,
            DI5: None,
            LI1: None,
            LI2: None,
            LI3: None,
            LI4: None,
            LI5: None,
            LI6: None,
            LI7: None,
            LI8: None,
            SI1: None,
            SI2: None,
            SI3: None,
            TI1: None,
            TI2: None,
            RI1: None,
            RI2: None,
            RI3: None,
            RI4: None,
            RI5: None,
            RI6: None,
            RI7: None,
            RI8: None,
            RI9: None,
            RI10: None,
            RI11: None,
            RI12: None,
            RI13: None,
            RI14: None,
            RI15: None,
            NI1: None,
            NI2: None,
            NI3: None,
            NI4: None,
            OI1: None,
            VI1: None,
            VI2: None,
            VI3: None,
            VI4: None,
            VI5: None,
            HI1: None,
            HI2: None,
            NE1: None,
            NE2: None,
            NE3: None,
            NE4: None,
            NE5: None,
            NE6: None,
            NE7: None,
            NE8: None,
            NE9: None,
            NE10: None,
            NE11: None,
            NE12: None,
            NE13: None,
            NE14: None,
            NE15: None,
            NE16: None,
            NE17: None,
            NE18: None,
            NE19: None,
            NE20: None,
            NE21: None,
            NE22: None,
            NE23: None,
            NE24: None,
            NE25: None,
            NE26: None,
            NC1: None,
            NC2: None,
            NC3: None,
            NC4: None,
            NC5: None,
            NC6: None,
            NC7: None,
            NC8: None,
            NC9: None,
        }
    }
}

/// Why a payload was refused.
#[derive(Debug, Clone, Copy, PartialEq, Eq, Structural)]
pub enum PayloadError {
    /// `RI6` holds a band outside {0, 3, 5, 40}.
    InvalidRI6(u8),
    /// `Name` is empty.
    EmptyName,
}

/// The band values that `RI6` may hold; 0 stands for a band not known yet.
pub open spec fn ri6_allowed(v: u8) -> bool {
    v == 0 || v == 3 || v == 5 || v == 40
}

/// The error that validating `p` gives, if any. The band is checked first.
pub open spec fn validation_error(p: ClientPayload) -> Option<PayloadError> {
    match p.RI6 {
        Some(v) if !ri6_allowed(v) => Some(PayloadError::InvalidRI6(v)),
        _ => if p.name@.len() == 0 {
            Some(PayloadError::EmptyName)
        } else {
            None
        },
    }
}

/// Whether `q` is `p` with its collection time filled in: kept when present,
/// else set to `now`.
pub open spec fn dt_filled(p: ClientPayload, q: ClientPayload, now: Seq<char>) -> bool {
    match p.DT {
        Some(_) => q == p,
        None => {
            &&& q.DT matches Some(d) && d@ == now
            &&& q == (ClientPayload { DT: q.DT, ..p })
        },
    }
}

/// The name of an error kind, as sent back to producers.
pub open spec fn error_kind_name(e: PayloadError) -> Seq<char> {
    match e {
        PayloadError::InvalidRI6(_) => "InvalidRI6"@,
        PayloadError::EmptyName => "EmptyName"@,
    }
}

impl PayloadError {
    pub fn kind_name(&self) -> (r: String)
        ensures
            r@ == error_kind_name(*self),
    {
        match self {
            PayloadError::InvalidRI6(_) => String::from_str("InvalidRI6"),
            PayloadError::EmptyName => String::from_str("EmptyName"),
        }
    }
}

/// Relies on chrono's Utc::now and Timelike::with_nanosecond: the current
/// UTC time with its sub-second part cleared, in chrono's `Debug` form.
/// Setting the nanoseconds to zero always succeeds on a current time.
#[verifier::external_body]
pub(crate) fn utc_now_text() -> String {
    format!("{:?}", chrono::Utc::now().with_nanosecond(0).unwrap())
}

impl ClientPayload {
    /// Validates the payload, filling a missing `DT` with `now`.
    pub fn validate_at(self, now: &str) -> (r: Result<ClientPayload, PayloadError>)
        ensures
            match validation_error(self) {
                Some(e) => r == Err::<ClientPayload, PayloadError>(e),
                None => r matches Ok(q) && dt_filled(self, q, now@),
            },
    {
        let mut p = self;
        if let Some(ri6) = p.RI6 {
            if ri6 != 0 && ri6 != 3 && ri6 != 5 && ri6 != 40 {
                return Err(PayloadError::InvalidRI6(ri6));
            }
        }
        if p.name.as_str().unicode_len() == 0 {
            return Err(PayloadError::EmptyName);
        }
        if p.DT.is_none() {
            p.DT = Some(String::from_str(now));
        }
        Ok(p)
    }

    /// Validates the payload, filling a missing `DT` with the current UTC
    /// time in whole seconds.
    pub fn validate(self) -> (r: Result<ClientPayload, PayloadError>)
        ensures
            match validation_error(self) {
                Some(e) => r == Err::<ClientPayload, PayloadError>(e),
                None => r matches Ok(q) && exists|now: Seq<char>| dt_filled(self, q, now),
            },
    {
        let now = utc_now_text();
        let r = self.validate_at(now.as_str());
        assert(r is Ok ==> dt_filled(self, r->Ok_0, now@));
        r
    }

    /// A payload named `NE9` whose band is not an allowed one.
    pub fn bad_ri6() -> (r: ClientPayload)
        ensures
            r.name@ == "NE9"@,
            r.RI6 == Some(1u8),
            no_fields(ClientPayload { RI6: None, ..r }),
    {
        let mut payload = ClientPayload::default();
        payload.RI6 = Some(1);
        payload.name = String::from_str("NE9");
        payload
    }

    /// A radio event named `NE10` in an allowed band, with a RACH power of 16.
    pub fn test_ri12() -> (r: ClientPayload)
        ensures
            r.name@ == "NE10"@,
            r.DT is None,
            r.RI6 == Some(3u8),
            r.RI11 == Some(16i8),
    {
        let mut payload = ClientPayload::default();
        payload.name = String::from_str("NE10");
        payload.RI1 = Some(52);
        payload.RI2 = Some(13);
        payload.RI3 = Some(18);
        payload.RI6 = Some(3);
        payload.RI7 = Some(0);
        payload.RI8 = Some(true);
        payload.RI9 = Some(String::from_str("LTE_RRC_EST_CAUSE_MO_DATA"));
        payload.RI11 = Some(16);
        payload.RI13 = Some(0);
        payload.VI2 = Some(31);
        payload.RI4 = Some(12);
        payload.RI5 = Some(0);
        payload.NI1 = Some(true);
        payload.NI2 = Some(3);
        payload.VI1 = Some(String::from_str("NOT REGISTER"));
        payload
    }
}

/// A payload with a name, no collection time and no refused band passes
/// validation and comes out with `now` as its collection time and its name
/// unchanged.
pub proof fn lemma_dt_defaulted(p: ClientPayload, q: ClientPayload, now: Seq<char>)
    requires
        p.name@.len() > 0,
        p.DT is None,
        p.RI6 matches Some(v) ==> ri6_allowed(v),
        dt_filled(p, q, now),
    ensures
        validation_error(p) is None,
        q.DT matches Some(d) && d@ == now,
        q.name == p.name,
{
}

/// A band in {0, 3, 5, 40} never makes validation fail; any other band
/// makes it fail with `InvalidRI6` carrying that band.
pub proof fn lemma_band_rule(p: ClientPayload)
    ensures
        match p.RI6 {
            Some(v) => {
                &&& !ri6_allowed(v) ==> validation_error(p) == Some(PayloadError::InvalidRI6(v))
                &&& ri6_allowed(v) && p.name@.len() > 0 ==> validation_error(p) is None
            },
            None => p.name@.len() > 0 ==> validation_error(p) is None,
        },
{
}

/// A payload with an empty name fails validation with `EmptyName`, unless
/// its band is refused first.
pub proof fn lemma_name_mandatory(p: ClientPayload)
    requires
        p.name@.len() == 0,
        p.RI6 matches Some(v) ==> ri6_allowed(v),
    ensures
        validation_error(p) == Some(PayloadError::EmptyName),
{
}

/// One message of a producer: its sequence number, when it was taken,
/// and the event.
#[derive(Debug, Clone)]
pub struct ClientMessage {
    pub timestamp: u64,
    pub seq_number: u64,
    pub payload: ClientPayload,
}

} // verus!
