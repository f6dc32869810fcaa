//! Telemetry events, and the day under which one is stored.

use crate::text::{chars_of, parse_i64, signed_decimal, str_eq};
use vstd::prelude::*;

verus! {

/// Microseconds in a day.
pub const MICROS_PER_DAY: i64 = 86_400_000_000;

/// One line that a container wrote.
#[derive(Debug, Clone, PartialEq, Eq)]
pub struct ContainerOutputEvent {
    /// Timestamp in microseconds (UTC).
    pub timestamp: i64,
    pub service: String,
    pub container_id: String,
    pub stream: String,
    pub message: String,
    pub sequence: i64,
}

/// The outcome of a traced operation.
#[derive(Debug, Clone, PartialEq, Eq)]
pub struct Status {
    pub message: Option<String>,
    pub code: i32,
}

/// The quotient of `a` by the positive `b`, rounded towards zero.
pub open spec fn div_toward_zero(a: int, b: int) -> int
    recommends
        b > 0,
{
    if a >= 0 {
        a / b
    } else {
        -((-a) / b)
    }
}

/// The day of a timestamp: whole days since the epoch, rounded towards zero.
/// The day of every 64-bit timestamp fits in 32 bits.
pub open spec fn day_of(timestamp: i64) -> int {
    div_toward_zero(timestamp as int, MICROS_PER_DAY as int)
}

/// The day under which an event with this timestamp is stored.
pub fn date_days(timestamp: i64) -> (r: i32)
    ensures
        r == day_of(timestamp),
{
    let days: i64 = timestamp / 86_400_000_000;
    assert(-106_751_992 <= days <= 106_751_992);
    days as i32
}

/// The name of a span kind.
pub open spec fn span_kind_name(kind: i32) -> Seq<char> {
    if kind == 1 {
        "INTERNAL"@
    } else if kind == 2 {
        "SERVER"@
    } else if kind == 3 {
        "CLIENT"@
    } else if kind == 4 {
        "PRODUCER"@
    } else if kind == 5 {
        "CONSUMER"@
    } else {
        "UNSPECIFIED"@
    }
}

/// The name under which the kind of a span is stored.
pub fn span_kind(kind: i32) -> (r: &'static str)
    ensures
        r@ == span_kind_name(kind),
{
    if kind == 1 {
        "INTERNAL"
    } else if kind == 2 {
        "SERVER"
    } else if kind == 3 {
        "CLIENT"
    } else if kind == 4 {
        "PRODUCER"
    } else if kind == 5 {
        "CONSUMER"
    } else {
        "UNSPECIFIED"
    }
}

/// The name of a status code.
pub open spec fn status_code_name(code: i32) -> Seq<char> {
    if code == 0 {
        "UNSET"@
    } else if code == 1 {
        "OK"@
    } else if code == 2 {
        "ERROR"@
    } else {
        "UNKNOWN"@
    }
}

impl Status {
    /// The name under which the status code is stored.
    pub fn code_name(&self) -> (r: &'static str)
        ensures
            r@ == status_code_name(self.code),
    {
        if self.code == 0 {
            "UNSET"
        } else if self.code == 1 {
            "OK"
        } else if self.code == 2 {
            "ERROR"
        } else {
            "UNKNOWN"
        }
    }
}

/// The time in nanoseconds that a text writes: a signed decimal number of 64
/// bits, and 0 for any other text.
pub open spec fn nanos_of(text: Seq<char>) -> int {
    match signed_decimal(text, i64::MIN as int, i64::MAX as int) {
        Some(n) => n,
        None => 0,
    }
}

/// The time in microseconds of a time that is written in nanoseconds,
/// rounded towards zero.
pub fn micros_of_nanos_text(text: &str) -> (r: i64)
    ensures
        r == div_toward_zero(nanos_of(text@), 1000),
{
    let chars = chars_of(text);
    match parse_i64(&chars) {
        Some(n) => n / 1000,
        None => 0,
    }
}

/// The milliseconds from `start_nanos` to `end_nanos`, rounded towards zero.
pub fn duration_ms(start_nanos: i64, end_nanos: i64) -> (r: i64)
    ensures
        r == div_toward_zero(end_nanos - start_nanos, 1_000_000),
{
    let span: i128 = (end_nanos as i128) - (start_nanos as i128);
    let ms: i128 = span / 1_000_000;
    ms as i64
}

/// The name of the service that a resource describes: the text of its last
/// attribute `service.name` that holds a text.
pub open spec fn named_service(attributes: Seq<(String, Option<String>)>) -> Option<Seq<char>>
    decreases attributes.len(),
{
    if attributes.len() == 0 {
        None
    } else {
        match attributes.last().1 {
            Some(text) => if attributes.last().0@ == "service.name"@ {
                Some(text@)
            } else {
                named_service(attributes.drop_last())
            },
            None => named_service(attributes.drop_last()),
        }
    }
}

/// The name of the service that a resource with these attributes, each a key
/// and its text if it holds one, describes; `unknown` where it names none.
pub fn service_name_of(attributes: &Vec<(String, Option<String>)>) -> (r: String)
    ensures
        r@ == match named_service(attributes@) {
            Some(name) => name,
            None => "unknown"@,
        },
{
    let mut i: usize = attributes.len();
    assert(attributes@.subrange(0, i as int) =~= attributes@);
    while i > 0
        invariant
            i <= attributes.len(),
            named_service(attributes@) == named_service(attributes@.subrange(0, i as int)),
        decreases i,
    {
        let ghost part = attributes@.subrange(0, i as int);
        assert(part.last() == attributes@[i - 1]);
        assert(part.drop_last() =~= attributes@.subrange(0, i - 1));
        i -= 1;
        match &attributes[i].1 {
            Some(text) => {
                if str_eq(attributes[i].0.as_str(), "service.name") {
                    return text.clone();
                }
            },
            None => {},
        }
    }
    "unknown".to_owned()
}

/// Whether the buffers are due for a flush: one of them has reached its
/// limit. Logs, spans and container output may hold ten times as many events
/// as deployments and states.
pub open spec fn flush_is_due(
    limit: usize,
    deployments: usize,
    status: usize,
    logs: usize,
    spans: usize,
    output: usize,
) -> bool {
    deployments >= limit || status >= limit || logs >= limit * 10 || spans >= limit * 10 || output
        >= limit * 10
}

/// Whether the buffers are due for a flush.
pub fn should_flush(
    limit: usize,
    deployments: usize,
    status: usize,
    logs: usize,
    spans: usize,
    output: usize,
) -> (r: bool)
    requires
        limit * 10 <= usize::MAX,
    ensures
        r == flush_is_due(limit, deployments, status, logs, spans, output),
{
    let high: usize = limit * 10;
    deployments >= limit || status >= limit || logs >= high || spans >= high || output >= high
}

} // verus!
