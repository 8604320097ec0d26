//! The persisted throttle limiter: a counter and timestamp per notification
//! target, stored as the text `"{epochSeconds}|{count}"`, bounding how many
//! notifications may be sent per window.
//!
//! Everything here is pure: the caller hands in the stored record text (or
//! its absence) and receives the decision together with the text to persist,
//! so the decision logic is verified for every file state.
use vstd::prelude::*;

use crate::chars::{
    all_dec_digits, copy_range, dec_str, dec_val, fmt_u64, is_dec_digit, lemma_dec_str_digits,
    lemma_dec_str_val, lemma_split_two, parse_u64, push_all, split_at_char, split_char_vec,
    views_of,
};
use crate::strings::{chars_of_str, string_from_chars};

verus! {

/// How many notifications a window admits when nothing is configured.
pub const DEFAULT_MAX_PER_WINDOW: u64 = 3;

/// The window length in seconds when nothing is configured.
pub const DEFAULT_WINDOW_SECONDS: u64 = 300;

/// One persisted throttle record: when the window opened, and how many
/// notifications have been sent inside it.
#[derive(PartialEq, Eq, Structural, Clone, Copy, Debug)]
pub struct ThrottleRecord {
    pub last_sent: i64,
    pub count: u64,
}

/// `s` is a decimal integer with optional leading minus that fits an `i64`.
pub open spec fn i64_str_wf(s: Seq<char>) -> bool {
    if s.len() > 0 && s[0] == '-' {
        let d = s.skip(1);
        d.len() > 0 && all_dec_digits(d) && dec_val(d) <= 0x8000000000000000
    } else {
        s.len() > 0 && all_dec_digits(s) && dec_val(s) <= i64::MAX
    }
}

/// The value such a string denotes.
pub open spec fn i64_str_val(s: Seq<char>) -> int {
    if s.len() > 0 && s[0] == '-' {
        -(dec_val(s.skip(1)) as int)
    } else {
        dec_val(s) as int
    }
}

/// Parses a decimal integer with optional leading minus.
pub fn parse_i64(s: &Vec<char>) -> (r: Option<i64>)
    ensures
        r is Some <==> i64_str_wf(s@),
        r matches Some(v) ==> v == i64_str_val(s@),
{
    if s.len() == 0 {
        return None;
    }
    if s[0] == '-' {
        let digits = copy_range(s, 1, s.len());
        proof {
            assert(digits@ =~= s@.skip(1));
        }
        match parse_u64(&digits) {
            Some(v) => {
                if v <= 0x8000000000000000 {
                    if v == 0x8000000000000000 {
                        Some(i64::MIN)
                    } else {
                        Some(-(v as i64))
                    }
                } else {
                    None
                }
            },
            None => {
                proof {
                    if dec_val(s@.skip(1)) <= 0x8000000000000000 {
                        assert(dec_val(s@.skip(1)) <= u64::MAX);
                    }
                }
                None
            },
        }
    } else {
        match parse_u64(s) {
            Some(v) => {
                if v <= i64::MAX as u64 {
                    Some(v as i64)
                } else {
                    None
                }
            },
            None => {
                proof {
                    if dec_val(s@) <= i64::MAX {
                        assert(dec_val(s@) <= u64::MAX);
                    }
                }
                None
            },
        }
    }
}

/// The stored text is a well-formed record: exactly two `|`-separated
/// fields, a timestamp and a count, each a parseable integer.
pub open spec fn record_wf(s: Seq<char>) -> bool {
    let parts = split_at_char(s, '|');
    parts.len() == 2 && i64_str_wf(parts[0]) && parts[1].len() > 0 && all_dec_digits(parts[1])
        && dec_val(parts[1]) <= u64::MAX
}

/// The record a well-formed stored text denotes.
pub open spec fn record_of(s: Seq<char>) -> ThrottleRecord {
    let parts = split_at_char(s, '|');
    ThrottleRecord {
        last_sent: i64_str_val(parts[0]) as i64,
        count: dec_val(parts[1]) as u64,
    }
}

/// Parses a stored record text; `None` exactly on malformed text.
pub fn parse_record(contents: &str) -> (r: Option<ThrottleRecord>)
    ensures
        r is Some <==> record_wf(contents@),
        r matches Some(rec) ==> rec == record_of(contents@),
{
    let cv = chars_of_str(contents);
    let parts = split_char_vec(&cv, '|');
    proof {
        assert(views_of(parts@).len() == parts@.len());
    }
    if parts.len() != 2 {
        return None;
    }
    proof {
        assert(views_of(parts@)[0] == parts@[0]@);
        assert(views_of(parts@)[1] == parts@[1]@);
    }
    let last_sent = match parse_i64(&parts[0]) {
        Some(v) => v,
        None => return None,
    };
    let count = match parse_u64(&parts[1]) {
        Some(v) => v,
        None => return None,
    };
    Some(ThrottleRecord { last_sent, count })
}

/// The throttle's decision: whether to permit, and the record to persist when
/// it does.  No record exists: permit and open a window of one.  The burst
/// quota is not yet used up: permit and raise the count, leaving the window
/// clock alone.  The quota is used up but the window has expired: permit
/// and open a fresh window of one.  Otherwise: deny, and persist nothing.
pub open spec fn spec_try_acquire(
    record: Option<ThrottleRecord>,
    now: i64,
    max_per_window: u64,
    window_seconds: u64,
) -> (bool, Option<ThrottleRecord>) {
    match record {
        None => (true, Some(ThrottleRecord { last_sent: now, count: 1 })),
        Some(rec) => {
            if rec.count < max_per_window {
                (
                    true,
                    Some(ThrottleRecord { last_sent: rec.last_sent, count: (rec.count + 1) as u64 }),
                )
            } else if now > rec.last_sent + window_seconds {
                (true, Some(ThrottleRecord { last_sent: now, count: 1 }))
            } else {
                (false, None)
            }
        },
    }
}

/// One throttle decision over an already-parsed record.
pub fn try_acquire(
    record: Option<ThrottleRecord>,
    now: i64,
    max_per_window: u64,
    window_seconds: u64,
) -> (r: (bool, Option<ThrottleRecord>))
    ensures
        r == spec_try_acquire(record, now, max_per_window, window_seconds),
{
    match record {
        None => (true, Some(ThrottleRecord { last_sent: now, count: 1 })),
        Some(rec) => {
            if rec.count < max_per_window {
                (true, Some(ThrottleRecord { last_sent: rec.last_sent, count: rec.count + 1 }))
            } else if (now as i128) > (rec.last_sent as i128) + (window_seconds as i128) {
                (true, Some(ThrottleRecord { last_sent: now, count: 1 }))
            } else {
                (false, None)
            }
        },
    }
}

/// The rendering of a signed timestamp.
pub open spec fn i64_dec_str(v: int) -> Seq<char> {
    if v < 0 {
        seq!['-'] + dec_str((-v) as nat)
    } else {
        dec_str(v as nat)
    }
}

/// The stored text for a record: `"{epochSeconds}|{count}"`.
pub open spec fn record_str(rec: ThrottleRecord) -> Seq<char> {
    i64_dec_str(rec.last_sent as int) + seq!['|'] + dec_str(rec.count as nat)
}

/// Renders a signed timestamp.
pub fn fmt_i64(v: i64) -> (r: Vec<char>)
    ensures
        r@ == i64_dec_str(v as int),
{
    if v >= 0 {
        fmt_u64(v as u64)
    } else {
        let mag: u64 = (-(v as i128)) as u64;
        let digits = fmt_u64(mag);
        let mut r: Vec<char> = vec!['-'];
        push_all(&mut r, &digits);
        proof {
            assert(r@ =~= seq!['-'] + dec_str(mag as nat));
        }
        r
    }
}

/// Renders a record in its stored form.
pub fn render_record(rec: &ThrottleRecord) -> (r: String)
    ensures
        r@ == record_str(*rec),
{
    let mut rv = fmt_i64(rec.last_sent);
    rv.push('|');
    let cv = fmt_u64(rec.count);
    push_all(&mut rv, &cv);
    proof {
        assert(rv@ =~= record_str(*rec));
    }
    string_from_chars(&rv)
}

/// The throttle's decision from the raw stored text (or its absence) to the
/// text to persist.  Malformed text counts as no record at all — the throttle
/// favours notifying over going dark on a corrupt file — so the decision is
/// to permit and overwrite with a fresh window of one.
pub open spec fn spec_try_acquire_text(
    contents: Option<Seq<char>>,
    now: i64,
    max_per_window: u64,
    window_seconds: u64,
) -> (bool, Option<ThrottleRecord>) {
    let record = match contents {
        None => None,
        Some(s) => if record_wf(s) {
            Some(record_of(s))
        } else {
            None
        },
    };
    spec_try_acquire(record, now, max_per_window, window_seconds)
}

/// `r` is the correct outcome of a throttle check at time `now` over the given
/// stored text: the decision agrees with `spec_try_acquire_text`, and the
/// text to persist is present exactly when the throttle permits and renders the
/// record the specification asks to store.
pub open spec fn throttle_result_matches(
    contents: Option<Seq<char>>,
    now: i64,
    max_per_window: u64,
    window_seconds: u64,
    r: (bool, Option<String>),
) -> bool {
    let spec_r = spec_try_acquire_text(contents, now, max_per_window, window_seconds);
    r.0 == spec_r.0 && (r.1 is Some <==> spec_r.1 is Some) && (r.1 matches Some(s) ==> spec_r.1
        matches Some(rec) && s@ == record_str(rec))
}

/// The view of an optional stored text.
pub open spec fn contents_view(contents: Option<&String>) -> Option<Seq<char>> {
    match contents {
        None => None,
        Some(s) => Some(s@),
    }
}

/// One full throttle check, from stored text to decision and new text.  The
/// second component is the record text to persist (overwriting the old
/// one); it is present exactly when the throttle permits.
pub fn try_acquire_text(
    contents: Option<&String>,
    now: i64,
    max_per_window: u64,
    window_seconds: u64,
) -> (r: (bool, Option<String>))
    ensures
        throttle_result_matches(contents_view(contents), now, max_per_window, window_seconds, r),
{
    let record = match contents {
        None => None,
        Some(s) => parse_record(s.as_str()),
    };
    let (granted, to_store) = try_acquire(record, now, max_per_window, window_seconds);
    match to_store {
        Some(rec) => (granted, Some(render_record(&rec))),
        None => (granted, None),
    }
}

/// Law (window invariant): while the stored window clock stands still the
/// count only grows, by exactly one per permitted run; and it resets to
/// exactly one precisely when the clock moves — which the throttle allows
/// only once the old window has expired.
pub proof fn lemma_count_monotone_within_window(
    rec: ThrottleRecord,
    now: i64,
    max_per_window: u64,
    window_seconds: u64,
)
    ensures
        ({
            let r = spec_try_acquire(Some(rec), now, max_per_window, window_seconds);
            r.1 matches Some(n) ==> (n.last_sent == rec.last_sent && n.count == rec.count + 1
                && rec.count < max_per_window) || (n.count == 1 && n.last_sent == now && now
                > rec.last_sent + window_seconds)
        }),
{
}

/// Law (round trip): the text the throttle persists is always a
/// well-formed record, and it reads back as exactly the record that was
/// stored — so a corrupt file, once overwritten, is valid again.
pub proof fn lemma_record_round_trip(rec: ThrottleRecord)
    ensures
        record_wf(record_str(rec)),
        record_of(record_str(rec)) == rec,
{
    let ts = i64_dec_str(rec.last_sent as int);
    let cs = dec_str(rec.count as nat);
    lemma_dec_str_digits(rec.count as nat);
    lemma_dec_str_val(rec.count as nat);
    assert forall|i: int| 0 <= i < cs.len() implies cs[i] != '|' by {
        assert(is_dec_digit(cs[i]));
    }
    if rec.last_sent >= 0 {
        lemma_dec_str_digits(rec.last_sent as nat);
        lemma_dec_str_val(rec.last_sent as nat);
        assert forall|i: int| 0 <= i < ts.len() implies ts[i] != '|' by {
            assert(is_dec_digit(ts[i]));
        }
        lemma_split_two(ts, '|', cs);
        assert(!is_dec_digit('-'));
        assert(ts[0] != '-');
    } else {
        let m = (-(rec.last_sent as int)) as nat;
        lemma_dec_str_digits(m);
        lemma_dec_str_val(m);
        assert forall|i: int| 0 <= i < ts.len() implies ts[i] != '|' by {
            if i > 0 {
                assert(ts[i] == dec_str(m)[i - 1]);
                assert(is_dec_digit(ts[i]));
            }
        }
        lemma_split_two(ts, '|', cs);
        assert(ts[0] == '-');
        assert(ts.skip(1) =~= dec_str(m));
    }
    let parts = split_at_char(record_str(rec), '|');
    assert(parts == seq![ts, cs]);
    assert(parts[0] == ts && parts[1] == cs);
}

/// The backing file for a target's record: `{dir}last_checked-{domain}`.
pub open spec fn spec_record_file_name(dir: Seq<char>, domain: Seq<char>) -> Seq<char> {
    dir + "last_checked-"@ + domain
}

/// Names the backing file for a target's record inside `dir`.
pub fn record_file_name(dir: &str, domain: &str) -> (r: String)
    ensures
        r@ == spec_record_file_name(dir@, domain@),
{
    let mut r = String::new();
    r.append(dir);
    r.append("last_checked-");
    r.append(domain);
    proof {
        assert(r@ =~= spec_record_file_name(dir@, domain@));
    }
    r
}

/// Relies on chrono's `Utc::now` and `DateTime::timestamp`: the current
/// time as Unix epoch seconds.  The result depends on the clock, so nothing
/// is assumed of its value.
#[verifier::external_body]
fn now_epoch_seconds() -> i64 {
    chrono::Utc::now().timestamp()
}

/// One full throttle check at the current clock time.  Whatever instant the
/// clock reports, the decision and the text to persist are the correct
/// outcome for that instant.
pub fn try_acquire_text_now(
    contents: Option<&String>,
    max_per_window: u64,
    window_seconds: u64,
) -> (r: (bool, Option<String>))
    ensures
        exists|now: i64|
            #[trigger] throttle_result_matches(
                contents_view(contents),
                now,
                max_per_window,
                window_seconds,
                r,
            ),
{
    let now = now_epoch_seconds();
    let r = try_acquire_text(contents, now, max_per_window, window_seconds);
    r
}

} // verus!
