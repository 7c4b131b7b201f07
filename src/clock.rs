//! Wall-clock timestamps for journals and registry entries.
use vstd::prelude::*;

verus! {

/// Relies on `std::time::SystemTime::now`, `SystemTime::duration_since`,
/// `chrono::DateTime::<Utc>::from_timestamp` and `DateTime::format`: the
/// current UTC time written as `YYYY-MM-DD HH:MM:SS`. None of them panics;
/// a clock set before 1970, or beyond the range chrono represents, gives
/// the empty string. Nothing is promised of the value, which depends on the
/// clock.
#[verifier::external_body]
pub fn now_timestamp() -> (r: String) {
    let since = std::time::SystemTime::now().duration_since(std::time::UNIX_EPOCH);
    let stamp = match since {
        Ok(d) => chrono::DateTime::<chrono::Utc>::from_timestamp(d.as_secs() as i64, d.subsec_nanos()),
        Err(_) => None,
    };
    match stamp {
        Some(t) => t.format("%Y-%m-%d %H:%M:%S").to_string(),
        None => String::new(),
    }
}

} // verus!
