//! `gt update` — the decisions behind the self-update and the passive startup notice.
//!
//! `update`/`update --check` query the latest GitHub Release and (for a plain `update`) replace
//! the executable in place; the caller drives `self_update` for that. The passive notice is a
//! throttled (~once/day) check that prints a one-line hint to stderr and never downloads: it
//! is throttled through a cache stamp holding the time of the last check, in epoch seconds.
//!
//! This module decides when a check is due, where the stamp lives and what it holds, whether a
//! release is newer, and what each outcome reports.

use vstd::prelude::*;

use crate::config::set_nonempty;
use crate::project_config::{path_join, path_join_chars};
use crate::text::{
    all_digits, chars_of, decimal, decimal_chars, digit_char, digits_value, is_white, parse_u64,
    push_str, spec_parse_u64, string_from_chars, trim, trim_chars, trim_end, trim_start,
};

verus! {

/// The GitHub owner of the release repository.
pub const REPO_OWNER: &'static str = "gt-core-labs";

/// The GitHub repository the releases are published in.
pub const REPO_NAME: &'static str = "gt";

/// The binary inside each release archive.
pub const BIN_NAME: &'static str = "gt";

/// Minimum seconds between passive checks (~1/day).
pub const CHECK_INTERVAL_SECS: u64 = 86_400;

/// The stamp file, relative to the cache directory.
pub const STAMP_FILE: &'static str = "gt/last-update-check";

/// `$XDG_CACHE_HOME/gt/last-update-check` when `XDG_CACHE_HOME` is set and non-empty, else
/// `$HOME/.cache/gt/last-update-check`; `None` when neither is available.
pub fn stamp_path(xdg_cache_home: Option<&str>, home: Option<&str>) -> (r: Option<String>)
    ensures
        set_nonempty(xdg_cache_home) ==> (r matches Some(p) && p@ == path_join(
            xdg_cache_home->0@,
            STAMP_FILE@,
        )),
        !set_nonempty(xdg_cache_home) && home is Some ==> (r matches Some(p) && p@ == path_join(
            path_join(home->0@, ".cache"@),
            STAMP_FILE@,
        )),
        !set_nonempty(xdg_cache_home) && home is None ==> r is None,
{
    let f = chars_of(STAMP_FILE);
    if let Some(x) = xdg_cache_home {
        if !x.is_empty() {
            return Some(string_from_chars(path_join_chars(&chars_of(x), &f).as_slice()));
        }
    }
    match home {
        Some(h) => {
            let base = path_join_chars(&chars_of(h), &chars_of(".cache"));
            Some(string_from_chars(path_join_chars(&base, &f).as_slice()))
        },
        None => None,
    }
}

/// The time of the last check that the stamp records: its trimmed text parsed as epoch
/// seconds, or `0` when there is no stamp or it does not parse.
pub open spec fn last_check(stamp: Option<Seq<char>>) -> nat {
    match stamp {
        Some(s) => match spec_parse_u64(trim(s)) {
            Some(v) => v as nat,
            None => 0,
        },
        None => 0,
    }
}

/// The view of an optional string.
pub open spec fn opt_chars(o: Option<&str>) -> Option<Seq<char>> {
    match o {
        Some(s) => Some(s@),
        None => None,
    }
}

/// A passive check is due unless the user opted out or there is nowhere to keep the stamp,
/// and when at least [`CHECK_INTERVAL_SECS`] passed since the last one.
pub open spec fn spec_due(opt_out: bool, has_stamp_path: bool, stamp: Option<Seq<char>>, now: u64) -> bool {
    !opt_out && has_stamp_path && now >= last_check(stamp) + CHECK_INTERVAL_SECS
}

/// Whether the passive check is due. `opt_out` is `GT_NO_UPDATE_CHECK` being set;
/// `has_stamp_path` whether [`stamp_path`] found a place for the stamp; `stamp` the stamp
/// file's text when it could be read; `now` the current epoch seconds.
pub fn due(opt_out: bool, has_stamp_path: bool, stamp: Option<&str>, now: u64) -> (b: bool)
    ensures
        b == spec_due(opt_out, has_stamp_path, opt_chars(stamp), now),
        opt_out ==> !b,
        !has_stamp_path ==> !b,
        !opt_out && has_stamp_path && stamp is None ==> (b <==> now >= CHECK_INTERVAL_SECS),
        !opt_out && has_stamp_path && stamp is Some && spec_parse_u64(trim(stamp->0@)) is Some
            ==> (b <==> now >= spec_parse_u64(trim(stamp->0@))->0 + CHECK_INTERVAL_SECS),
        !opt_out && has_stamp_path && stamp is Some && spec_parse_u64(trim(stamp->0@)) is None
            ==> (b <==> now >= CHECK_INTERVAL_SECS),
{
    if opt_out || !has_stamp_path {
        return false;
    }
    let last: u64 = match stamp {
        Some(s) => {
            let t = string_from_chars(trim_chars(&chars_of(s)).as_slice());
            match parse_u64(t.as_str()) {
                Some(v) => v,
                None => 0,
            }
        },
        None => 0,
    };
    now.saturating_sub(last) >= CHECK_INTERVAL_SECS
}

/// What the stamp holds after a check at `now`: its decimal epoch seconds.
pub fn stamp_contents(now: u64) -> (r: String)
    ensures
        r@ == decimal(now as nat),
{
    string_from_chars(decimal_chars(now).as_slice())
}

/// The decimal form of `n` is a non-empty run of digits whose value is `n`.
pub proof fn lemma_decimal_digits(n: nat)
    ensures
        decimal(n).len() > 0,
        all_digits(decimal(n)),
        digits_value(decimal(n)) == n,
    decreases n,
{
    if n >= 10 {
        lemma_decimal_digits(n / 10);
        let d = decimal(n);
        assert(d.drop_last() =~= decimal(n / 10));
        assert(d.last() == digit_char(n % 10));
        assert(forall|i: int| 0 <= i < d.len() - 1 ==> d[i] == decimal(n / 10)[i]);
        assert(n == (n / 10) * 10 + n % 10);
        assert((d.last() as nat) == 48 + n % 10);
        assert(digits_value(d) == digits_value(d.drop_last()) * 10 + (n % 10));
        assert(digits_value(d.drop_last()) == n / 10);
        assert(digits_value(d) == n);
    } else {
        let d = decimal(n);
        assert((d.last() as nat) == 48 + n);
        assert(d.drop_last() =~= Seq::<char>::empty());
        assert(digits_value(d.drop_last()) == 0);
        assert(digits_value(d) == n);
    }
}

/// A stamp written at `now` reads back as `now`.
pub proof fn lemma_stamp_reads_back(now: u64)
    ensures
        last_check(Some(decimal(now as nat))) == now,
{
    let d = decimal(now as nat);
    lemma_decimal_digits(now as nat);
    assert(!is_white(d.last()));
    assert(trim_end(d) == d);
    assert(!is_white(d[0]));
    assert(trim_start(d) == d);
    assert(d[0] != '+');
}

/// After a check stamped at `stamped`, the next one is due exactly when the interval has
/// passed (for a user who has not opted out and has a stamp path).
pub proof fn lemma_stamp_throttles(stamped: u64, now: u64)
    ensures
        spec_due(false, true, Some(decimal(stamped as nat)), now) <==> now >= stamped
            + CHECK_INTERVAL_SECS,
{
    lemma_stamp_reads_back(stamped);
}

/// Whether `other` is a greater semantic version than `current`: `None` when either does not
/// parse as one.
pub uninterp spec fn semver_bump_greater(current: Seq<char>, other: Seq<char>) -> Option<bool>;

/// `self_update::version::bump_is_greater`: parses both as semantic versions and compares
/// them; the error (a version that does not parse) becomes `None`. A version is never greater
/// than itself.
#[verifier::external_body]
fn bump_is_greater(current: &str, other: &str) -> (r: Option<bool>)
    ensures
        r == semver_bump_greater(current@, other@),
        current@ == other@ ==> r != Some(true),
{
    self_update::version::bump_is_greater(current, other).ok()
}

/// `latest` counts as newer than `current` only when both parse and it is greater.
pub open spec fn spec_is_newer(current: Seq<char>, latest: Seq<char>) -> bool {
    semver_bump_greater(current, latest) == Some(true)
}

/// Whether `latest` is a newer release than `current`.
pub fn is_newer(current: &str, latest: &str) -> (b: bool)
    ensures
        b == spec_is_newer(current@, latest@),
        current@ == latest@ ==> !b,
{
    match bump_is_greater(current, latest) {
        Some(g) => g,
        None => false,
    }
}

/// The passive notice for a release `latest` that is (`newer`) or is not newer than `current`.
pub fn notice_for(current: &str, latest: &str, newer: bool) -> (r: Option<String>)
    ensures
        !newer ==> r is None,
        newer ==> (r matches Some(m) && m@ == "gt: a newer version is available ("@ + current@
            + " → "@ + latest@ + "); run `gt update`"@),
{
    if !newer {
        return None;
    }
    let mut v: Vec<char> = Vec::new();
    push_str(&mut v, "gt: a newer version is available (");
    push_str(&mut v, current);
    push_str(&mut v, " → ");
    push_str(&mut v, latest);
    push_str(&mut v, "); run `gt update`");
    Some(string_from_chars(v.as_slice()))
}

/// The passive notice to print for the latest release, if it is newer than `current`.
pub fn update_notice(current: &str, latest: &str) -> (r: Option<String>)
    ensures
        r is Some <==> spec_is_newer(current@, latest@),
        r matches Some(m) ==> m@ == "gt: a newer version is available ("@ + current@ + " → "@
            + latest@ + "); run `gt update`"@,
        current@ == latest@ ==> r is None,
{
    let newer = is_newer(current, latest);
    notice_for(current, latest, newer)
}

/// What `gt update --check` prints for a release `latest` that is (`newer`) or is not newer.
pub fn check_message(current: &str, latest: &str, newer: bool) -> (r: String)
    ensures
        newer ==> r@ == "update available: "@ + current@ + " → "@ + latest@
            + " (run `gt update`)"@,
        !newer ==> r@ == "gt "@ + current@ + " is up to date"@,
{
    let mut v: Vec<char> = Vec::new();
    if newer {
        push_str(&mut v, "update available: ");
        push_str(&mut v, current);
        push_str(&mut v, " → ");
        push_str(&mut v, latest);
        push_str(&mut v, " (run `gt update`)");
    } else {
        push_str(&mut v, "gt ");
        push_str(&mut v, current);
        push_str(&mut v, " is up to date");
    }
    string_from_chars(v.as_slice())
}

/// What `gt update --check` prints once the latest release is known.
pub fn check_report(current: &str, latest: &str) -> (r: String)
    ensures
        spec_is_newer(current@, latest@) ==> r@ == "update available: "@ + current@ + " → "@
            + latest@ + " (run `gt update`)"@,
        !spec_is_newer(current@, latest@) ==> r@ == "gt "@ + current@ + " is up to date"@,
{
    let newer = is_newer(current, latest);
    check_message(current, latest, newer)
}

/// What a plain `gt update` prints: the version it moved to, or that `current` already was
/// the latest.
pub fn update_result_message(current: &str, updated: bool, version: &str) -> (r: String)
    ensures
        updated ==> r@ == "updated gt → "@ + version@,
        !updated ==> r@ == "gt "@ + current@ + " is already the latest"@,
{
    let mut v: Vec<char> = Vec::new();
    if updated {
        push_str(&mut v, "updated gt → ");
        push_str(&mut v, version);
    } else {
        push_str(&mut v, "gt ");
        push_str(&mut v, current);
        push_str(&mut v, " is already the latest");
    }
    string_from_chars(v.as_slice())
}

} // verus!
