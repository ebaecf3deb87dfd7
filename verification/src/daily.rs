//! The daily-note recognizer: a file target whose stem parses as a date under
//! the configured format is relabeled with a relative-day search key while
//! keeping the plain stem as the inserted refname.

use chrono::Datelike;
use vstd::prelude::*;
use vstd::string::StringExecFns;

use crate::text::stem;
use crate::text::stem_of;
use crate::vault::RefbView;
use crate::vault::Referenceable;

verus! {

/// What chrono's date parser yields for a name and a format string, as a
/// proleptic Gregorian day number; it depends on the two strings alone.
pub uninterp spec fn parsed_date(name: Seq<char>, fmt: Seq<char>) -> Option<int>;

/// Relies on chrono::NaiveDate::parse_from_str and Datelike::num_days_from_ce:
/// parses `name` against `fmt` and returns the day number of the parsed date.
/// A representable date's year lies in a 19-bit range, so its day number lies
/// strictly within the ±100_000_000 stated here.
#[verifier::external_body]
pub(crate) fn parse_date_days(name: &str, fmt: &str) -> (r: Option<i64>)
    ensures
        match (r, parsed_date(name@, fmt@)) {
            (Some(d), Some(s)) => d as int == s && -100_000_000 < d < 100_000_000,
            (None, None) => true,
            _ => false,
        },
{
    chrono::NaiveDate::parse_from_str(name, fmt).ok().map(|d| d.num_days_from_ce() as i64)
}

/// Relies on chrono::Local::now and Datelike::num_days_from_ce: the day
/// number of the current local date; bounded as every representable date is.
#[verifier::external_body]
pub fn today_days() -> (r: i64)
    ensures
        -100_000_000 < r < 100_000_000,
{
    chrono::Local::now().date_naive().num_days_from_ce() as i64
}

pub open spec fn today_label() -> Seq<char> {
    seq!['t', 'o', 'd', 'a', 'y', ':', ' ']
}

pub open spec fn tomorrow_label() -> Seq<char> {
    seq!['t', 'o', 'm', 'o', 'r', 'r', 'o', 'w', ':', ' ']
}

pub open spec fn yesterday_label() -> Seq<char> {
    seq!['y', 'e', 's', 't', 'e', 'r', 'd', 'a', 'y', ':', ' ']
}

/// The daily-note search key for a file stem: defined exactly when the stem
/// parses as a date lying within one day of today.
pub open spec fn spec_daily_label(stem: Seq<char>, fmt: Seq<char>, today: int) -> Option<
    Seq<char>,
> {
    match parsed_date(stem, fmt) {
        None => None,
        Some(date) => {
            let delta = date - today;
            if delta == 0 {
                Some(today_label() + stem)
            } else if delta == 1 {
                Some(tomorrow_label() + stem)
            } else if delta == -1 {
                Some(yesterday_label() + stem)
            } else {
                None
            }
        },
    }
}

/// A file target recognized as a daily note: the match string carries the
/// relative-day label, the refname stays the plain stem.
pub struct MDDailyNote {
    pub match_string: String,
    pub ref_name: String,
    pub referenceable: Referenceable,
}

/// The mathematical value of an `MDDailyNote`.
pub struct DailyView {
    pub match_string: Seq<char>,
    pub ref_name: Seq<char>,
    pub referenceable: RefbView,
}

impl DeepView for MDDailyNote {
    type V = DailyView;

    open spec fn deep_view(&self) -> DailyView {
        DailyView {
            match_string: self.match_string@,
            ref_name: self.ref_name@,
            referenceable: self.referenceable.deep_view(),
        }
    }
}

impl MDDailyNote {
    /// Classifies a target as a daily note: a file whose stem parses under
    /// `fmt` to today, tomorrow or yesterday relative to `today`.
    pub fn new(referenceable: &Referenceable, fmt: &String, today: i64) -> (r: Option<MDDailyNote>)
        requires
            -100_000_000 < today < 100_000_000,
        ensures
            match r {
                Some(d) => {
                    &&& referenceable.deep_view() matches RefbView::File { path }
                        && spec_daily_label(stem_of(path), fmt@, today as int) == Some(
                        d.match_string@,
                    ) && d.ref_name@ == stem_of(path)
                    &&& d.referenceable.deep_view() == referenceable.deep_view()
                },
                None => match referenceable.deep_view() {
                    RefbView::File { path } => spec_daily_label(
                        stem_of(path),
                        fmt@,
                        today as int,
                    ) is None,
                    _ => true,
                },
            },
    {
        match referenceable {
            Referenceable::File { path } => {
                let st = stem(path.as_str());
                match parse_date_days(st.as_str(), fmt.as_str()) {
                    None => None,
                    Some(date) => {
                        let delta = date - today;
                        let prefix: Option<&str> = if delta == 0 {
                            Some("today: ")
                        } else if delta == 1 {
                            Some("tomorrow: ")
                        } else if delta == -1 {
                            Some("yesterday: ")
                        } else {
                            None
                        };
                        match prefix {
                            Some(pre) => {
                                proof {
                                    reveal_strlit("today: ");
                                    reveal_strlit("tomorrow: ");
                                    reveal_strlit("yesterday: ");
                                    assert("today: "@ =~= today_label());
                                    assert("tomorrow: "@ =~= tomorrow_label());
                                    assert("yesterday: "@ =~= yesterday_label());
                                }
                                let mut ms = pre.to_owned();
                                ms.append(st.as_str());
                                Some(
                                    MDDailyNote {
                                        match_string: ms,
                                        ref_name: st,
                                        referenceable: referenceable.clone(),
                                    },
                                )
                            },
                            None => None,
                        }
                    },
                }
            },
            _ => None,
        }
    }
}

} // verus!
