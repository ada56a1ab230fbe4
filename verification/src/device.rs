//! Device-facing shapes and endpoints: the device record, the statistics
//! tables, their human-oriented renderings, and the paths and query
//! parameters of the device API.

use vstd::prelude::*;

use crate::model::pairs_view;
use crate::strings::{push_char, push_spaces, spaces};
use crate::year_month::YearMonth;
use crate::year_month_day::YearMonthDay;

verus! {

/// One device, as the platform lists it.
#[derive(Debug, Clone, PartialEq)]
pub struct DeviceResponse {
    pub device_id: String,
    pub product_name: String,
    pub custom_name: String,
    pub is_online: bool,
}

impl DeviceResponse {
    /// The device's display name: the custom name when one is set, the
    /// product name otherwise.
    pub fn get_name(&self) -> (r: &str)
        ensures
            self.custom_name@.len() == 0 ==> r@ == self.product_name@,
            self.custom_name@.len() != 0 ==> r@ == self.custom_name@,
    {
        if self.custom_name.as_str().is_empty() {
            self.product_name.as_str()
        } else {
            self.custom_name.as_str()
        }
    }
}

/// Monthly cumulative energy: readings in strictly ascending
/// chronological order, one per month.
#[derive(Debug, PartialEq)]
pub struct DeviceMonthlyStatistics {
    months: Vec<(YearMonth, String)>,
}

/// Daily cumulative energy: readings in strictly ascending
/// chronological order, one per day.
#[derive(Debug, PartialEq)]
pub struct DeviceDailyStatistics {
    days: Vec<(YearMonthDay, String)>,
}

/// Monthly rows come strictly ascending by month, so no month repeats.
pub open spec fn months_sorted(rows: Seq<(YearMonth, String)>) -> bool {
    forall|i: int, j: int|
        0 <= i < j < rows.len() ==> (#[trigger] rows[i]).0.spec_lt((#[trigger] rows[j]).0)
}

/// Daily rows come strictly ascending by day, so no day repeats.
pub open spec fn days_sorted(rows: Seq<(YearMonthDay, String)>) -> bool {
    forall|i: int, j: int|
        0 <= i < j < rows.len() ==> (#[trigger] rows[i]).0.spec_lt((#[trigger] rows[j]).0)
}

/// One table line: a bullet, the label and a colon padded to the common
/// width, then the reading and its unit.
pub open spec fn spec_stat_line(label: Seq<char>, value: Seq<char>, width: int) -> Seq<char> {
    "* "@ + label + seq![':'] + spaces(width - label.len()) + seq![' '] + value + " kWh"@
}

/// The table lines, joined with newlines.
pub open spec fn spec_stat_lines(items: Seq<(Seq<char>, Seq<char>)>, width: int) -> Seq<char>
    decreases items.len(),
{
    if items.len() == 0 {
        Seq::empty()
    } else if items.len() == 1 {
        spec_stat_line(items[0].0, items[0].1, width)
    } else {
        spec_stat_lines(items.drop_last(), width) + seq!['\n'] + spec_stat_line(
            items.last().0,
            items.last().1,
            width,
        )
    }
}

/// The longest label's length, the width the labels are padded to.
pub open spec fn spec_max_label_len(items: Seq<(Seq<char>, Seq<char>)>) -> int
    decreases items.len(),
{
    if items.len() == 0 {
        0
    } else {
        let rest = spec_max_label_len(items.drop_last());
        if items.last().0.len() > rest {
            items.last().0.len() as int
        } else {
            rest
        }
    }
}

/// No label is longer than the padding width.
proof fn lemma_max_label_bound(items: Seq<(Seq<char>, Seq<char>)>)
    ensures
        forall|j: int|
            0 <= j < items.len() ==> (#[trigger] items[j]).0.len() <= spec_max_label_len(items),
    decreases items.len(),
{
    if items.len() > 0 {
        let pre = items.drop_last();
        lemma_max_label_bound(pre);
        assert forall|j: int|
            0 <= j < items.len() implies (#[trigger] items[j]).0.len() <= spec_max_label_len(
            items,
        ) by {
            if j < items.len() - 1 {
                assert(items[j] == pre[j]);
            }
        }
    }
}

/// The whole table of (label, reading) rows: empty for no rows, else
/// every label padded to the longest one.
pub open spec fn spec_stats_pretty(items: Seq<(Seq<char>, Seq<char>)>) -> Seq<char> {
    if items.len() == 0 {
        Seq::empty()
    } else {
        spec_stat_lines(items, spec_max_label_len(items))
    }
}

/// Renders a table of (label, reading) rows, as `spec_stats_pretty`
/// describes.
fn render_stats_table(items: &Vec<(String, String)>) -> (r: String)
    ensures
        r@ == spec_stats_pretty(pairs_view(items@)),
{
    let ghost view = pairs_view(items@);
    if items.len() == 0 {
        return String::new();
    }
    let mut width: usize = 0;
    let mut i: usize = 0;
    proof {
        assert(view.subrange(0, 0) =~= Seq::<(Seq<char>, Seq<char>)>::empty());
    }
    while i < items.len()
        invariant
            i <= items.len(),
            view == pairs_view(items@),
            width as int == spec_max_label_len(view.subrange(0, i as int)),
        decreases items.len() - i,
    {
        let l = items[i].0.as_str().unicode_len();
        proof {
            let cur = view.subrange(0, i + 1);
            assert(cur.drop_last() =~= view.subrange(0, i as int));
            assert(cur.last() == view[i as int]);
        }
        if l > width {
            width = l;
        }
        i = i + 1;
    }
    proof {
        assert(view.subrange(0, items@.len() as int) =~= view);
        lemma_max_label_bound(view);
    }
    let mut s = String::new();
    let mut i: usize = 0;
    proof {
        assert(view.subrange(0, 0) =~= Seq::<(Seq<char>, Seq<char>)>::empty());
    }
    while i < items.len()
        invariant
            i <= items.len(),
            view == pairs_view(items@),
            width as int == spec_max_label_len(view),
            forall|j: int|
                0 <= j < view.len() ==> (#[trigger] view[j]).0.len() <= width as int,
            s@ == spec_stat_lines(view.subrange(0, i as int), width as int),
        decreases items.len() - i,
    {
        if i > 0 {
            push_char(&mut s, '\n');
        }
        s.append("* ");
        s.append(items[i].0.as_str());
        push_char(&mut s, ':');
        let l = items[i].0.as_str().unicode_len();
        proof {
            assert(view[i as int].0 == items@[i as int].0@);
            assert(l as int == view[i as int].0.len());
            assert(l <= width);
        }
        push_spaces(&mut s, width - l);
        push_char(&mut s, ' ');
        s.append(items[i].1.as_str());
        s.append(" kWh");
        proof {
            let cur = view.subrange(0, i + 1);
            assert(cur.drop_last() =~= view.subrange(0, i as int));
            assert(cur.last() == view[i as int]);
            assert(s@ =~= spec_stat_lines(cur, width as int));
        }
        i = i + 1;
    }
    proof {
        assert(view.subrange(0, items@.len() as int) =~= view);
    }
    s
}

/// The (label, reading) rows of a monthly table, with each month written
/// in its human-oriented form.
pub open spec fn spec_monthly_rows(months: Seq<(YearMonth, String)>) -> Seq<(Seq<char>, Seq<char>)> {
    months.map(|i: int, p: (YearMonth, String)| (p.0.spec_pretty(), p.1@))
}

/// The (label, reading) rows of a daily table.
pub open spec fn spec_daily_rows(days: Seq<(YearMonthDay, String)>) -> Seq<(Seq<char>, Seq<char>)> {
    days.map(|i: int, p: (YearMonthDay, String)| (p.0.spec_pretty(), p.1@))
}

impl DeviceMonthlyStatistics {
    /// The rows, in order.
    pub closed spec fn spec_rows(self) -> Seq<(YearMonth, String)> {
        self.months@
    }

    /// Every value holds its readings strictly ascending by month.
    #[verifier::type_invariant]
    pub open spec fn wf(self) -> bool {
        months_sorted(self.spec_rows())
    }

    /// Builds the table from rows, accepting them only in strictly
    /// ascending chronological order (the order the platform's sorted
    /// map guarantees).
    pub fn new(months: Vec<(YearMonth, String)>) -> (r: Option<DeviceMonthlyStatistics>)
        ensures
            r is Some <==> months_sorted(months@),
            r is Some ==> r->Some_0.spec_rows() == months@,
    {
        let n = months.len();
        let mut i: usize = 1;
        while i < n
            invariant
                1 <= i,
                n == months@.len(),
                forall|a: int, b: int|
                    0 <= a < b < i && b < n ==> (#[trigger] months@[a]).0.spec_lt(
                        (#[trigger] months@[b]).0,
                    ),
            decreases n - i,
        {
            let c = months[i - 1].0.compare(&months[i].0);
            match c {
                core::cmp::Ordering::Less => {},
                _ => {
                    proof {
                        assert(!months@[i - 1].0.spec_lt(months@[i as int].0));
                    }
                    return None;
                },
            }
            proof {
                assert forall|a: int, b: int|
                    0 <= a < b < i + 1 && b < n implies (#[trigger] months@[a]).0.spec_lt(
                    (#[trigger] months@[b]).0,
                ) by {
                    if b == i && a < i - 1 {
                        assert(months@[a].0.spec_lt(months@[i - 1].0));
                    }
                }
            }
            i = i + 1;
        }
        Some(DeviceMonthlyStatistics { months })
    }

    /// The rows, strictly ascending by month.
    pub fn months(&self) -> (r: &Vec<(YearMonth, String)>)
        ensures
            r@ == self.spec_rows(),
            months_sorted(r@),
    {
        proof {
            use_type_invariant(self);
        }
        &self.months
    }

    /// Renders the table: one padded line per month, empty when there
    /// are no readings. The rows come out in the order they are held,
    /// which the type keeps strictly ascending.
    pub fn as_pretty_string(&self) -> (r: String)
        ensures
            r@ == spec_stats_pretty(spec_monthly_rows(self.spec_rows())),
            months_sorted(self.spec_rows()),
    {
        proof {
            use_type_invariant(self);
        }
        let mut items: Vec<(String, String)> = Vec::new();
        let mut i: usize = 0;
        while i < self.months.len()
            invariant
                i <= self.months.len(),
                items@.len() == i,
                forall|j: int|
                    0 <= j < i ==> #[trigger] pairs_view(items@)[j] == spec_monthly_rows(
                        self.months@,
                    )[j],
            decreases self.months.len() - i,
        {
            let label = self.months[i].0.as_pretty_string();
            let value = self.months[i].1.clone();
            let ghost lab = label@;
            let ghost val = value@;
            let ghost before = items@;
            items.push((label, value));
            proof {
                let rows = spec_monthly_rows(self.months@);
                assert forall|j: int| 0 <= j < i + 1 implies #[trigger] pairs_view(items@)[j]
                    == rows[j] by {
                    if j < i {
                        assert(items@[j] == before[j]);
                        assert(pairs_view(before)[j] == rows[j]);
                    } else {
                        assert(items@[j] == (items@[j].0, items@[j].1));
                        assert(items@[j].0@ == lab && items@[j].1@ == val);
                        assert(rows[j] == (self.months@[j].0.spec_pretty(), self.months@[j].1@));
                    }
                }
            }
            i = i + 1;
        }
        proof {
            assert(pairs_view(items@) =~= spec_monthly_rows(self.months@));
        }
        render_stats_table(&items)
    }
}

impl DeviceDailyStatistics {
    /// The rows, in order.
    pub closed spec fn spec_rows(self) -> Seq<(YearMonthDay, String)> {
        self.days@
    }

    /// Every value holds its readings strictly ascending by day.
    #[verifier::type_invariant]
    pub open spec fn wf(self) -> bool {
        days_sorted(self.spec_rows())
    }

    /// Builds the table from rows, accepting them only in strictly
    /// ascending chronological order (the order the platform's sorted
    /// map guarantees).
    pub fn new(days: Vec<(YearMonthDay, String)>) -> (r: Option<DeviceDailyStatistics>)
        ensures
            r is Some <==> days_sorted(days@),
            r is Some ==> r->Some_0.spec_rows() == days@,
    {
        let n = days.len();
        let mut i: usize = 1;
        while i < n
            invariant
                1 <= i,
                n == days@.len(),
                forall|a: int, b: int|
                    0 <= a < b < i && b < n ==> (#[trigger] days@[a]).0.spec_lt(
                        (#[trigger] days@[b]).0,
                    ),
            decreases n - i,
        {
            let c = days[i - 1].0.compare(&days[i].0);
            match c {
                core::cmp::Ordering::Less => {},
                _ => {
                    proof {
                        assert(!days@[i - 1].0.spec_lt(days@[i as int].0));
                    }
                    return None;
                },
            }
            proof {
                assert forall|a: int, b: int|
                    0 <= a < b < i + 1 && b < n implies (#[trigger] days@[a]).0.spec_lt(
                    (#[trigger] days@[b]).0,
                ) by {
                    if b == i && a < i - 1 {
                        assert(days@[a].0.spec_lt(days@[i - 1].0));
                    }
                }
            }
            i = i + 1;
        }
        Some(DeviceDailyStatistics { days })
    }

    /// The rows, strictly ascending by day.
    pub fn days(&self) -> (r: &Vec<(YearMonthDay, String)>)
        ensures
            r@ == self.spec_rows(),
            days_sorted(r@),
    {
        proof {
            use_type_invariant(self);
        }
        &self.days
    }

    /// Renders the table: one padded line per day, empty when there are
    /// no readings. The rows come out in the order they are held, which
    /// the type keeps strictly ascending.
    pub fn as_pretty_string(&self) -> (r: String)
        ensures
            r@ == spec_stats_pretty(spec_daily_rows(self.spec_rows())),
            days_sorted(self.spec_rows()),
    {
        proof {
            use_type_invariant(self);
        }
        let mut items: Vec<(String, String)> = Vec::new();
        let mut i: usize = 0;
        while i < self.days.len()
            invariant
                i <= self.days.len(),
                items@.len() == i,
                forall|j: int|
                    0 <= j < i ==> #[trigger] pairs_view(items@)[j] == spec_daily_rows(
                        self.days@,
                    )[j],
            decreases self.days.len() - i,
        {
            let label = self.days[i].0.as_pretty_string();
            let value = self.days[i].1.clone();
            let ghost lab = label@;
            let ghost val = value@;
            let ghost before = items@;
            items.push((label, value));
            proof {
                let rows = spec_daily_rows(self.days@);
                assert forall|j: int| 0 <= j < i + 1 implies #[trigger] pairs_view(items@)[j]
                    == rows[j] by {
                    if j < i {
                        assert(items@[j] == before[j]);
                        assert(pairs_view(before)[j] == rows[j]);
                    } else {
                        assert(items@[j] == (items@[j].0, items@[j].1));
                        assert(items@[j].0@ == lab && items@[j].1@ == val);
                        assert(rows[j] == (self.days@[j].0.spec_pretty(), self.days@[j].1@));
                    }
                }
            }
            i = i + 1;
        }
        proof {
            assert(pairs_view(items@) =~= spec_daily_rows(self.days@));
        }
        render_stats_table(&items)
    }
}

/// The device-info endpoint for one device.
pub fn device_info_path(device_id: &str) -> (r: String)
    ensures
        r@ == "/v2.0/cloud/thing/"@ + device_id@,
{
    let mut s = String::new();
    s.append("/v2.0/cloud/thing/");
    s.append(device_id);
    proof {
        assert(s@ =~= "/v2.0/cloud/thing/"@ + device_id@);
    }
    s
}

/// The shadow-properties endpoint for one device.
pub fn device_properties_path(device_id: &str) -> (r: String)
    ensures
        r@ == "/v2.0/cloud/thing/"@ + device_id@ + "/shadow/properties"@,
{
    let mut s = String::new();
    s.append("/v2.0/cloud/thing/");
    s.append(device_id);
    s.append("/shadow/properties");
    proof {
        assert(s@ =~= "/v2.0/cloud/thing/"@ + device_id@ + "/shadow/properties"@);
    }
    s
}

/// The monthly-statistics endpoint for one device.
pub fn device_statistics_months_path(device_id: &str) -> (r: String)
    ensures
        r@ == "/v1.0/devices/"@ + device_id@ + "/statistics/months"@,
{
    let mut s = String::new();
    s.append("/v1.0/devices/");
    s.append(device_id);
    s.append("/statistics/months");
    proof {
        assert(s@ =~= "/v1.0/devices/"@ + device_id@ + "/statistics/months"@);
    }
    s
}

/// The daily-statistics endpoint for one device.
pub fn device_statistics_days_path(device_id: &str) -> (r: String)
    ensures
        r@ == "/v1.0/devices/"@ + device_id@ + "/statistics/days"@,
{
    let mut s = String::new();
    s.append("/v1.0/devices/");
    s.append(device_id);
    s.append("/statistics/days");
    proof {
        assert(s@ =~= "/v1.0/devices/"@ + device_id@ + "/statistics/days"@);
    }
    s
}

/// The device-list endpoint.
pub fn devices_path() -> (r: String)
    ensures
        r@ == "/v2.0/cloud/thing/device"@,
{
    String::from_str("/v2.0/cloud/thing/device")
}

/// The device-list query: the platform caps a page at 20 devices.
pub fn devices_params() -> (r: Vec<(String, String)>)
    ensures
        pairs_view(r@) == seq![("page_size"@, "20"@)],
{
    let mut v: Vec<(String, String)> = Vec::new();
    v.push((String::from_str("page_size"), String::from_str("20")));
    proof {
        assert(pairs_view(v@) =~= seq![("page_size"@, "20"@)]);
    }
    v
}

/// The monthly-statistics query for a window of months.
pub fn monthly_statistics_params(start: &YearMonth, end: &YearMonth) -> (r: Vec<(String, String)>)
    ensures
        pairs_view(r@) == seq![
            ("code"@, "add_ele"@),
            ("end_month"@, end.spec_canon()),
            ("start_month"@, start.spec_canon()),
        ],
{
    let mut v: Vec<(String, String)> = Vec::new();
    v.push((String::from_str("code"), String::from_str("add_ele")));
    v.push((String::from_str("end_month"), end.as_string()));
    v.push((String::from_str("start_month"), start.as_string()));
    proof {
        assert(pairs_view(v@) =~= seq![
            ("code"@, "add_ele"@),
            ("end_month"@, end.spec_canon()),
            ("start_month"@, start.spec_canon()),
        ]);
    }
    v
}

/// The daily-statistics query for a window of days.
pub fn daily_statistics_params(start: &YearMonthDay, end: &YearMonthDay) -> (r: Vec<
    (String, String),
>)
    ensures
        pairs_view(r@) == seq![
            ("start_day"@, start.spec_canon()),
            ("end_day"@, end.spec_canon()),
            ("code"@, "add_ele"@),
        ],
{
    let mut v: Vec<(String, String)> = Vec::new();
    v.push((String::from_str("start_day"), start.as_string()));
    v.push((String::from_str("end_day"), end.as_string()));
    v.push((String::from_str("code"), String::from_str("add_ele")));
    proof {
        assert(pairs_view(v@) =~= seq![
            ("start_day"@, start.spec_canon()),
            ("end_day"@, end.spec_canon()),
            ("code"@, "add_ele"@),
        ]);
    }
    v
}

} // verus!
