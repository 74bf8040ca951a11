//! Rendering the registry as a plain-text snapshot for a scraper.
//!
//! The output is a pure function of the registry contents: for each entry, one
//! line with the call counter, one with the duration sum, and one per duration
//! bucket. An empty registry renders as the empty snapshot.

use vstd::prelude::*;
use vstd::string::StringExecFns;

use crate::outcome::Outcome;
use crate::registry::BUCKET_COUNT;
use crate::registry::Metric;
use crate::registry::MetricView;
use crate::registry::Registry;

verus! {

/// The decimal digit character for `d`.
pub open spec fn dec_digit(d: nat) -> char {
    if d == 0 {
        '0'
    } else if d == 1 {
        '1'
    } else if d == 2 {
        '2'
    } else if d == 3 {
        '3'
    } else if d == 4 {
        '4'
    } else if d == 5 {
        '5'
    } else if d == 6 {
        '6'
    } else if d == 7 {
        '7'
    } else if d == 8 {
        '8'
    } else {
        '9'
    }
}

/// The decimal rendering of `n`, most significant digit first.
pub open spec fn dec_str(n: nat) -> Seq<char>
    decreases n,
{
    if n < 10 {
        seq![dec_digit(n)]
    } else {
        dec_str(n / 10) + seq![dec_digit(n % 10)]
    }
}

/// The label a rendered outcome carries.
pub open spec fn outcome_label(o: Outcome) -> Seq<char> {
    if o is Success {
        "success"@
    } else {
        "error"@
    }
}

/// The upper-bound label of bucket `i`, in milliseconds; the last bucket is
/// unbounded.
pub open spec fn bucket_label(i: int) -> Seq<char> {
    if i == 0 {
        "10"@
    } else if i == 1 {
        "100"@
    } else if i == 2 {
        "1000"@
    } else if i == 3 {
        "10000"@
    } else {
        "inf"@
    }
}

/// The call-counter line of one entry.
pub open spec fn count_line(m: MetricView) -> Seq<char> {
    "calls_total{function=\""@ + m.name + "\",outcome=\""@ + outcome_label(m.outcome) + "\"} "@
        + dec_str(m.count) + "\n"@
}

/// The duration-sum line of one entry.
pub open spec fn sum_line(m: MetricView) -> Seq<char> {
    "duration_ms_sum{function=\""@ + m.name + "\",outcome=\""@ + outcome_label(m.outcome)
        + "\"} "@ + dec_str(m.sum_ms) + "\n"@
}

/// The line for bucket `i` of one entry.
pub open spec fn bucket_line(m: MetricView, i: int) -> Seq<char> {
    "duration_ms_bucket{function=\""@ + m.name + "\",outcome=\""@ + outcome_label(m.outcome)
        + "\",le=\""@ + bucket_label(i) + "\"} "@ + dec_str(m.buckets[i]) + "\n"@
}

/// The bucket lines of one entry from bucket `i` on.
pub open spec fn bucket_lines_from(m: MetricView, i: int) -> Seq<char>
    decreases BUCKET_COUNT - i,
{
    if i < BUCKET_COUNT {
        bucket_line(m, i) + bucket_lines_from(m, i + 1)
    } else {
        Seq::<char>::empty()
    }
}

/// All lines of one entry.
pub open spec fn entry_lines(m: MetricView) -> Seq<char> {
    count_line(m) + sum_line(m) + bucket_lines_from(m, 0)
}

/// The lines of all entries from position `i` on.
pub open spec fn render_from(s: Seq<MetricView>, i: int) -> Seq<char>
    decreases s.len() - i,
{
    if 0 <= i < s.len() {
        entry_lines(s[i]) + render_from(s, i + 1)
    } else {
        Seq::<char>::empty()
    }
}

/// The full text snapshot of registry contents `s` — a function of the
/// contents alone, so rendering the same state twice gives the same text.
pub open spec fn render_spec(s: Seq<MetricView>) -> Seq<char> {
    render_from(s, 0)
}

/// The one-character string holding the decimal digit for `d`.
fn digit_str(d: u64) -> (r: &'static str)
    requires
        d < 10,
    ensures
        r@ == seq![dec_digit(d as nat)],
{
    if d == 0 {
        proof {
            reveal_strlit("0");
            assert("0"@ =~= seq![dec_digit(0)]);
        }
        "0"
    } else if d == 1 {
        proof {
            reveal_strlit("1");
            assert("1"@ =~= seq![dec_digit(1)]);
        }
        "1"
    } else if d == 2 {
        proof {
            reveal_strlit("2");
            assert("2"@ =~= seq![dec_digit(2)]);
        }
        "2"
    } else if d == 3 {
        proof {
            reveal_strlit("3");
            assert("3"@ =~= seq![dec_digit(3)]);
        }
        "3"
    } else if d == 4 {
        proof {
            reveal_strlit("4");
            assert("4"@ =~= seq![dec_digit(4)]);
        }
        "4"
    } else if d == 5 {
        proof {
            reveal_strlit("5");
            assert("5"@ =~= seq![dec_digit(5)]);
        }
        "5"
    } else if d == 6 {
        proof {
            reveal_strlit("6");
            assert("6"@ =~= seq![dec_digit(6)]);
        }
        "6"
    } else if d == 7 {
        proof {
            reveal_strlit("7");
            assert("7"@ =~= seq![dec_digit(7)]);
        }
        "7"
    } else if d == 8 {
        proof {
            reveal_strlit("8");
            assert("8"@ =~= seq![dec_digit(8)]);
        }
        "8"
    } else {
        proof {
            reveal_strlit("9");
            assert("9"@ =~= seq![dec_digit(9)]);
        }
        "9"
    }
}

/// The decimal rendering of `n`.
pub fn u64_to_dec(n: u64) -> (s: String)
    ensures
        s@ == dec_str(n as nat),
    decreases n,
{
    if n < 10 {
        digit_str(n).to_owned()
    } else {
        let mut s = u64_to_dec(n / 10);
        s.append(digit_str(n % 10));
        proof {
            assert(s@ =~= dec_str(n as nat));
        }
        s
    }
}

/// The label text of an outcome.
fn outcome_text(o: Outcome) -> (r: &'static str)
    ensures
        r@ == outcome_label(o),
{
    match o {
        Outcome::Success => "success",
        Outcome::Error => "error",
    }
}

/// The upper-bound label text of bucket `k`.
fn bucket_text(k: usize) -> (r: &'static str)
    requires
        k < BUCKET_COUNT,
    ensures
        r@ == bucket_label(k as int),
{
    if k == 0 {
        "10"
    } else if k == 1 {
        "100"
    } else if k == 2 {
        "1000"
    } else if k == 3 {
        "10000"
    } else {
        "inf"
    }
}

/// The line for bucket `k` of entry `m`.
fn bucket_line_text(m: &Metric, k: usize) -> (t: String)
    requires
        m@.buckets.len() == BUCKET_COUNT,
        k < BUCKET_COUNT,
    ensures
        t@ == bucket_line(m@, k as int),
{
    let mut t: String = "duration_ms_bucket{function=\"".to_owned();
    t.append(m.name_str());
    t.append("\",outcome=\"");
    t.append(outcome_text(m.outcome_val()));
    t.append("\",le=\"");
    t.append(bucket_text(k));
    t.append("\"} ");
    let v = u64_to_dec(m.bucket_val(k));
    t.append(v.as_str());
    t.append("\n");
    proof {
        assert(t@ =~= bucket_line(m@, k as int));
    }
    t
}

/// All lines of entry `m`.
fn entry_text(m: &Metric) -> (t: String)
    requires
        m@.buckets.len() == BUCKET_COUNT,
    ensures
        t@ == entry_lines(m@),
{
    let mut t: String = "calls_total{function=\"".to_owned();
    t.append(m.name_str());
    t.append("\",outcome=\"");
    t.append(outcome_text(m.outcome_val()));
    t.append("\"} ");
    let c = u64_to_dec(m.count_val());
    t.append(c.as_str());
    t.append("\n");
    proof {
        assert(t@ =~= count_line(m@));
    }
    t.append("duration_ms_sum{function=\"");
    t.append(m.name_str());
    t.append("\",outcome=\"");
    t.append(outcome_text(m.outcome_val()));
    t.append("\"} ");
    let s = u64_to_dec(m.sum_val());
    t.append(s.as_str());
    t.append("\n");
    proof {
        assert(t@ =~= count_line(m@) + sum_line(m@));
    }
    let mut k: usize = 0;
    while k < BUCKET_COUNT
        invariant
            m@.buckets.len() == BUCKET_COUNT,
            0 <= k <= BUCKET_COUNT,
            t@ + bucket_lines_from(m@, k as int) == entry_lines(m@),
        decreases BUCKET_COUNT - k,
    {
        let line = bucket_line_text(m, k);
        t.append(line.as_str());
        proof {
            assert(bucket_lines_from(m@, k as int) == bucket_line(m@, k as int)
                + bucket_lines_from(m@, k as int + 1));
            assert(t@ + bucket_lines_from(m@, k as int + 1) =~= entry_lines(m@));
        }
        k = k + 1;
    }
    proof {
        assert(bucket_lines_from(m@, BUCKET_COUNT as int) =~= Seq::<char>::empty());
        assert(t@ =~= entry_lines(m@));
    }
    t
}

impl Registry {
    /// Render the current contents as a text snapshot. The text is a function
    /// of the contents alone: rendering twice with no recording in between
    /// gives identical text, and an empty registry renders as empty text.
    pub fn render(&self) -> (t: String)
        requires
            self.inv(),
        ensures
            t@ == render_spec(self@),
    {
        let mut t = String::new();
        let n: usize = self.len();
        let mut i: usize = 0;
        while i < n
            invariant
                self.inv(),
                n == self@.len(),
                0 <= i <= n,
                t@ + render_from(self@, i as int) == render_spec(self@),
            decreases n - i,
        {
            let m: &Metric = self.entry_at(i);
            let lines = entry_text(m);
            t.append(lines.as_str());
            proof {
                assert(render_from(self@, i as int) == entry_lines(self@[i as int])
                    + render_from(self@, i as int + 1));
                assert(t@ + render_from(self@, i as int + 1) =~= render_spec(self@));
            }
            i = i + 1;
        }
        proof {
            assert(render_from(self@, n as int) =~= Seq::<char>::empty());
            assert(t@ =~= render_spec(self@));
        }
        t
    }
}

} // verus!
