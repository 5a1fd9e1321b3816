//! Cgroup v2 CPU quota and throttle counters.
use vstd::prelude::*;
use vstd::string::*;

use crate::text::{
    decimal, decimal_round_trips, is_white_space, lines, parse_unsigned, same, split_lines,
    split_words, texts, texts_split_at_white_space, unsigned, words, IntFault,
};

verus! {

/// Why a cgroup sample could not be taken.
#[derive(Debug)]
pub enum CgroupError {
    /// A file could not be read.
    Io(String),
    /// A value is out of range.
    InvalidValue(String),
    /// A file is missing.
    MissingFile(String),
    /// A field is missing.
    MissingField(String),
    /// A field is not a number.
    ParseFloat(String),
    /// A field is not an unsigned integer.
    ParseInt(IntFault),
    /// The process could not be inspected.
    Proc(String),
}

impl CgroupError {
    /// The message shown for this error.
    pub open spec fn message(&self) -> Seq<char> {
        match self {
            CgroupError::Io(why) => why@,
            CgroupError::InvalidValue(what) => "invalid value: "@ + what@,
            CgroupError::MissingFile(what) => "missing file `"@ + what@ + "`"@,
            CgroupError::MissingField(what) => "missing field `"@ + what@ + "`"@,
            CgroupError::ParseFloat(why) => why@,
            CgroupError::ParseInt(IntFault::Empty) => "cannot parse integer from empty string"@,
            CgroupError::ParseInt(IntFault::InvalidDigit) => "invalid digit found in string"@,
            CgroupError::ParseInt(IntFault::Overflow) =>
                "number too large to fit in target type"@,
            CgroupError::Proc(why) => why@,
        }
    }

    /// Render the error.
    pub fn to_string(&self) -> (r: String)
        ensures
            r@ == self.message(),
    {
        match self {
            CgroupError::Io(why) => why.clone(),
            CgroupError::InvalidValue(what) => "invalid value: ".to_owned().concat(what.as_str()),
            CgroupError::MissingFile(what) => "missing file `".to_owned().concat(
                what.as_str(),
            ).concat("`"),
            CgroupError::MissingField(what) => "missing field `".to_owned().concat(
                what.as_str(),
            ).concat("`"),
            CgroupError::ParseFloat(why) => why.clone(),
            CgroupError::ParseInt(fault) => match fault {
                IntFault::Empty => "cannot parse integer from empty string".to_owned(),
                IntFault::InvalidDigit => "invalid digit found in string".to_owned(),
                IntFault::Overflow => "number too large to fit in target type".to_owned(),
            },
            CgroupError::Proc(why) => why.clone(),
        }
    }
}

/// The CPU quota of a cgroup.
#[derive(Debug, Clone)]
pub enum CpuQuota {
    /// No quota.
    Unlimited,
    /// `quota` CPU time in every `period`, as the kernel prints them.
    Limited {
        /// CPU time per period.
        quota: String,
        /// The period.
        period: String,
    },
}

/// Cgroup v2 CPU quota and cumulative throttle counters.
#[derive(Debug, Clone)]
pub struct CgroupSample {
    /// `cpu.max` quota.
    pub quota: CpuQuota,
    /// Cumulative number of throttling periods from `cpu.stat`.
    pub nr_throttled: u64,
    /// Cumulative throttled CPU time in microseconds.
    pub throttled_usec: u64,
}

/// One line of a process's cgroup membership.
pub struct CgroupEntry {
    /// Hierarchy number.
    pub hierarchy: u32,
    /// Controllers bound to the hierarchy.
    pub controllers: Vec<String>,
    /// Path of the cgroup below the hierarchy.
    pub pathname: String,
}

/// Whether an entry belongs to the unified (v2) hierarchy.
pub open spec fn is_unified(entry: CgroupEntry) -> bool {
    entry.hierarchy == 0 && entry.controllers@.len() == 0
}

/// Position `i` holds the first entry of the unified hierarchy.
pub open spec fn first_unified(entries: Seq<CgroupEntry>, i: int) -> bool {
    &&& 0 <= i < entries.len()
    &&& is_unified(entries[i])
    &&& forall|j: int| 0 <= j < i ==> !is_unified(#[trigger] entries[j])
}

/// The directory of a process's unified cgroup.
pub fn cgroup_base(entries: &Vec<CgroupEntry>) -> (r: Result<String, CgroupError>)
    ensures
        forall|i: int| #[trigger]
            first_unified(entries@, i) ==> (r matches Ok(base) && base@ == "/sys/fs/cgroup"@
                + entries@[i].pathname@),
        (forall|i: int| 0 <= i < entries@.len() ==> !is_unified(#[trigger] entries@[i])) ==> (
        r matches Err(CgroupError::MissingFile(what)) && what@ == "cgroup path"@),
{
    let mut i: usize = 0;
    while i < entries.len()
        invariant
            i <= entries@.len(),
            forall|j: int| 0 <= j < i ==> !is_unified(#[trigger] entries@[j]),
        decreases entries@.len() - i,
    {
        if entries[i].hierarchy == 0 && entries[i].controllers.len() == 0 {
            proof {
                assert(is_unified(entries@[i as int]));
                assert forall|j: int| #[trigger] first_unified(entries@, j) implies j == i by {
                    if i < j {
                        assert(!is_unified(entries@[i as int]));
                    }
                }
            }
            return Ok("/sys/fs/cgroup".to_owned().concat(entries[i].pathname.as_str()));
        }
        i += 1;
    }
    Err(CgroupError::MissingFile("cgroup path".to_owned()))
}

/// The two fields of `cpu.max`.
#[derive(Debug)]
pub struct CpuMax {
    /// `None` for the literal `max`, else the quota field.
    pub quota: Option<String>,
    /// The period field.
    pub period: String,
}

/// Split the text of `cpu.max` into its fields.
pub fn parse_cpu_max(text: &str) -> (r: Result<CpuMax, CgroupError>)
    ensures
        words(text@).len() == 0 ==> (r matches Err(CgroupError::MissingField(what)) && what@
            == "quota"@),
        words(text@).len() == 1 ==> (r matches Err(CgroupError::MissingField(what)) && what@
            == "period"@),
        words(text@).len() >= 2 ==> (r matches Ok(fields) && fields.period@ == words(text@)[1]
            && if words(text@)[0] == "max"@ {
            fields.quota is None
        } else {
            fields.quota matches Some(quota) && quota@ == words(text@)[0]
        }),
{
    let fields = split_words(text);
    assert(texts(fields@).len() == fields@.len());
    if fields.len() == 0 {
        return Err(CgroupError::MissingField("quota".to_owned()));
    }
    assert(texts(fields@)[0] == fields@[0]@);
    if fields.len() == 1 {
        return Err(CgroupError::MissingField("period".to_owned()));
    }
    assert(texts(fields@)[1] == fields@[1]@);
    let quota: Option<String> = if same(fields[0].as_str(), "max") {
        None
    } else {
        Some(fields[0].clone())
    };
    Ok(CpuMax { quota, period: fields[1].clone() })
}

/// How a `cpu.max` field reads as a number.
#[derive(Debug)]
pub enum NumberReading {
    /// It is not a number, and why.
    Malformed(String),
    /// It is zero or less.
    NotPositive,
    /// It is any other number.
    Usable,
}

/// The throttle counters of `cpu.stat`.
pub struct ThrottleCounters {
    /// Number of throttling periods.
    pub nr_throttled: u64,
    /// Throttled CPU time in microseconds.
    pub throttled_usec: u64,
}

/// The counters after one more line of `cpu.stat`: a line that names a counter
/// replaces it, any other line is skipped, and a malformed value is an error.
pub open spec fn stat_line(counters: (nat, nat), line: Seq<char>) -> Result<(nat, nat), IntFault> {
    let fields = words(line);
    if fields.len() >= 2 && fields[0] == "nr_throttled"@ {
        match parse_unsigned(fields[1], u64::MAX as nat) {
            Ok(n) => Ok((n, counters.1)),
            Err(fault) => Err(fault),
        }
    } else if fields.len() >= 2 && fields[0] == "throttled_usec"@ {
        match parse_unsigned(fields[1], u64::MAX as nat) {
            Ok(n) => Ok((counters.0, n)),
            Err(fault) => Err(fault),
        }
    } else {
        Ok(counters)
    }
}

/// The counters after the given lines; the first malformed value ends the
/// reading.
pub open spec fn stat_lines(counters: (nat, nat), text: Seq<Seq<char>>) -> Result<
    (nat, nat),
    IntFault,
>
    decreases text.len(),
{
    if text.len() == 0 {
        Ok(counters)
    } else {
        match stat_line(counters, text[0]) {
            Ok(next) => stat_lines(next, text.drop_first()),
            Err(fault) => Err(fault),
        }
    }
}

/// The counters that a `cpu.stat` text gives.
pub open spec fn cpu_stat(text: Seq<char>) -> Result<(nat, nat), IntFault> {
    stat_lines((0, 0), lines(text))
}

/// Parse the text of `cpu.stat`. Counters that it does not name are zero.
pub fn parse_cpu_stat(text: &str) -> (r: Result<ThrottleCounters, CgroupError>)
    ensures
        match cpu_stat(text@) {
            Ok(counters) => r matches Ok(read) && read.nr_throttled == counters.0
                && read.throttled_usec == counters.1,
            Err(fault) => r matches Err(CgroupError::ParseInt(said)) && said == fault,
        },
{
    let rows = split_lines(text);
    let ghost all = lines(text@);
    let mut out = ThrottleCounters { nr_throttled: 0, throttled_usec: 0 };
    let mut i: usize = 0;
    assert(all.skip(0) == all);
    while i < rows.len()
        invariant
            i <= rows@.len(),
            texts(rows@) == all,
            all == lines(text@),
            stat_lines((out.nr_throttled as nat, out.throttled_usec as nat), all.skip(i as int))
                == cpu_stat(text@),
        decreases rows@.len() - i,
    {
        let fields = split_words(rows[i].as_str());
        let ghost line = all[i as int];
        proof {
            assert(line == rows@[i as int]@);
            assert(all.skip(i as int)[0] == line);
            assert(all.skip(i as int).drop_first() == all.skip(i + 1));
            assert(texts(fields@) == words(line));
            assert(texts(fields@).len() == fields@.len());
        }
        if fields.len() >= 2 {
            assert(texts(fields@)[0] == fields@[0]@);
            assert(texts(fields@)[1] == fields@[1]@);
            if same(fields[0].as_str(), "nr_throttled") {
                match unsigned(fields[1].as_str(), u64::MAX) {
                    Ok(n) => {
                        out.nr_throttled = n;
                    },
                    Err(fault) => {
                        return Err(CgroupError::ParseInt(fault));
                    },
                }
            } else if same(fields[0].as_str(), "throttled_usec") {
                match unsigned(fields[1].as_str(), u64::MAX) {
                    Ok(n) => {
                        out.throttled_usec = n;
                    },
                    Err(fault) => {
                        return Err(CgroupError::ParseInt(fault));
                    },
                }
            }
        }
        i += 1;
    }
    assert(stat_lines(
        (out.nr_throttled as nat, out.throttled_usec as nat),
        all.skip(rows@.len() as int),
    ) == Ok::<(nat, nat), IntFault>((out.nr_throttled as nat, out.throttled_usec as nat)));
    Ok(out)
}

/// Build a sample from the fields of `cpu.max`, from how they read as numbers,
/// and from the text of `cpu.stat`. The quota's reading counts only where there
/// is a quota.
pub fn cgroup_sample(
    max: CpuMax,
    period: NumberReading,
    quota: NumberReading,
    stat: &str,
) -> (r: Result<CgroupSample, CgroupError>)
    ensures
        period matches NumberReading::Malformed(why) ==> r matches Err(
            CgroupError::ParseFloat(said),
        ) && said == why,
        period is NotPositive ==> (r matches Err(CgroupError::InvalidValue(what)) && what@
            == "cpu.max period must be positive"@),
        period is Usable && max.quota is Some ==> (quota matches NumberReading::Malformed(why)
            ==> r matches Err(CgroupError::ParseFloat(said)) && said == why),
        period is Usable && (max.quota is None || !(quota is Malformed)) ==> match cpu_stat(stat@) {
            Ok(counters) => r matches Ok(sample) && sample.nr_throttled == counters.0
                && sample.throttled_usec == counters.1 && match max.quota {
                None => sample.quota is Unlimited,
                Some(text) => sample.quota == (CpuQuota::Limited {
                    quota: text,
                    period: max.period,
                }),
            },
            Err(fault) => r matches Err(CgroupError::ParseInt(said)) && said == fault,
        },
{
    match period {
        NumberReading::Malformed(why) => {
            return Err(CgroupError::ParseFloat(why));
        },
        NumberReading::NotPositive => {
            return Err(
                CgroupError::InvalidValue("cpu.max period must be positive".to_owned()),
            );
        },
        NumberReading::Usable => {},
    }
    let limit: CpuQuota = match max.quota {
        None => CpuQuota::Unlimited,
        Some(text) => match quota {
            NumberReading::Malformed(why) => {
                return Err(CgroupError::ParseFloat(why));
            },
            _ => CpuQuota::Limited { quota: text, period: max.period },
        },
    };
    match parse_cpu_stat(stat) {
        Ok(counters) => Ok(
            CgroupSample {
                quota: limit,
                nr_throttled: counters.nr_throttled,
                throttled_usec: counters.throttled_usec,
            },
        ),
        Err(fault) => Err(fault),
    }
}

/// A `cpu.stat` text is read line by line: what the first lines give is what the
/// following ones start from, and the first fault ends it.
pub proof fn stat_texts_are_read_line_by_line(
    counters: (nat, nat),
    a: Seq<Seq<char>>,
    b: Seq<Seq<char>>,
)
    ensures
        stat_lines(counters, a + b) == match stat_lines(counters, a) {
            Ok(next) => stat_lines(next, b),
            Err(fault) => Err(fault),
        },
    decreases a.len(),
{
    if a.len() == 0 {
        assert(a + b == b);
    } else {
        assert((a + b)[0] == a[0]);
        assert((a + b).drop_first() == a.drop_first() + b);
        if let Ok(next) = stat_line(counters, a[0]) {
            stat_texts_are_read_line_by_line(next, a.drop_first(), b);
        }
    }
}

/// A line sets the counter that it names to the number that follows; every other
/// line leaves both as they are.
pub proof fn stat_lines_set_the_counter_they_name(counters: (nat, nat), line: Seq<char>, n: nat)
    requires
        n <= u64::MAX,
    ensures
        words(line).len() >= 2 && words(line)[0] == "nr_throttled"@ && words(line)[1] == decimal(n)
            ==> stat_lines(counters, seq![line]) == Ok::<(nat, nat), IntFault>((n, counters.1)),
        words(line).len() >= 2 && words(line)[0] == "throttled_usec"@ && words(line)[1] == decimal(
            n,
        ) ==> stat_lines(counters, seq![line]) == Ok::<(nat, nat), IntFault>((counters.0, n)),
        words(line).len() < 2 || (words(line)[0] != "nr_throttled"@ && words(line)[0]
            != "throttled_usec"@) ==> stat_lines(counters, seq![line]) == Ok::<
            (nat, nat),
            IntFault,
        >(counters),
        words(line).len() >= 2 && (words(line)[0] == "nr_throttled"@ || words(line)[0]
            == "throttled_usec"@) && parse_unsigned(words(line)[1], u64::MAX as nat) is Err
            ==> stat_lines(counters, seq![line]) is Err,
{
    reveal_strlit("nr_throttled");
    reveal_strlit("throttled_usec");
    assert("nr_throttled"@.len() != "throttled_usec"@.len());
    decimal_round_trips(n, u64::MAX as nat);
    let one = seq![line];
    let rest = one.drop_first();
    assert(rest == Seq::<Seq<char>>::empty());
    reveal_with_fuel(stat_lines, 2);
}

/// An empty `cpu.stat` text stands for counters of nothing.
pub proof fn no_lines_mean_no_throttling()
    ensures
        cpu_stat(Seq::<char>::empty()) == Ok::<(nat, nat), IntFault>((0, 0)),
{
    assert(lines(Seq::<char>::empty()).len() == 0);
}

/// The directory of a process is that of its first entry in the unified hierarchy,
/// below the mount point; without such an entry there is none.
pub proof fn processes_live_below_the_mount_point(
    entries: Vec<CgroupEntry>,
    i: int,
    base: Result<String, CgroupError>,
)
    requires
        call_ensures(cgroup_base, (&entries,), base),
    ensures
        0 <= i < entries@.len() && entries@[i].hierarchy == 0 && entries@[i].controllers@.len() == 0
            && (forall|j: int|
            0 <= j < i ==> (#[trigger] entries@[j]).hierarchy != 0
                || entries@[j].controllers@.len() > 0) ==> (base matches Ok(path) && path@
            == "/sys/fs/cgroup"@ + entries@[i].pathname@),
        (forall|j: int|
            0 <= j < entries@.len() ==> (#[trigger] entries@[j]).hierarchy != 0
                || entries@[j].controllers@.len() > 0) ==> base is Err,
{
    if 0 <= i < entries@.len() && entries@[i].hierarchy == 0 && entries@[i].controllers@.len() == 0
        && (forall|j: int|
        0 <= j < i ==> (#[trigger] entries@[j]).hierarchy != 0 || entries@[j].controllers@.len()
            > 0) {
        assert(first_unified(entries@, i));
    }
}

/// The quota comes before the period, and the word `max` stands for no quota.
pub proof fn limits_are_quota_then_period(
    text: &str,
    quota: Seq<char>,
    period: Seq<char>,
    limit: Result<CpuMax, CgroupError>,
)
    requires
        quota.len() > 0,
        period.len() > 0,
        forall|i: int| 0 <= i < quota.len() ==> !is_white_space(#[trigger] quota[i]),
        forall|i: int| 0 <= i < period.len() ==> !is_white_space(#[trigger] period[i]),
        text@ == quota + seq![' '] + period,
        call_ensures(parse_cpu_max, (text,), limit),
    ensures
        limit matches Ok(fields) && fields.period@ == period && (fields.quota is None <==> quota
            == seq!['m', 'a', 'x']) && (fields.quota matches Some(said) ==> said@ == quota),
{
    texts_split_at_white_space(quota, ' ', period);
    texts_split_at_white_space(period, ' ', Seq::empty());
    reveal_strlit("max");
    assert("max"@ =~= seq!['m', 'a', 'x']);
    let fields = words(text@);
    assert(fields == seq![quota] + seq![period]);
    assert(fields[0] == quota && fields[1] == period);
}

/// A sample holds the counters of its text and the limit that was read; a malformed
/// or unusable number gives no sample.
pub proof fn samples_hold_limit_and_counters(
    max: CpuMax,
    period: NumberReading,
    quota: NumberReading,
    stat: &str,
    sample: Result<CgroupSample, CgroupError>,
)
    requires
        call_ensures(cgroup_sample, (max, period, quota, stat), sample),
    ensures
        !(period is Usable) ==> sample is Err,
        max.quota is Some && quota is Malformed ==> sample is Err,
        cpu_stat(stat@) is Err ==> sample is Err,
        sample matches Ok(s) ==> {
            &&& cpu_stat(stat@) == Ok::<(nat, nat), IntFault>(
                (s.nr_throttled as nat, s.throttled_usec as nat),
            )
            &&& max.quota is None <==> s.quota is Unlimited
            &&& s.quota matches CpuQuota::Limited { quota: said, period: every } ==> max.quota
                == Some(said) && every == max.period
        },
        period is Usable && (max.quota is None || !(quota is Malformed)) && cpu_stat(stat@) is Ok
            ==> sample is Ok,
{
}

} // verus!
