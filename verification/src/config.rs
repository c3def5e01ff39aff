//! The persisted configuration: the capture rectangle, the schedule
//! list, the save directory and an optional filename prefix. Text is
//! carried as vectors of characters so that every field is a plain value.

use vstd::prelude::*;
use crate::geometry::Rect;
use crate::numbers::all_digits;
use crate::numbers::digits_val;
use crate::numbers::parse_uint;

verus! {

/// One schedule entry: a time of day at one-second granularity.
/// Duplicates are meaningless but not forbidden.
#[derive(Debug, Clone, Copy, PartialEq, Eq, Hash)]
pub struct ScheduleTime {
    pub hour: u32,
    pub minute: u32,
    pub second: u32,
}

impl ScheduleTime {
    /// A valid time of day.
    pub open spec fn wf(self) -> bool {
        self.hour <= 23 && self.minute <= 59 && self.second <= 59
    }
}

/// The aggregate configuration. Mutated only through the settings
/// interaction and persisted on an explicit save.
#[derive(Debug, Clone, PartialEq)]
pub struct Config {
    pub capture_area: Option<Rect>,
    pub schedule_times: Vec<ScheduleTime>,
    pub save_directory: Vec<char>,
    pub base_filename: Option<Vec<char>>,
}

/// The mathematical value of a configuration.
pub ghost struct ConfigV {
    pub capture_area: Option<Rect>,
    pub schedule_times: Seq<ScheduleTime>,
    pub save_directory: Seq<char>,
    pub base_filename: Option<Seq<char>>,
}

impl View for Config {
    type V = ConfigV;

    open spec fn view(&self) -> ConfigV {
        ConfigV {
            capture_area: self.capture_area,
            schedule_times: self.schedule_times@,
            save_directory: self.save_directory@,
            base_filename: match self.base_filename {
                Some(b) => Some(b@),
                None => None,
            },
        }
    }
}

impl ConfigV {
    /// Every stored value is valid: the capture area, if any, has a
    /// positive pixel density, and each schedule entry is a real time of
    /// day.
    pub open spec fn wf(self) -> bool {
        &&& match self.capture_area {
            Some(r) => r.wf(),
            None => true,
        }
        &&& forall|i: int| 0 <= i < self.schedule_times.len() ==> (#[trigger] self.schedule_times[i]).wf()
    }
}

impl Config {
    pub open spec fn wf(self) -> bool {
        self@.wf()
    }
}

/// Relies on dirs::document_dir: the platform's documents directory, if
/// the environment defines one.
#[verifier::external_body]
fn documents_dir_chars() -> (r: Option<Vec<char>>)
{
    dirs::document_dir().map(|p| p.to_string_lossy().chars().collect())
}

/// The name of the default capture folder.
pub open spec fn captures_dir_name() -> Seq<char> {
    seq!['C', 'a', 'p', 't', 'u', 'r', 'e', 's']
}

/// The default save directory for a given documents directory: the
/// `Captures` folder under it, or a bare `Captures` when the
/// environment names no documents directory.
pub open spec fn spec_default_save_directory(docs: Option<Seq<char>>) -> Seq<char> {
    (match docs {
        Some(d) => d + seq!['/'],
        None => Seq::<char>::empty(),
    }) + captures_dir_name()
}

/// Build the default save directory from the documents directory, if
/// one is known.
fn default_save_directory(docs: Option<Vec<char>>) -> (r: Vec<char>)
    ensures
        r@ == spec_default_save_directory(
            match docs {
                Some(d) => Some(d@),
                None => None,
            },
        ),
{
    let ghost dv: Option<Seq<char>> = match &docs {
        Some(d) => Some(d@),
        None => None,
    };
    let mut dir: Vec<char> = match docs {
        Some(d) => {
            let mut d = d;
            d.push('/');
            d
        },
        None => Vec::new(),
    };
    dir.push('C');
    dir.push('a');
    dir.push('p');
    dir.push('t');
    dir.push('u');
    dir.push('r');
    dir.push('e');
    dir.push('s');
    proof {
        assert(dir@ =~= spec_default_save_directory(dv));
    }
    dir
}

impl Default for Config {
    /// The freshly defaulted configuration: no capture area, no schedule
    /// entries, no filename prefix, and a `Captures` directory under the
    /// platform's documents directory (or a bare `Captures` when the
    /// environment names none). The documents directory itself is an
    /// environment read, so the contract pins the directory's shape:
    /// it is `spec_default_save_directory` of some documents directory,
    /// and in particular ends in the characters `Captures`.
    fn default() -> (c: Config)
        ensures
            c.capture_area is None,
            c.schedule_times@ == Seq::<ScheduleTime>::empty(),
            c.base_filename is None,
            exists|docs: Option<Seq<char>>| c.save_directory@ == spec_default_save_directory(
                docs,
            ),
            c.save_directory@.len() >= 8,
            c.save_directory@.subrange(
                c.save_directory@.len() - 8,
                c.save_directory@.len() as int,
            ) == captures_dir_name(),
            c.wf(),
    {
        let docs = documents_dir_chars();
        let ghost docs_view: Option<Seq<char>> = match &docs {
            Some(d) => Some(d@),
            None => None,
        };
        let dir = default_save_directory(docs);
        proof {
            assert(dir@ == spec_default_save_directory(docs_view));
            assert(dir@.subrange(dir@.len() - 8, dir@.len() as int) =~= captures_dir_name());
        }
        Config {
            capture_area: None,
            schedule_times: Vec::new(),
            save_directory: dir,
            base_filename: None,
        }
    }
}

/// The first position at or after `i` holding `c`, or the length of `s`
/// when there is none.
pub open spec fn find_char(s: Seq<char>, c: char, i: int) -> int
    decreases s.len() - i,
{
    if i < 0 || i >= s.len() {
        s.len() as int
    } else if s[i] == c {
        i
    } else {
        find_char(s, c, i + 1)
    }
}

fn find_colon(s: &Vec<char>, start: usize) -> (r: usize)
    requires
        start <= s@.len(),
    ensures
        r as int == find_char(s@, ':', start as int),
        start <= r <= s@.len(),
        r < s@.len() ==> s@[r as int] == ':',
{
    let n = s.len();
    let mut cur: usize = start;
    while cur < n && s[cur] != ':'
        invariant
            start <= cur <= n,
            n == s@.len(),
            find_char(s@, ':', start as int) == find_char(s@, ':', cur as int),
        decreases n - cur,
    {
        cur += 1;
    }
    cur
}

/// A nonempty run of digits whose value is at most `max`.
pub open spec fn valid_field(seg: Seq<char>, max: int) -> bool {
    seg.len() > 0 && all_digits(seg) && digits_val(seg) <= max
}

/// The schedule entry a line of user input denotes: exactly three
/// colon-separated nonempty runs of digits, in range as hour, minute
/// and second.
pub open spec fn spec_parse_time(s: Seq<char>) -> Option<ScheduleTime> {
    let i = find_char(s, ':', 0);
    let j = find_char(s, ':', i + 1);
    if i < s.len() && j < s.len() && find_char(s, ':', j + 1) == s.len() && valid_field(
        s.subrange(0, i),
        23,
    ) && valid_field(s.subrange(i + 1, j), 59) && valid_field(s.subrange(j + 1, s.len() as int), 59) {
        Some(
            ScheduleTime {
                hour: digits_val(s.subrange(0, i)) as u32,
                minute: digits_val(s.subrange(i + 1, j)) as u32,
                second: digits_val(s.subrange(j + 1, s.len() as int)) as u32,
            },
        )
    } else {
        None
    }
}

/// Parse a schedule time from user input of the form `HH:MM:SS`
/// (three colon-separated non-negative numbers; leading zeros are
/// allowed). Returns the entry exactly when the input is well formed
/// and in range.
pub fn parse_schedule_time(s: &Vec<char>) -> (r: Option<ScheduleTime>)
    ensures
        r == spec_parse_time(s@),
        r matches Some(e) ==> e.wf(),
{
    let n = s.len();
    let i = find_colon(s, 0);
    if i == n {
        return None;
    }
    let j = find_colon(s, i + 1);
    if j == n {
        return None;
    }
    let k = find_colon(s, j + 1);
    if k != n {
        return None;
    }
    let hour = match parse_uint(s, 0, i) {
        Some(v) => v,
        None => {
            return None;
        },
    };
    let minute = match parse_uint(s, i + 1, j) {
        Some(v) => v,
        None => {
            return None;
        },
    };
    let second = match parse_uint(s, j + 1, n) {
        Some(v) => v,
        None => {
            return None;
        },
    };
    if hour <= 23 && minute <= 59 && second <= 59 {
        Some(ScheduleTime { hour: hour as u32, minute: minute as u32, second: second as u32 })
    } else {
        None
    }
}

/// Append a schedule entry, keeping insertion order.
pub fn add_schedule_time(config: &mut Config, e: ScheduleTime)
    ensures
        final(config).schedule_times@ == old(config).schedule_times@.push(e),
        final(config).capture_area == old(config).capture_area,
        final(config).save_directory@ == old(config).save_directory@,
        final(config).base_filename == old(config).base_filename,
{
    config.schedule_times.push(e);
}

/// Remove the schedule entry at `i`, keeping the order of the rest.
pub fn remove_schedule_time(config: &mut Config, i: usize)
    requires
        i < old(config).schedule_times@.len(),
    ensures
        final(config).schedule_times@ == old(config).schedule_times@.remove(i as int),
        final(config).capture_area == old(config).capture_area,
        final(config).save_directory@ == old(config).save_directory@,
        final(config).base_filename == old(config).base_filename,
{
    config.schedule_times.remove(i);
}

} // verus!
