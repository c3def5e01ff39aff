//! The persisted configuration document: a flat fixed-field text format.
//!
//! Every unsigned number is written as exactly `FIELD_WIDTH` zero-padded
//! decimal digits, every signed number as a sign character followed by
//! the digits of its magnitude, and every string as its length followed
//! by its raw characters. Optional parts are announced by a one-character
//! tag, `'1'` for present and `'0'` for absent. Decoding a document that
//! encoding produced yields the original configuration, which is proved
//! below (`lemma_config_round_trip`).

use vstd::prelude::*;
use crate::config::Config;
use crate::config::ConfigV;
use crate::config::ScheduleTime;
use crate::geometry::Rect;
use crate::numbers::FIELD_WIDTH;
use crate::numbers::fixed_digits;
use crate::numbers::lemma_fixed_digits_shape;
use crate::numbers::lemma_fixed_digits_val;
use crate::numbers::lemma_u64_fits_field_width;
use crate::numbers::push_fixed;
use crate::numbers::rd_fixed;
use crate::numbers::read_fixed;

verus! {

pub open spec fn enc_uint(n: int) -> Seq<char> {
    fixed_digits(n as nat, FIELD_WIDTH as nat)
}

/// Every fixed-width number occupies exactly `FIELD_WIDTH` characters.
pub broadcast proof fn lemma_enc_uint_len(n: int)
    ensures
        (#[trigger] enc_uint(n)).len() == FIELD_WIDTH,
{
    lemma_fixed_digits_shape(n as nat, FIELD_WIDTH as nat);
}

pub open spec fn enc_sint(v: int) -> Seq<char> {
    if v >= 0 {
        seq!['+'] + enc_uint(v)
    } else {
        seq!['-'] + enc_uint(-v)
    }
}

pub open spec fn enc_tag(b: bool) -> Seq<char> {
    if b {
        seq!['1']
    } else {
        seq!['0']
    }
}

pub open spec fn enc_chunk(s: Seq<char>) -> Seq<char> {
    enc_uint(s.len() as int) + s
}

pub open spec fn enc_entry(e: ScheduleTime) -> Seq<char> {
    enc_uint(e.hour as int) + enc_uint(e.minute as int) + enc_uint(e.second as int)
}

pub open spec fn enc_entries(ss: Seq<ScheduleTime>) -> Seq<char>
    decreases ss.len(),
{
    if ss.len() == 0 {
        Seq::empty()
    } else {
        enc_entry(ss[0]) + enc_entries(ss.drop_first())
    }
}

pub open spec fn enc_rect(r: Rect) -> Seq<char> {
    enc_sint(r.x as int) + enc_sint(r.y as int) + enc_uint(r.width as int) + enc_uint(
        r.height as int,
    ) + enc_uint(r.scale_milli as int)
}

pub open spec fn enc_area(a: Option<Rect>) -> Seq<char> {
    match a {
        Some(r) => enc_tag(true) + enc_rect(r),
        None => enc_tag(false),
    }
}

pub open spec fn enc_base(b: Option<Seq<char>>) -> Seq<char> {
    match b {
        Some(s) => enc_tag(true) + enc_chunk(s),
        None => enc_tag(false),
    }
}

/// The whole document of a configuration.
pub open spec fn spec_encode(cv: ConfigV) -> Seq<char> {
    enc_area(cv.capture_area) + enc_uint(cv.schedule_times.len() as int) + enc_entries(
        cv.schedule_times,
    ) + enc_chunk(cv.save_directory) + enc_base(cv.base_filename)
}

pub open spec fn rd_tag(s: Seq<char>, i: int) -> Option<(bool, int)> {
    if i < s.len() && (s[i] == '0' || s[i] == '1') {
        Some((s[i] == '1', i + 1))
    } else {
        None
    }
}

pub open spec fn rd_sint(s: Seq<char>, i: int) -> Option<(int, int)> {
    if i < s.len() && (s[i] == '+' || s[i] == '-') {
        match rd_fixed(s, i + 1) {
            Some((n, j)) => Some(
                (
                    if s[i] == '-' {
                        -n
                    } else {
                        n
                    },
                    j,
                ),
            ),
            None => None,
        }
    } else {
        None
    }
}

pub open spec fn rd_chunk(s: Seq<char>, i: int) -> Option<(Seq<char>, int)> {
    match rd_fixed(s, i) {
        Some((n, j)) => if j + n <= s.len() {
            Some((s.subrange(j, j + n), j + n))
        } else {
            None
        },
        None => None,
    }
}

pub open spec fn rd_rect(s: Seq<char>, i: int) -> Option<(Rect, int)> {
    match rd_sint(s, i) {
        Some((x, j1)) => match rd_sint(s, j1) {
            Some((y, j2)) => match rd_fixed(s, j2) {
                Some((w, j3)) => match rd_fixed(s, j3) {
                    Some((h, j4)) => match rd_fixed(s, j4) {
                        Some((sc, j5)) => if -0x8000_0000 <= x <= 0x7fff_ffff && -0x8000_0000 <= y
                            <= 0x7fff_ffff && w <= 0xffff_ffff && h <= 0xffff_ffff && 1 <= sc
                            <= 0xffff_ffff {
                            Some(
                                (
                                    Rect {
                                        x: x as i32,
                                        y: y as i32,
                                        width: w as u32,
                                        height: h as u32,
                                        scale_milli: sc as u32,
                                    },
                                    j5,
                                ),
                            )
                        } else {
                            None
                        },
                        None => None,
                    },
                    None => None,
                },
                None => None,
            },
            None => None,
        },
        None => None,
    }
}

pub open spec fn rd_entry(s: Seq<char>, i: int) -> Option<(ScheduleTime, int)> {
    match rd_fixed(s, i) {
        Some((h, j1)) => match rd_fixed(s, j1) {
            Some((m, j2)) => match rd_fixed(s, j2) {
                Some((sec, j3)) => if h <= 23 && m <= 59 && sec <= 59 {
                    Some((ScheduleTime { hour: h as u32, minute: m as u32, second: sec as u32 }, j3))
                } else {
                    None
                },
                None => None,
            },
            None => None,
        },
        None => None,
    }
}

pub open spec fn rd_entries(s: Seq<char>, i: int, n: nat) -> Option<(Seq<ScheduleTime>, int)>
    decreases n,
{
    if n == 0 {
        Some((Seq::empty(), i))
    } else {
        match rd_entry(s, i) {
            Some((e, j)) => match rd_entries(s, j, (n - 1) as nat) {
                Some((es, k)) => Some((seq![e] + es, k)),
                None => None,
            },
            None => None,
        }
    }
}

/// The configuration a document denotes, if it is well formed from end
/// to end with nothing trailing.
pub open spec fn spec_decode(s: Seq<char>) -> Option<ConfigV> {
    match rd_tag(s, 0) {
        Some((has_area, i1)) => {
            let area = if has_area {
                match rd_rect(s, i1) {
                    Some((r, j)) => Some((Some(r), j)),
                    None => None,
                }
            } else {
                Some((None::<Rect>, i1))
            };
            match area {
                Some((a, i2)) => match rd_fixed(s, i2) {
                    Some((n, i3)) => match rd_entries(s, i3, n as nat) {
                        Some((es, i4)) => match rd_chunk(s, i4) {
                            Some((dir, i5)) => match rd_tag(s, i5) {
                                Some((has_base, i6)) => {
                                    let base = if has_base {
                                        match rd_chunk(s, i6) {
                                            Some((b, j)) => Some((Some(b), j)),
                                            None => None,
                                        }
                                    } else {
                                        Some((None::<Seq<char>>, i6))
                                    };
                                    match base {
                                        Some((b, i7)) => if i7 == s.len() {
                                            Some(
                                                ConfigV {
                                                    capture_area: a,
                                                    schedule_times: es,
                                                    save_directory: dir,
                                                    base_filename: b,
                                                },
                                            )
                                        } else {
                                            None
                                        },
                                        None => None,
                                    }
                                },
                                None => None,
                            },
                            None => None,
                        },
                        None => None,
                    },
                    None => None,
                },
                None => None,
            }
        },
        None => None,
    }
}

proof fn lemma_rd_fixed_at(pre: Seq<char>, n: nat, rest: Seq<char>)
    requires
        n <= u64::MAX,
    ensures
        rd_fixed(pre + enc_uint(n as int) + rest, pre.len() as int) == Some(
            (n as int, (pre.len() + FIELD_WIDTH) as int),
        ),
{
    broadcast use lemma_enc_uint_len;
    let s = pre + enc_uint(n as int) + rest;
    let i = pre.len() as int;
    let w = FIELD_WIDTH as int;
    lemma_fixed_digits_shape(n, FIELD_WIDTH as nat);
    lemma_u64_fits_field_width();
    lemma_fixed_digits_val(n, FIELD_WIDTH as nat);
    assert(s.subrange(i, i + w) =~= enc_uint(n as int));
}

proof fn lemma_rd_sint_at(pre: Seq<char>, v: int, rest: Seq<char>)
    requires
        -(u64::MAX as int) <= v <= u64::MAX as int,
    ensures
        rd_sint(pre + enc_sint(v) + rest, pre.len() as int) == Some(
            (v, (pre.len() + 1 + FIELD_WIDTH) as int),
        ),
{
    broadcast use lemma_enc_uint_len;
    let s = pre + enc_sint(v) + rest;
    let i = pre.len() as int;
    let mag: nat = if v >= 0 {
        v as nat
    } else {
        (-v) as nat
    };
    let pre2 = pre + (if v >= 0 {
        seq!['+']
    } else {
        seq!['-']
    });
    assert(s =~= pre2 + enc_uint(mag as int) + rest);
    lemma_rd_fixed_at(pre2, mag, rest);
    assert(s[i] == enc_sint(v)[0]);
}

proof fn lemma_rd_tag_at(pre: Seq<char>, b: bool, rest: Seq<char>)
    ensures
        rd_tag(pre + enc_tag(b) + rest, pre.len() as int) == Some((b, (pre.len() + 1) as int)),
{
    let s = pre + enc_tag(b) + rest;
    assert(s[pre.len() as int] == enc_tag(b)[0]);
}

proof fn lemma_rd_chunk_at(pre: Seq<char>, c: Seq<char>, rest: Seq<char>)
    requires
        c.len() <= u64::MAX,
    ensures
        rd_chunk(pre + enc_chunk(c) + rest, pre.len() as int) == Some(
            (c, (pre.len() + FIELD_WIDTH + c.len()) as int),
        ),
{
    broadcast use lemma_enc_uint_len;
    let s = pre + enc_chunk(c) + rest;
    assert(s =~= pre + enc_uint(c.len() as int) + (c + rest));
    lemma_rd_fixed_at(pre, c.len(), c + rest);
    let j = (pre.len() + FIELD_WIDTH) as int;
    assert(s.subrange(j, j + c.len() as int) =~= c);
}

proof fn lemma_rd_entry_at(pre: Seq<char>, e: ScheduleTime, rest: Seq<char>)
    requires
        e.wf(),
    ensures
        rd_entry(pre + enc_entry(e) + rest, pre.len() as int) == Some(
            (e, (pre.len() + 3 * FIELD_WIDTH) as int),
        ),
{
    broadcast use lemma_enc_uint_len;
    let s = pre + enc_entry(e) + rest;
    assert(s =~= pre + enc_uint(e.hour as int) + (enc_uint(e.minute as int) + enc_uint(
        e.second as int,
    ) + rest));
    lemma_rd_fixed_at(pre, e.hour as nat, enc_uint(e.minute as int) + enc_uint(e.second as int) + rest);
    let p2 = pre + enc_uint(e.hour as int);
    assert(s =~= p2 + enc_uint(e.minute as int) + (enc_uint(e.second as int) + rest));
    lemma_rd_fixed_at(p2, e.minute as nat, enc_uint(e.second as int) + rest);
    let p3 = p2 + enc_uint(e.minute as int);
    assert(s =~= p3 + enc_uint(e.second as int) + rest);
    lemma_rd_fixed_at(p3, e.second as nat, rest);
}

proof fn lemma_rd_entries_at(pre: Seq<char>, ss: Seq<ScheduleTime>, rest: Seq<char>)
    requires
        forall|i: int| 0 <= i < ss.len() ==> (#[trigger] ss[i]).wf(),
    ensures
        rd_entries(pre + enc_entries(ss) + rest, pre.len() as int, ss.len()) == Some(
            (ss, (pre.len() + enc_entries(ss).len()) as int),
        ),
    decreases ss.len(),
{
    broadcast use lemma_enc_uint_len;
    let s = pre + enc_entries(ss) + rest;
    if ss.len() == 0 {
        assert(enc_entries(ss) =~= Seq::<char>::empty());
        assert(rd_entries(s, pre.len() as int, 0) == Some(
            (Seq::<ScheduleTime>::empty(), pre.len() as int),
        ));
        assert(ss =~= Seq::<ScheduleTime>::empty());
    } else {
        let e = ss[0];
        let tail = ss.drop_first();
        assert(enc_entries(ss) == enc_entry(e) + enc_entries(tail));
        assert(s =~= pre + enc_entry(e) + (enc_entries(tail) + rest));
        lemma_rd_entry_at(pre, e, enc_entries(tail) + rest);
        let p2 = pre + enc_entry(e);
        assert(s =~= p2 + enc_entries(tail) + rest);
        assert(forall|i: int| 0 <= i < tail.len() ==> (#[trigger] tail[i]).wf()) by {
            assert(forall|i: int| 0 <= i < tail.len() ==> tail[i] == ss[i + 1]);
        }
        lemma_rd_entries_at(p2, tail, rest);
        assert(enc_entry(e).len() == 3 * FIELD_WIDTH) by {
            lemma_fixed_digits_shape(e.hour as nat, FIELD_WIDTH as nat);
            lemma_fixed_digits_shape(e.minute as nat, FIELD_WIDTH as nat);
            lemma_fixed_digits_shape(e.second as nat, FIELD_WIDTH as nat);
        }
        assert(seq![e] + tail =~= ss);
    }
}

proof fn lemma_rd_rect_at(pre: Seq<char>, r: Rect, rest: Seq<char>)
    requires
        r.scale_milli >= 1,
    ensures
        enc_rect(r).len() == 2 + 5 * FIELD_WIDTH,
        rd_rect(pre + enc_rect(r) + rest, pre.len() as int) == Some(
            (r, (pre.len() + 2 + 5 * FIELD_WIDTH) as int),
        ),
{
    broadcast use lemma_enc_uint_len;
    let s = pre + enc_rect(r) + rest;
    let rx = enc_sint(r.x as int);
    let ry = enc_sint(r.y as int);
    let rw = enc_uint(r.width as int);
    let rh = enc_uint(r.height as int);
    let rs = enc_uint(r.scale_milli as int);
    assert(s =~= pre + rx + (ry + rw + rh + rs + rest));
    lemma_rd_sint_at(pre, r.x as int, ry + rw + rh + rs + rest);
    let p2 = pre + rx;
    assert(s =~= p2 + ry + (rw + rh + rs + rest));
    lemma_rd_sint_at(p2, r.y as int, rw + rh + rs + rest);
    let p3 = p2 + ry;
    assert(s =~= p3 + rw + (rh + rs + rest));
    lemma_rd_fixed_at(p3, r.width as nat, rh + rs + rest);
    let p4 = p3 + rw;
    assert(s =~= p4 + rh + (rs + rest));
    lemma_rd_fixed_at(p4, r.height as nat, rs + rest);
    let p5 = p4 + rh;
    assert(s =~= p5 + rs + rest);
    lemma_rd_fixed_at(p5, r.scale_milli as nat, rest);
}

/// Decoding inverts encoding: for every well-formed configuration value,
/// the document `spec_encode` produces decodes back to exactly that
/// value. This is the round-trip law behind "save, then load, yields the
/// same configuration".
#[verifier::rlimit(100)]
pub proof fn lemma_config_round_trip(cv: ConfigV)
    requires
        cv.wf(),
        cv.schedule_times.len() <= u64::MAX,
        cv.save_directory.len() <= u64::MAX,
        match cv.base_filename {
            Some(b) => b.len() <= u64::MAX,
            None => true,
        },
    ensures
        spec_decode(spec_encode(cv)) == Some(cv),
{
    broadcast use lemma_enc_uint_len;
    let s = spec_encode(cv);
    let a = enc_area(cv.capture_area);
    let cnt = enc_uint(cv.schedule_times.len() as int);
    let ents = enc_entries(cv.schedule_times);
    let dir = enc_chunk(cv.save_directory);
    let base = enc_base(cv.base_filename);

    // the area part
    let i2: int;
    match cv.capture_area {
        Some(r) => {
            let rect_body = enc_rect(r);
            assert(s =~= Seq::<char>::empty() + enc_tag(true) + (rect_body + cnt + ents + dir
                + base));
            lemma_rd_tag_at(Seq::<char>::empty(), true, rect_body + cnt + ents + dir + base);
            assert(rd_tag(s, 0) == Some((true, 1int)));
            let p1 = enc_tag(true);
            assert(s =~= p1 + rect_body + (cnt + ents + dir + base));
            lemma_rd_rect_at(p1, r, cnt + ents + dir + base);
            assert(rd_rect(s, 1) == Some((r, (a.len()) as int)));
            i2 = a.len() as int;
        },
        None => {
            assert(s =~= Seq::<char>::empty() + enc_tag(false) + (cnt + ents + dir + base));
            lemma_rd_tag_at(Seq::<char>::empty(), false, cnt + ents + dir + base);
            assert(rd_tag(s, 0) == Some((false, 1int)));
            i2 = 1;
        },
    }
    assert(i2 == a.len());

    // the schedule list
    assert(s =~= a + cnt + (ents + dir + base));
    lemma_rd_fixed_at(a, cv.schedule_times.len(), ents + dir + base);
    let p6 = a + cnt;
    assert(s =~= p6 + ents + (dir + base));
    lemma_rd_entries_at(p6, cv.schedule_times, dir + base);

    // the save directory
    let p7 = p6 + ents;
    assert(s =~= p7 + dir + base);
    lemma_rd_chunk_at(p7, cv.save_directory, base);

    // the base filename and the end of the document
    let p8 = p7 + dir;
    match cv.base_filename {
        Some(b) => {
            assert(s =~= p8 + enc_tag(true) + enc_chunk(b));
            lemma_rd_tag_at(p8, true, enc_chunk(b));
            let p9 = p8 + enc_tag(true);
            assert(s =~= p9 + enc_chunk(b) + Seq::<char>::empty());
            lemma_rd_chunk_at(p9, b, Seq::<char>::empty());
            assert(p9.len() + FIELD_WIDTH + b.len() == s.len());
        },
        None => {
            assert(s =~= p8 + enc_tag(false) + Seq::<char>::empty());
            lemma_rd_tag_at(p8, false, Seq::<char>::empty());
            assert(p8.len() + 1 == s.len());
        },
    }
}

/// Serialize a configuration into its document.
pub fn encode_config(c: &Config) -> (out: Vec<char>)
    ensures
        out@ == spec_encode(c@),
{
    let mut out: Vec<char> = Vec::new();
    match &c.capture_area {
        Some(r) => {
            out.push('1');
            push_sint(&mut out, r.x);
            push_sint(&mut out, r.y);
            push_fixed(&mut out, r.width as u64, FIELD_WIDTH);
            push_fixed(&mut out, r.height as u64, FIELD_WIDTH);
            push_fixed(&mut out, r.scale_milli as u64, FIELD_WIDTH);
            proof {
                assert(out@ =~= enc_area(c@.capture_area));
            }
        },
        None => {
            out.push('0');
            proof {
                assert(out@ =~= enc_area(c@.capture_area));
            }
        },
    }
    let n = c.schedule_times.len();
    push_fixed(&mut out, n as u64, FIELD_WIDTH);
    let ghost head = enc_area(c@.capture_area) + enc_uint(c@.schedule_times.len() as int);
    proof {
        assert(out@ =~= head);
    }
    let mut k: usize = 0;
    while k < n
        invariant
            n == c.schedule_times@.len(),
            0 <= k <= n,
            out@ == head + enc_entries(c.schedule_times@.subrange(0, k as int)),
        decreases n - k,
    {
        let e = &c.schedule_times[k];
        let ghost done = c.schedule_times@.subrange(0, k as int);
        push_fixed(&mut out, e.hour as u64, FIELD_WIDTH);
        push_fixed(&mut out, e.minute as u64, FIELD_WIDTH);
        push_fixed(&mut out, e.second as u64, FIELD_WIDTH);
        proof {
            lemma_enc_entries_snoc(done, c.schedule_times@[k as int]);
            assert(c.schedule_times@.subrange(0, k + 1) =~= done.push(
                c.schedule_times@[k as int],
            ));
            assert(out@ =~= head + enc_entries(c.schedule_times@.subrange(0, k + 1)));
        }
        k += 1;
    }
    proof {
        assert(c.schedule_times@.subrange(0, n as int) =~= c.schedule_times@);
    }
    push_chunk(&mut out, &c.save_directory);
    match &c.base_filename {
        Some(b) => {
            out.push('1');
            push_chunk(&mut out, b);
        },
        None => {
            out.push('0');
        },
    }
    proof {
        assert(out@ =~= spec_encode(c@));
    }
    out
}

proof fn lemma_enc_entries_snoc(ss: Seq<ScheduleTime>, e: ScheduleTime)
    ensures
        enc_entries(ss.push(e)) == enc_entries(ss) + enc_entry(e),
    decreases ss.len(),
{
    if ss.len() == 0 {
        assert(ss.push(e)[0] == e);
        assert(ss.push(e).drop_first() =~= Seq::<ScheduleTime>::empty());
        assert(enc_entries(ss.push(e).drop_first()) == Seq::<char>::empty());
        assert(enc_entries(ss.push(e)) == enc_entry(e) + Seq::<char>::empty());
        assert(enc_entries(ss) == Seq::<char>::empty());
        assert(enc_entry(e) + Seq::<char>::empty() =~= Seq::<char>::empty() + enc_entry(e));
    } else {
        assert(ss.push(e)[0] == ss[0]);
        assert(ss.push(e).drop_first() =~= ss.drop_first().push(e));
        lemma_enc_entries_snoc(ss.drop_first(), e);
        assert(enc_entries(ss.push(e)) == enc_entry(ss[0]) + enc_entries(ss.drop_first().push(e)));
        assert(enc_entries(ss) == enc_entry(ss[0]) + enc_entries(ss.drop_first()));
        assert(enc_entry(ss[0]) + (enc_entries(ss.drop_first()) + enc_entry(e)) =~= (enc_entry(
            ss[0],
        ) + enc_entries(ss.drop_first())) + enc_entry(e));
    }
}

fn push_sint(out: &mut Vec<char>, v: i32)
    ensures
        final(out)@ == old(out)@ + enc_sint(v as int),
{
    if v >= 0 {
        out.push('+');
        push_fixed(out, v as u64, FIELD_WIDTH);
    } else {
        out.push('-');
        let mag: u64 = (-(v as i64)) as u64;
        push_fixed(out, mag, FIELD_WIDTH);
    }
    proof {
        assert(out@ =~= old(out)@ + enc_sint(v as int));
    }
}

fn push_chunk(out: &mut Vec<char>, s: &Vec<char>)
    ensures
        final(out)@ == old(out)@ + enc_chunk(s@),
{
    push_fixed(out, s.len() as u64, FIELD_WIDTH);
    let mut t: usize = 0;
    let n = s.len();
    while t < n
        invariant
            n == s@.len(),
            0 <= t <= n,
            out@ == old(out)@ + enc_uint(s@.len() as int) + s@.subrange(0, t as int),
        decreases n - t,
    {
        out.push(s[t]);
        proof {
            assert(s@.subrange(0, t + 1) =~= s@.subrange(0, t as int).push(s@[t as int]));
            assert(out@ =~= old(out)@ + enc_uint(s@.len() as int) + s@.subrange(0, t + 1));
        }
        t += 1;
    }
    proof {
        assert(s@.subrange(0, n as int) =~= s@);
        assert(out@ =~= old(out)@ + enc_chunk(s@));
    }
}

fn read_tag(s: &Vec<char>, i: usize) -> (r: Option<(bool, usize)>)
    requires
        i <= s@.len(),
    ensures
        match r {
            Some((b, j)) => rd_tag(s@, i as int) == Some((b, j as int)),
            None => rd_tag(s@, i as int) is None,
        },
{
    if i < s.len() {
        let c = s[i];
        if c == '0' {
            Some((false, i + 1))
        } else if c == '1' {
            Some((true, i + 1))
        } else {
            None
        }
    } else {
        None
    }
}

fn read_sint(s: &Vec<char>, i: usize) -> (r: Option<(bool, u64, usize)>)
    requires
        i <= s@.len(),
    ensures
        match r {
            Some((neg, mag, j)) => rd_sint(s@, i as int) == Some(
                (
                    if neg {
                        -(mag as int)
                    } else {
                        mag as int
                    },
                    j as int,
                ),
            ),
            None => rd_sint(s@, i as int) is None,
        },
{
    if i < s.len() {
        let c = s[i];
        if c == '+' || c == '-' {
            match read_fixed(s, i + 1) {
                Some((mag, j)) => Some((c == '-', mag, j)),
                None => None,
            }
        } else {
            None
        }
    } else {
        None
    }
}

fn read_chunk(s: &Vec<char>, i: usize) -> (r: Option<(Vec<char>, usize)>)
    requires
        i <= s@.len(),
    ensures
        match r {
            Some((v, j)) => rd_chunk(s@, i as int) == Some((v@, j as int)),
            None => rd_chunk(s@, i as int) is None,
        },
{
    let slen = s.len();
    match read_fixed(s, i) {
        Some((n, j)) => {
            if n > (slen - j) as u64 {
                return None;
            }
            let len = n as usize;
            let mut v: Vec<char> = Vec::new();
            let mut t: usize = 0;
            while t < len
                invariant
                    j + len <= slen == s@.len(),
                    0 <= t <= len,
                    v@ == s@.subrange(j as int, j + t),
                decreases len - t,
            {
                v.push(s[j + t]);
                proof {
                    assert(s@.subrange(j as int, j + t + 1) =~= s@.subrange(j as int, j + t).push(
                        s@[j + t],
                    ));
                }
                t += 1;
            }
            Some((v, j + len))
        },
        None => None,
    }
}

fn read_entry(s: &Vec<char>, i: usize) -> (r: Option<(ScheduleTime, usize)>)
    requires
        i <= s@.len(),
    ensures
        match r {
            Some((e, j)) => rd_entry(s@, i as int) == Some((e, j as int)) && e.wf(),
            None => rd_entry(s@, i as int) is None,
        },
{
    match read_fixed(s, i) {
        Some((h, j1)) => match read_fixed(s, j1) {
            Some((m, j2)) => match read_fixed(s, j2) {
                Some((sec, j3)) => {
                    if h <= 23 && m <= 59 && sec <= 59 {
                        Some((ScheduleTime { hour: h as u32, minute: m as u32, second: sec as u32 }, j3))
                    } else {
                        None
                    }
                },
                None => None,
            },
            None => None,
        },
        None => None,
    }
}

/// Parse a configuration document. Succeeds exactly on the documents
/// that denote a configuration, and yields a well-formed one.
#[verifier::rlimit(80)]
#[verifier::loop_isolation(false)]
pub fn decode_config(s: &Vec<char>) -> (r: Option<Config>)
    ensures
        match r {
            Some(c) => spec_decode(s@) == Some(c@) && c.wf(),
            None => spec_decode(s@) is None,
        },
{
    let (has_area, i1) = match read_tag(s, 0) {
        Some(p) => p,
        None => {
            return None;
        },
    };
    let (area, i2) = if has_area {
        let (neg_x, mag_x, a1) = match read_sint(s, i1) {
            Some(p) => p,
            None => {
                return None;
            },
        };
        let (neg_y, mag_y, a2) = match read_sint(s, a1) {
            Some(p) => p,
            None => {
                return None;
            },
        };
        let (w, a3) = match read_fixed(s, a2) {
            Some(p) => p,
            None => {
                return None;
            },
        };
        let (h, a4) = match read_fixed(s, a3) {
            Some(p) => p,
            None => {
                return None;
            },
        };
        let (sc, a5) = match read_fixed(s, a4) {
            Some(p) => p,
            None => {
                return None;
            },
        };
        let x = match signed_to_i32(neg_x, mag_x) {
            Some(v) => v,
            None => {
                return None;
            },
        };
        let y = match signed_to_i32(neg_y, mag_y) {
            Some(v) => v,
            None => {
                return None;
            },
        };
        if !(w <= 0xffff_ffff && h <= 0xffff_ffff && 1 <= sc && sc <= 0xffff_ffff) {
            return None;
        }
        let rect = Rect { x, y, width: w as u32, height: h as u32, scale_milli: sc as u32 };
        proof {
            assert(rd_rect(s@, i1 as int) == Some((rect, a5 as int)));
        }
        (Some(rect), a5)
    } else {
        (None, i1)
    };
    let (n, i3) = match read_fixed(s, i2) {
        Some(p) => p,
        None => {
            return None;
        },
    };
    let mut entries: Vec<ScheduleTime> = Vec::new();
    let mut k: u64 = 0;
    let mut cur: usize = i3;
    while k < n
        invariant
            k <= n,
            cur <= s@.len(),
            entries@.len() == k,
            forall|t: int| 0 <= t < entries@.len() ==> (#[trigger] entries@[t]).wf(),
            match rd_entries(s@, cur as int, (n - k) as nat) {
                Some((tail, j)) => rd_entries(s@, i3 as int, n as nat) == Some(
                    (entries@ + tail, j),
                ),
                None => rd_entries(s@, i3 as int, n as nat) is None,
            },
        decreases n - k,
    {
        let ghost old_entries = entries@;
        let ghost old_cur = cur as int;
        match read_entry(s, cur) {
            Some((e, j)) => {
                entries.push(e);
                cur = j;
                proof {
                    if rd_entries(s@, cur as int, (n - k - 1) as nat) is Some {
                        let (tail2, j2) = rd_entries(s@, cur as int, (n - k - 1) as nat)->Some_0;
                        assert(rd_entries(s@, old_cur, (n - k) as nat) == Some(
                            (seq![e] + tail2, j2),
                        ));
                        assert(old_entries + (seq![e] + tail2) =~= entries@ + tail2);
                    } else {
                        assert(rd_entries(s@, old_cur, (n - k) as nat) is None);
                    }
                }
                k += 1;
            },
            None => {
                proof {
                    assert(rd_entries(s@, old_cur, (n - k) as nat) is None);
                }
                return None;
            },
        }
    }
    proof {
        assert(rd_entries(s@, cur as int, 0) == Some(
            (Seq::<ScheduleTime>::empty(), cur as int),
        ));
        assert(entries@ + Seq::<ScheduleTime>::empty() =~= entries@);
        assert(rd_entries(s@, i3 as int, n as nat) == Some((entries@, cur as int)));
    }
    let (dir, i5) = match read_chunk(s, cur) {
        Some(p) => p,
        None => {
            return None;
        },
    };
    let (has_base, i6) = match read_tag(s, i5) {
        Some(p) => p,
        None => {
            return None;
        },
    };
    let (base, i7) = if has_base {
        match read_chunk(s, i6) {
            Some((b, j)) => (Some(b), j),
            None => {
                return None;
            },
        }
    } else {
        (None, i6)
    };
    if i7 != s.len() {
        return None;
    }
    let c = Config {
        capture_area: area,
        schedule_times: entries,
        save_directory: dir,
        base_filename: base,
    };
    proof {
        assert(spec_decode(s@) == Some(c@));
    }
    Some(c)
}

fn signed_to_i32(neg: bool, mag: u64) -> (r: Option<i32>)
    ensures
        match r {
            Some(v) => v as int == (if neg {
                -(mag as int)
            } else {
                mag as int
            }) && -0x8000_0000 <= v as int <= 0x7fff_ffff,
            None => !(-0x8000_0000 <= (if neg {
                -(mag as int)
            } else {
                mag as int
            }) <= 0x7fff_ffff),
        },
{
    if neg {
        if mag <= 0x8000_0000 {
            Some((-(mag as i64)) as i32)
        } else {
            None
        }
    } else {
        if mag <= 0x7fff_ffff {
            Some(mag as i32)
        } else {
            None
        }
    }
}

} // verus!
