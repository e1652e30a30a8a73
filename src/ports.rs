use vstd::prelude::*;
use crate::trace::opt_seq;

verus! {

/// Network ports that the worker is known to bind. After every stop, any
/// process still listening on one of them is reclaimed.
pub fn sidecar_ports() -> (r: Vec<u16>)
    ensures
        r@ == seq![8008u16, 8009u16, 8010u16, 8011u16, 8012u16],
{
    let mut r: Vec<u16> = Vec::new();
    r.push(8008);
    r.push(8009);
    r.push(8010);
    r.push(8011);
    r.push(8012);
    r
}

/// The ASCII characters among Unicode's whitespace: tab, line feed, vertical
/// tab, form feed, carriage return and space.
pub open spec fn is_ascii_space(b: u8) -> bool {
    (9 <= b <= 13) || b == 32
}

pub open spec fn is_digit(b: u8) -> bool {
    48 <= b <= 57
}

/// Length in bytes of the UTF-8 encoded Unicode whitespace character that `s`
/// starts with, or 0 if it starts with none. Besides the ASCII ones these are
/// U+0085, U+00A0, U+1680, U+2000 to U+200A, U+2028, U+2029, U+202F, U+205F
/// and U+3000.
pub open spec fn space_len_front(s: Seq<u8>) -> nat {
    if s.len() >= 1 && is_ascii_space(s[0]) {
        1
    } else if s.len() >= 2 && s[0] == 0xC2 && (s[1] == 0x85 || s[1] == 0xA0) {
        2
    } else if s.len() >= 3 && s[0] == 0xE1 && s[1] == 0x9A && s[2] == 0x80 {
        3
    } else if s.len() >= 3 && s[0] == 0xE2 && s[1] == 0x80 && ((0x80 <= s[2] <= 0x8A) || s[2]
        == 0xA8 || s[2] == 0xA9 || s[2] == 0xAF) {
        3
    } else if s.len() >= 3 && s[0] == 0xE2 && s[1] == 0x81 && s[2] == 0x9F {
        3
    } else if s.len() >= 3 && s[0] == 0xE3 && s[1] == 0x80 && s[2] == 0x80 {
        3
    } else {
        0
    }
}

/// Length in bytes of the whitespace character that `s` ends with, or 0.
pub open spec fn space_len_back(s: Seq<u8>) -> nat {
    let n = s.len() as int;
    if n >= 1 && is_ascii_space(s[n - 1]) {
        1
    } else if n >= 2 && s[n - 2] == 0xC2 && (s[n - 1] == 0x85 || s[n - 1] == 0xA0) {
        2
    } else if n >= 3 && s[n - 3] == 0xE1 && s[n - 2] == 0x9A && s[n - 1] == 0x80 {
        3
    } else if n >= 3 && s[n - 3] == 0xE2 && s[n - 2] == 0x80 && ((0x80 <= s[n - 1] <= 0x8A)
        || s[n - 1] == 0xA8 || s[n - 1] == 0xA9 || s[n - 1] == 0xAF) {
        3
    } else if n >= 3 && s[n - 3] == 0xE2 && s[n - 2] == 0x81 && s[n - 1] == 0x9F {
        3
    } else if n >= 3 && s[n - 3] == 0xE3 && s[n - 2] == 0x80 && s[n - 1] == 0x80 {
        3
    } else {
        0
    }
}

/// `s` without its leading whitespace characters.
pub open spec fn trim_front(s: Seq<u8>) -> Seq<u8>
    decreases s.len(),
{
    if space_len_front(s) > 0 {
        trim_front(s.subrange(space_len_front(s) as int, s.len() as int))
    } else {
        s
    }
}

/// `s` without its trailing whitespace characters.
pub open spec fn trim_back(s: Seq<u8>) -> Seq<u8>
    decreases s.len(),
{
    if space_len_back(s) > 0 {
        trim_back(s.subrange(0, s.len() - space_len_back(s)))
    } else {
        s
    }
}

/// `s` without leading and trailing Unicode whitespace. Invalid UTF-8 is
/// never whitespace, and no whitespace encoding starts with a continuation
/// byte, so this is what trimming the lossily decoded text removes.
pub open spec fn trimmed(s: Seq<u8>) -> Seq<u8> {
    trim_back(trim_front(s))
}

/// The number that a string of decimal digits denotes.
pub open spec fn digits_value(d: Seq<u8>) -> nat
    decreases d.len(),
{
    if d.len() == 0 {
        0
    } else {
        digits_value(d.drop_last()) * 10 + (d.last() - 48) as nat
    }
}

/// `line` without one leading `+`, if it has one.
pub open spec fn unsigned_digits(line: Seq<u8>) -> Seq<u8> {
    if line.len() > 0 && line[0] == 43 {
        line.drop_first()
    } else {
        line
    }
}

/// The process id a listing line names: an optional `+` followed by a
/// non-empty run of decimal digits whose value fits in `u32`.
pub open spec fn pid_of_line(line: Seq<u8>) -> Option<u32> {
    let d = unsigned_digits(line);
    if d.len() > 0 && (forall|k: int| 0 <= k < d.len() ==> is_digit(#[trigger] d[k]))
        && digits_value(d) <= u32::MAX {
        Some(digits_value(d) as u32)
    } else {
        None
    }
}

/// The lines of `s`, split at each line feed; the last one may be empty.
pub open spec fn split_lines(s: Seq<u8>) -> Seq<Seq<u8>>
    decreases s.len(),
{
    if s.len() == 0 {
        seq![Seq::empty()]
    } else {
        let ls = split_lines(s.drop_last());
        if s.last() == 10 {
            ls.push(Seq::empty())
        } else {
            ls.update(ls.len() - 1, ls.last().push(s.last()))
        }
    }
}

/// The process ids named by `lines`, in order; lines that name none are skipped.
pub open spec fn pids_of_lines(lines: Seq<Seq<u8>>) -> Seq<u32>
    decreases lines.len(),
{
    if lines.len() == 0 {
        Seq::empty()
    } else {
        pids_of_lines(lines.drop_last()) + opt_seq(pid_of_line(lines.last()))
    }
}

proof fn lemma_digits_prefix(d: Seq<u8>, m: int)
    requires
        0 <= m <= d.len(),
    ensures
        digits_value(d.subrange(0, m)) <= digits_value(d),
    decreases d.len() - m,
{
    if m < d.len() {
        lemma_digits_prefix(d, m + 1);
        assert(d.subrange(0, m + 1).drop_last() =~= d.subrange(0, m));
    } else {
        assert(d.subrange(0, m) =~= d);
    }
}

fn space_len_front_at(s: &[u8], i: usize) -> (r: usize)
    requires
        i <= s@.len(),
    ensures
        r == space_len_front(s@.subrange(i as int, s@.len() as int)),
{
    let ghost t = s@.subrange(i as int, s@.len() as int);
    let m = s.len() - i;
    if m >= 1 && ((9 <= s[i] && s[i] <= 13) || s[i] == 32) {
        assert(t[0] == s@[i as int]);
        1
    } else if m >= 2 && s[i] == 0xC2 && (s[i + 1] == 0x85 || s[i + 1] == 0xA0) {
        assert(t[0] == s@[i as int] && t[1] == s@[i + 1]);
        2
    } else if m >= 3 && s[i] == 0xE1 && s[i + 1] == 0x9A && s[i + 2] == 0x80 {
        assert(t[0] == s@[i as int] && t[1] == s@[i + 1] && t[2] == s@[i + 2]);
        3
    } else if m >= 3 && s[i] == 0xE2 && s[i + 1] == 0x80 && ((0x80 <= s[i + 2] && s[i + 2] <= 0x8A)
        || s[i + 2] == 0xA8 || s[i + 2] == 0xA9 || s[i + 2] == 0xAF) {
        assert(t[0] == s@[i as int] && t[1] == s@[i + 1] && t[2] == s@[i + 2]);
        3
    } else if m >= 3 && s[i] == 0xE2 && s[i + 1] == 0x81 && s[i + 2] == 0x9F {
        assert(t[0] == s@[i as int] && t[1] == s@[i + 1] && t[2] == s@[i + 2]);
        3
    } else if m >= 3 && s[i] == 0xE3 && s[i + 1] == 0x80 && s[i + 2] == 0x80 {
        assert(t[0] == s@[i as int] && t[1] == s@[i + 1] && t[2] == s@[i + 2]);
        3
    } else {
        assert(m >= 1 ==> t[0] == s@[i as int]);
        assert(m >= 2 ==> t[1] == s@[i + 1]);
        assert(m >= 3 ==> t[2] == s@[i + 2]);
        0
    }
}

fn space_len_back_at(s: &[u8], lo: usize, hi: usize) -> (r: usize)
    requires
        lo <= hi <= s@.len(),
    ensures
        r == space_len_back(s@.subrange(lo as int, hi as int)),
{
    let ghost t = s@.subrange(lo as int, hi as int);
    let m = hi - lo;
    if m >= 1 && ((9 <= s[hi - 1] && s[hi - 1] <= 13) || s[hi - 1] == 32) {
        assert(t[m - 1] == s@[hi - 1]);
        1
    } else if m >= 2 && s[hi - 2] == 0xC2 && (s[hi - 1] == 0x85 || s[hi - 1] == 0xA0) {
        assert(t[m - 1] == s@[hi - 1] && t[m - 2] == s@[hi - 2]);
        2
    } else if m >= 3 && s[hi - 3] == 0xE1 && s[hi - 2] == 0x9A && s[hi - 1] == 0x80 {
        assert(t[m - 1] == s@[hi - 1] && t[m - 2] == s@[hi - 2] && t[m - 3] == s@[hi - 3]);
        3
    } else if m >= 3 && s[hi - 3] == 0xE2 && s[hi - 2] == 0x80 && ((0x80 <= s[hi - 1] && s[hi - 1]
        <= 0x8A) || s[hi - 1] == 0xA8 || s[hi - 1] == 0xA9 || s[hi - 1] == 0xAF) {
        assert(t[m - 1] == s@[hi - 1] && t[m - 2] == s@[hi - 2] && t[m - 3] == s@[hi - 3]);
        3
    } else if m >= 3 && s[hi - 3] == 0xE2 && s[hi - 2] == 0x81 && s[hi - 1] == 0x9F {
        assert(t[m - 1] == s@[hi - 1] && t[m - 2] == s@[hi - 2] && t[m - 3] == s@[hi - 3]);
        3
    } else if m >= 3 && s[hi - 3] == 0xE3 && s[hi - 2] == 0x80 && s[hi - 1] == 0x80 {
        assert(t[m - 1] == s@[hi - 1] && t[m - 2] == s@[hi - 2] && t[m - 3] == s@[hi - 3]);
        3
    } else {
        assert(m >= 1 ==> t[m - 1] == s@[hi - 1]);
        assert(m >= 2 ==> t[m - 2] == s@[hi - 2]);
        assert(m >= 3 ==> t[m - 3] == s@[hi - 3]);
        0
    }
}

/// Bounds of `s` without its leading and trailing whitespace.
fn trim_bounds(s: &[u8]) -> (r: (usize, usize))
    ensures
        r.0 <= r.1 <= s@.len(),
        s@.subrange(r.0 as int, r.1 as int) == trimmed(s@),
{
    let n = s.len();
    let mut i: usize = 0;
    assert(s@.subrange(0, n as int) =~= s@);
    let mut k = space_len_front_at(s, 0);
    while k > 0
        invariant
            i <= n == s@.len(),
            k == space_len_front(s@.subrange(i as int, n as int)),
            trim_front(s@) == trim_front(s@.subrange(i as int, n as int)),
        decreases n - i,
    {
        assert(s@.subrange(i as int, n as int).subrange(k as int, n - i) =~= s@.subrange(
            i + k,
            n as int,
        ));
        i = i + k;
        k = space_len_front_at(s, i);
    }
    let mut j: usize = n;
    let mut k2 = space_len_back_at(s, i, j);
    while k2 > 0
        invariant
            i <= j <= n == s@.len(),
            k2 == space_len_back(s@.subrange(i as int, j as int)),
            trimmed(s@) == trim_back(s@.subrange(i as int, j as int)),
        decreases j,
    {
        assert(s@.subrange(i as int, j as int).subrange(0, j - i - k2) =~= s@.subrange(
            i as int,
            j - k2,
        ));
        j = j - k2;
        k2 = space_len_back_at(s, i, j);
    }
    (i, j)
}

/// Reads the process id on one line of a listing, as `str::parse::<u32>`
/// reads it.
pub fn parse_pid(line: &[u8]) -> (r: Option<u32>)
    ensures
        r == pid_of_line(line@),
{
    let n = line.len();
    let i: usize = if n > 0 && line[0] == 43 { 1 } else { 0 };
    let ghost d = line@.subrange(i as int, n as int);
    assert(d =~= unsigned_digits(line@));
    if i == n {
        return None;
    }
    let mut v: u64 = 0;
    let mut k: usize = i;
    while k < n
        invariant
            i <= k <= n == line@.len(),
            d == line@.subrange(i as int, n as int),
            d == unsigned_digits(line@),
            forall|m: int| i <= m < k ==> is_digit(#[trigger] line@[m]),
            v == digits_value(line@.subrange(i as int, k as int)),
            v <= u32::MAX,
        decreases n - k,
    {
        let c = line[k];
        if c < 48 || c > 57 {
            assert(!is_digit(d[k - i]));
            return None;
        }
        let nv: u64 = v * 10 + (c - 48) as u64;
        proof {
            assert(line@.subrange(i as int, k + 1).drop_last() =~= line@.subrange(i as int, k as int));
            assert(d.subrange(0, k + 1 - i) =~= line@.subrange(i as int, k + 1));
        }
        if nv > 4294967295 {
            proof {
                lemma_digits_prefix(d, k + 1 - i);
            }
            return None;
        }
        v = nv;
        k = k + 1;
    }
    assert(line@.subrange(i as int, k as int) =~= d);
    assert forall|m: int| 0 <= m < d.len() implies is_digit(#[trigger] d[m]) by {
        assert(d[m] == line@[i + m]);
    }
    Some(v as u32)
}

/// Reads the process ids of `out`, one per line; lines that name none,
/// empty ones among them, are skipped.
fn pids_from_lines(out: &[u8]) -> (r: Vec<u32>)
    ensures
        r@ == pids_of_lines(split_lines(out@)),
{
    let n = out.len();
    let mut r: Vec<u32> = Vec::new();
    let mut start: usize = 0;
    let mut i: usize = 0;
    let ghost mut done: Seq<Seq<u8>> = Seq::empty();
    assert(out@.subrange(0, 0) =~= Seq::<u8>::empty());
    assert(done.push(out@.subrange(0, 0)) =~= seq![Seq::<u8>::empty()]);
    while i < n
        invariant
            start <= i <= n == out@.len(),
            split_lines(out@.subrange(0, i as int)) == done.push(out@.subrange(start as int, i as int)),
            r@ == pids_of_lines(done),
        decreases n - i,
    {
        let ghost pre = out@.subrange(0, i as int);
        assert(out@.subrange(0, i + 1).drop_last() =~= pre);
        assert(out@.subrange(0, i + 1).last() == out@[i as int]);
        if out[i] == 10 {
            let p = parse_pid(&out[start..i]);
            let ghost cur = out@.subrange(start as int, i as int);
            match p {
                Some(pid) => r.push(pid),
                None => {},
            }
            proof {
                assert(done.push(cur).drop_last() =~= done);
                done = done.push(cur);
                assert(out@.subrange(i + 1, i + 1) =~= Seq::<u8>::empty());
            }
            start = i + 1;
        } else {
            proof {
                let ls = done.push(out@.subrange(start as int, i as int));
                assert(out@.subrange(start as int, i + 1) =~= out@.subrange(start as int, i as int).push(out@[i as int]));
                assert(ls.update(ls.len() - 1, ls.last().push(out@[i as int])) =~= done.push(out@.subrange(start as int, i + 1)));
            }
        }
        i = i + 1;
    }
    let p = parse_pid(&out[start..n]);
    let ghost cur = out@.subrange(start as int, n as int);
    match p {
        Some(pid) => r.push(pid),
        None => {},
    }
    proof {
        assert(out@.subrange(0, n as int) =~= out@);
        assert(done.push(cur).drop_last() =~= done);
    }
    r
}

/// Reads the process ids of a listing that names one per line, as `lsof -t`
/// prints them. Whitespace around the whole listing is ignored; lines that
/// name no process id, empty ones among them, are skipped.
pub fn pids_from_listing(out: &[u8]) -> (r: Vec<u32>)
    ensures
        r@ == pids_of_lines(split_lines(trimmed(out@))),
{
    let (lo, hi) = trim_bounds(out);
    pids_from_lines(&out[lo..hi])
}

} // verus!
