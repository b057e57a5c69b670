//! Small formatting and text utilities.
use vstd::prelude::*;
use vstd::string::StringExecFns;
use crate::extinf::opt_view;
use crate::text::{chars_of, string_of, string_of_range};

verus! {

/// The decimal digits of `n`.
pub open spec fn decimal(n: nat) -> Seq<char>
    decreases n,
{
    if n < 10 {
        seq![digit_char(n)]
    } else {
        decimal(n / 10).push(digit_char(n % 10))
    }
}

pub open spec fn digit_char(d: nat) -> char {
    if d == 0 { '0' } else if d == 1 { '1' } else if d == 2 { '2' } else if d == 3 { '3' }
    else if d == 4 { '4' } else if d == 5 { '5' } else if d == 6 { '6' } else if d == 7 { '7' }
    else if d == 8 { '8' } else { '9' }
}

fn digit(d: u64) -> (c: char)
    requires
        d < 10,
    ensures
        c == digit_char(d as nat),
{
    if d == 0 { '0' } else if d == 1 { '1' } else if d == 2 { '2' } else if d == 3 { '3' }
    else if d == 4 { '4' } else if d == 5 { '5' } else if d == 6 { '6' } else if d == 7 { '7' }
    else if d == 8 { '8' } else { '9' }
}

fn push_decimal(n: u64, out: &mut Vec<char>)
    ensures
        final(out)@ == old(out)@ + decimal(n as nat),
    decreases n,
{
    if n >= 10 {
        push_decimal(n / 10, out);
    }
    let ghost mid = out@;
    out.push(digit(n % 10));
    proof {
        if n >= 10 {
            assert(out@ =~= old(out)@ + decimal(n as nat));
        } else {
            assert(out@ =~= old(out)@ + decimal(n as nat));
        }
    }
}

/// `n` written in decimal.
pub fn decimal_string(n: u64) -> (r: String)
    ensures
        r@ == decimal(n as nat),
{
    let mut v: Vec<char> = Vec::new();
    push_decimal(n, &mut v);
    proof {
        assert(v@ =~= decimal(n as nat));
    }
    string_of(&v)
}

/// A duration of `s` whole seconds as hours, minutes and seconds; leading zero units left out.
pub open spec fn duration_text(s: nat) -> Seq<char> {
    let h = s / 3600;
    let m = (s % 3600) / 60;
    let sec = s % 60;
    if h > 0 {
        decimal(h) + "h "@ + decimal(m) + "m "@ + decimal(sec) + "s"@
    } else if m > 0 {
        decimal(m) + "m "@ + decimal(sec) + "s"@
    } else {
        decimal(sec) + "s"@
    }
}

/// A duration of `secs` whole seconds as `1h 1m 1s`, `1m 30s` or `30s`.
pub fn format_duration(secs: u64) -> (r: String)
    ensures
        r@ == duration_text(secs as nat),
{
    let hours = secs / 3600;
    let minutes = (secs % 3600) / 60;
    let seconds = secs % 60;
    let mut r = String::new();
    if hours > 0 {
        r.append(decimal_string(hours).as_str());
        r.append("h ");
    }
    if hours > 0 || minutes > 0 {
        r.append(decimal_string(minutes).as_str());
        r.append("m ");
    }
    r.append(decimal_string(seconds).as_str());
    r.append("s");
    proof {
        let h = secs as nat / 3600;
        let m = (secs as nat % 3600) / 60;
        let sec = secs as nat % 60;
        if hours > 0 {
            assert(r@ =~= decimal(h) + "h "@ + decimal(m) + "m "@ + decimal(sec) + "s"@);
        } else if minutes > 0 {
            assert(r@ =~= decimal(m) + "m "@ + decimal(sec) + "s"@);
        } else {
            assert(r@ =~= decimal(sec) + "s"@);
        }
    }
    r
}

/// Unit names for sizes, each 1024 times the one before.
pub open spec fn size_units() -> Seq<Seq<char>> {
    seq!["B"@, "KB"@, "MB"@, "GB"@, "TB"@]
}

/// The size in bytes at which unit `k` starts.
pub open spec fn unit_start(k: int) -> int {
    if k <= 0 {
        0
    } else if k == 1 {
        1024
    } else if k == 2 {
        1048576
    } else if k == 3 {
        1073741824
    } else if k == 4 {
        1099511627776
    } else {
        1125899906842624
    }
}

/// The unit a size of `bytes` is shown in: the largest of the five units that it reaches.
pub fn size_unit(bytes: u64) -> (r: usize)
    ensures
        r < 5,
        bytes >= unit_start(r as int),
        r < 4 ==> bytes < unit_start(r + 1),
{
    if bytes < 1024 {
        0
    } else if bytes < 1048576 {
        1
    } else if bytes < 1073741824 {
        2
    } else if bytes < 1099511627776 {
        3
    } else {
        4
    }
}

/// The name of unit `unit`.
pub fn size_unit_name(unit: usize) -> (r: String)
    requires
        unit < 5,
    ensures
        r@ == size_units()[unit as int],
{
    if unit == 0 {
        String::from_str("B")
    } else if unit == 1 {
        String::from_str("KB")
    } else if unit == 2 {
        String::from_str("MB")
    } else if unit == 3 {
        String::from_str("GB")
    } else {
        String::from_str("TB")
    }
}

/// The characters that cannot stand in a file name, and the control characters.
pub open spec fn is_unsafe_in_filename(c: char) -> bool {
    c == '/' || c == '\\' || c == ':' || c == '*' || c == '?' || c == '"' || c == '<' || c == '>'
        || c == '|' || c <= '\u{1f}' || ('\u{7f}' <= c && c <= '\u{9f}')
}

pub open spec fn filename_char(c: char) -> char {
    if is_unsafe_in_filename(c) {
        '_'
    } else {
        c
    }
}

/// `name` with every character that cannot stand in a file name replaced by `_`.
pub fn sanitize_filename(name: &str) -> (r: String)
    ensures
        r@ == name@.map_values(|c: char| filename_char(c)),
{
    let cs = chars_of(name);
    let mut out: Vec<char> = Vec::new();
    let mut i: usize = 0;
    while i < cs.len()
        invariant
            i <= cs.len(),
            cs@ == name@,
            out@ == cs@.subrange(0, i as int).map_values(|c: char| filename_char(c)),
        decreases cs.len() - i,
    {
        let c = cs[i];
        let unsafe_char = c == '/' || c == '\\' || c == ':' || c == '*' || c == '?' || c == '"'
            || c == '<' || c == '>' || c == '|' || c <= '\u{1f}' || ('\u{7f}' <= c && c
            <= '\u{9f}');
        out.push(if unsafe_char { '_' } else { c });
        i = i + 1;
        proof {
            assert(out@ =~= cs@.subrange(0, i as int).map_values(|c: char| filename_char(c)));
        }
    }
    proof {
        assert(cs@.subrange(0, cs.len() as int) =~= cs@);
    }
    string_of(&out)
}

/// Bytes that `c` takes in UTF-8.
pub open spec fn utf8_width(c: char) -> nat {
    if (c as u32) < 0x80 {
        1
    } else if (c as u32) < 0x800 {
        2
    } else if (c as u32) < 0x10000 {
        3
    } else {
        4
    }
}

/// Bytes that `s` takes in UTF-8.
pub open spec fn utf8_len(s: Seq<char>) -> nat
    decreases s.len(),
{
    if s.len() == 0 {
        0
    } else {
        utf8_len(s.drop_last()) + utf8_width(s.last())
    }
}

fn width(c: char) -> (r: usize)
    ensures
        r == utf8_width(c),
{
    let v = c as u32;
    if v < 0x80 {
        1
    } else if v < 0x800 {
        2
    } else if v < 0x10000 {
        3
    } else {
        4
    }
}

proof fn lemma_utf8_len_step(s: Seq<char>, i: int)
    requires
        0 <= i < s.len(),
    ensures
        utf8_len(s.subrange(0, i + 1)) == utf8_len(s.subrange(0, i)) + utf8_width(s[i]),
{
    assert(s.subrange(0, i + 1).drop_last() =~= s.subrange(0, i));
}

proof fn lemma_utf8_len_grows(s: Seq<char>, a: int, b: int)
    requires
        0 <= a < b <= s.len(),
    ensures
        utf8_len(s.subrange(0, a)) < utf8_len(s.subrange(0, b)),
    decreases b - a,
{
    lemma_utf8_len_step(s, b - 1);
    if a < b - 1 {
        lemma_utf8_len_grows(s, a, b - 1);
    }
}

/// Where a string longer than `max_len` bytes is cut: three bytes before, room for `...`.
pub open spec fn cut_point(max_len: int) -> int {
    if max_len >= 3 {
        max_len - 3
    } else {
        0
    }
}

/// `s` when it takes at most `max_len` bytes; else its first `max_len - 3` bytes followed by
/// `...`. The cut must fall between two characters.
pub fn truncate_string(s: &str, max_len: usize) -> (r: String)
    requires
        utf8_len(s@) > max_len ==> exists|k: int|
            0 <= k <= s@.len() && #[trigger] utf8_len(s@.subrange(0, k)) == cut_point(
                max_len as int,
            ),
    ensures
        utf8_len(s@) <= max_len ==> r@ == s@,
        utf8_len(s@) > max_len ==> exists|k: int|
            0 <= k <= s@.len() && #[trigger] utf8_len(s@.subrange(0, k)) == cut_point(max_len as int)
                && r@ == s@.subrange(0, k) + "..."@,
{
    let cs = chars_of(s);
    let mut total: u128 = 0;
    let mut i: usize = 0;
    while i < cs.len() && total <= max_len as u128
        invariant
            i <= cs.len(),
            cs@ == s@,
            total == utf8_len(cs@.subrange(0, i as int)),
            total <= max_len + 4,
        decreases cs.len() - i,
    {
        proof {
            lemma_utf8_len_step(cs@, i as int);
        }
        total = total + width(cs[i]) as u128;
        i = i + 1;
    }
    if total <= max_len as u128 {
        proof {
            assert(cs@.subrange(0, i as int) =~= cs@);
        }
        return String::from_str(s);
    }
    proof {
        if i < cs.len() {
            lemma_utf8_len_grows(cs@, i as int, cs.len() as int);
        }
        assert(cs@.subrange(0, cs.len() as int) =~= cs@);
    }
    let cut = if max_len >= 3 { max_len - 3 } else { 0 };
    let ghost target = choose|k: int|
        0 <= k <= s@.len() && #[trigger] utf8_len(s@.subrange(0, k)) == cut_point(max_len as int);
    let mut acc: usize = 0;
    let mut j: usize = 0;
    proof {
        assert(cs@.subrange(0, 0) =~= Seq::<char>::empty());
    }
    while acc < cut
        invariant
            cs@ == s@,
            0 <= target <= cs.len(),
            utf8_len(cs@.subrange(0, target)) == cut,
            j <= target,
            acc == utf8_len(cs@.subrange(0, j as int)),
            cut <= max_len,
        decreases target - j,
    {
        proof {
            if j == target {
                assert(false);
            }
            lemma_utf8_len_step(cs@, j as int);
            if j + 1 < target {
                lemma_utf8_len_grows(cs@, j + 1, target);
            }
        }
        acc = acc + width(cs[j]);
        j = j + 1;
    }
    proof {
        if j < target {
            lemma_utf8_len_grows(cs@, j as int, target);
        }
    }
    let mut r = string_of_range(&cs, 0, j);
    r.append("...");
    r
}

/// What the URL parser makes of `s`: `None` when it refuses `s`, else the host, if any.
pub uninterp spec fn url_parse_host(s: Seq<char>) -> Option<Option<Seq<char>>>;

/// Relies on `url::Url::parse`, and `Url::host_str` on what it returns: whether `s` parses
/// as a URL, and its host. The outcome depends on `s` alone.
#[verifier::external_body]
fn parse_url_host(s: &str) -> (r: Option<Option<String>>)
    ensures
        match r {
            Some(h) => url_parse_host(s@) == Some(opt_view(h)),
            None => url_parse_host(s@) is None,
        },
{
    match url::Url::parse(s) {
        Ok(u) => Some(u.host_str().map(|h| h.to_string())),
        Err(_) => None,
    }
}

/// The host of `url`, when it parses and has one.
pub fn extract_domain(url: &str) -> (r: Option<String>)
    ensures
        opt_view(r) == match url_parse_host(url@) {
            Some(h) => h,
            None => None,
        },
{
    match parse_url_host(url) {
        Some(h) => h,
        None => None,
    }
}

/// Whether `url` parses as a URL.
pub fn is_valid_url(url: &str) -> (r: bool)
    ensures
        r == url_parse_host(url@) is Some,
{
    parse_url_host(url).is_some()
}


/// What a retry loop does after a failed attempt.
#[derive(Clone, Copy, Debug, PartialEq, Eq)]
pub enum RetryDecision {
    /// Wait, then make the next attempt.
    TryAgain,
    /// Stop and report the last error.
    GiveUp,
}

/// The attempts of a retry loop: which one is running, out of how many.
pub struct Retry {
    attempt: u32,
    max_attempts: u32,
}

impl Retry {
    /// The number of the attempt in progress, from 1.
    pub closed spec fn attempt(&self) -> int {
        self.attempt as int
    }

    pub closed spec fn max_attempts(&self) -> int {
        self.max_attempts as int
    }

    #[verifier::type_invariant]
    spec fn wf(&self) -> bool {
        1 <= self.attempt <= self.max_attempts
    }

    /// A loop of at most `max_attempts` attempts, the first one starting.
    pub fn new(max_attempts: u32) -> (r: Retry)
        requires
            max_attempts >= 1,
        ensures
            r.attempt() == 1,
            r.max_attempts() == max_attempts,
    {
        Retry { attempt: 1, max_attempts }
    }

    pub fn attempt_number(&self) -> (r: u32)
        ensures
            r == self.attempt(),
    {
        self.attempt
    }

    /// After a failed attempt: try again while attempts remain, else give up.
    pub fn after_failure(&mut self) -> (d: RetryDecision)
        ensures
            final(self).max_attempts() == old(self).max_attempts(),
            old(self).attempt() < old(self).max_attempts() ==> d == RetryDecision::TryAgain
                && final(self).attempt() == old(self).attempt() + 1,
            old(self).attempt() >= old(self).max_attempts() ==> d == RetryDecision::GiveUp
                && final(self).attempt() == old(self).attempt(),
    {
        proof {
            use_type_invariant(&*self);
        }
        if self.attempt < self.max_attempts {
            self.attempt = self.attempt + 1;
            RetryDecision::TryAgain
        } else {
            RetryDecision::GiveUp
        }
    }
}

} // verus!
