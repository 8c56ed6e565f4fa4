use vstd::prelude::*;
use crate::text::{
    chars_of, trim_bounds, trim, trim_start, trim_end, split_on, push_char, lemma_split_on_nonempty,
    is_white_space,
};

verus! {

broadcast use vstd::string::group_string_axioms;

/// The fields of a worker's report line `METRIC|name|ok|latency|peak`,
/// before the latency is read as a number.
#[derive(Debug, Clone)]
pub struct MetricFields {
    /// Whether the worker's fetch succeeded (the third field is `1`).
    pub success: bool,
    /// The fourth field, the latency in milliseconds, as written.
    pub latency_text: String,
    /// The fifth field, the worker's peak memory in KiB.
    pub peak_kb: u64,
}

pub open spec fn is_ascii_digit(c: char) -> bool {
    '0' <= c && c <= '9'
}

pub open spec fn digit_value(c: char) -> int {
    (c as int) - ('0' as int)
}

/// Every character of `s` is a decimal digit.
pub open spec fn all_digits(s: Seq<char>) -> bool {
    forall|i: int| 0 <= i < s.len() ==> is_ascii_digit(#[trigger] s[i])
}

/// The number the decimal digits `s` denote.
pub open spec fn digits_value(s: Seq<char>) -> int
    decreases s.len(),
{
    if s.len() == 0 {
        0
    } else {
        digits_value(s.drop_last()) * 10 + digit_value(s.last())
    }
}

/// What `str::parse::<u64>` accepts: an optional `+` followed by one or more
/// decimal digits whose value fits in a `u64`.
pub open spec fn parse_u64_spec(s: Seq<char>) -> Option<u64> {
    let d = if s.len() > 0 && s[0] == '+' { s.drop_first() } else { s };
    if d.len() > 0 && all_digits(d) && digits_value(d) <= u64::MAX {
        Some(digits_value(d) as u64)
    } else {
        None
    }
}

/// The tag that opens a report line.
pub open spec fn metric_tag() -> Seq<char> {
    seq!['M', 'E', 'T', 'R', 'I', 'C']
}

/// The report a line carries: after trimming white space the line must split
/// at `|` into exactly five fields, the first being `METRIC` and the fifth a
/// `u64`; success is the third field being `1`, and the fourth field is the
/// latency text.
pub open spec fn metric_line(line: Seq<char>) -> Option<(bool, Seq<char>, u64)> {
    let f = split_on(trim(line), '|');
    if f.len() == 5 && f[0] == metric_tag() && parse_u64_spec(f[4]) is Some {
        Some((f[2] == seq!['1'], f[3], parse_u64_spec(f[4]).unwrap()))
    } else {
        None
    }
}

pub open spec fn fields_view(v: Seq<Vec<char>>) -> Seq<Seq<char>> {
    v.map_values(|f: Vec<char>| f@)
}

/// Splits `chars[lo..hi]` at every `sep`.
pub fn split_chars(chars: &Vec<char>, lo: usize, hi: usize, sep: char) -> (parts: Vec<Vec<char>>)
    requires
        lo <= hi <= chars@.len(),
    ensures
        fields_view(parts@) == split_on(chars@.subrange(lo as int, hi as int), sep),
{
    let mut parts: Vec<Vec<char>> = Vec::new();
    let mut current: Vec<char> = Vec::new();
    let mut k = lo;
    proof {
        assert(chars@.subrange(lo as int, lo as int) =~= Seq::<char>::empty());
        assert(split_on(Seq::<char>::empty(), sep) =~= seq![Seq::<char>::empty()]);
        assert(fields_view(parts@).push(current@) =~= seq![Seq::<char>::empty()]);
    }
    while k < hi
        invariant
            lo <= k <= hi <= chars@.len(),
            fields_view(parts@).push(current@) == split_on(chars@.subrange(lo as int, k as int), sep),
        decreases hi - k,
    {
        let ghost before = chars@.subrange(lo as int, k as int);
        let ghost after = chars@.subrange(lo as int, k + 1);
        proof {
            assert(after.drop_last() =~= before);
            assert(after.last() == chars@[k as int]);
            lemma_split_on_nonempty(before, sep);
        }
        let c = chars[k];
        if c == sep {
            let done = current;
            parts.push(done);
            current = Vec::new();
            proof {
                assert(fields_view(parts@).push(current@) =~= split_on(before, sep).push(seq![]));
            }
        } else {
            current.push(c);
            proof {
                let p = split_on(before, sep);
                assert(fields_view(parts@).push(current@) =~= p.update(p.len() - 1, p.last().push(c)));
            }
        }
        k = k + 1;
    }
    let ghost last = current@;
    parts.push(current);
    proof {
        assert(fields_view(parts@) =~= fields_view(parts@).drop_last().push(last));
    }
    parts
}

/// `str::parse::<u64>` on the characters `s`.
pub fn parse_u64_chars(s: &Vec<char>) -> (r: Option<u64>)
    ensures
        r == parse_u64_spec(s@),
{
    let n = s.len();
    let start: usize = if n > 0 && s[0] == '+' { 1 } else { 0 };
    let ghost d = if s@.len() > 0 && s@[0] == '+' { s@.drop_first() } else { s@ };
    proof {
        assert(d =~= s@.subrange(start as int, n as int));
    }
    if start == n {
        return None;
    }
    let mut value: u64 = 0;
    let mut k = start;
    while k < n
        invariant
            start <= k <= n == s@.len(),
            d == s@.subrange(start as int, n as int),
            d == (if s@.len() > 0 && s@[0] == '+' { s@.drop_first() } else { s@ }),
            forall|i: int| start <= i < k ==> is_ascii_digit(#[trigger] s@[i]),
            value == digits_value(s@.subrange(start as int, k as int)),
        decreases n - k,
    {
        let c = s[k];
        proof {
            assert(s@.subrange(start as int, k + 1).drop_last() =~= s@.subrange(start as int, k as int));
        }
        if !('0' <= c && c <= '9') {
            proof {
                assert(d[k - start] == c);
                assert(!is_ascii_digit(d[k - start]));
                assert(!all_digits(d));
            }
            return None;
        }
        let digit: u64 = ((c as u32) - ('0' as u32)) as u64;
        proof {
            assert(digit == digit_value(c));
            assert(digits_value(s@.subrange(start as int, k + 1)) == value * 10 + digit);
            assert(forall|i: int| start <= i < k + 1 ==> is_ascii_digit(#[trigger] s@[i]));
            if all_digits(d) {
                assert forall|i: int| start <= i < n implies is_ascii_digit(#[trigger] s@[i]) by {
                    assert(s@[i] == d[i - start]);
                }
            }
        }
        match value.checked_mul(10) {
            Some(m) => match m.checked_add(digit) {
                Some(v) => {
                    value = v;
                },
                None => {
                    proof {
                        lemma_digits_prefix_bound(s@, start as int, k + 1, n as int);
                    }
                    return None;
                },
            },
            None => {
                proof {
                    lemma_digits_prefix_bound(s@, start as int, k + 1, n as int);
                }
                return None;
            },
        }
        k = k + 1;
    }
    proof {
        assert(s@.subrange(start as int, n as int) =~= d);
    }
    Some(value)
}

/// A longer run of digits denotes at least as large a number.
proof fn lemma_digits_prefix_bound(s: Seq<char>, start: int, k: int, n: int)
    requires
        0 <= start <= k <= n <= s.len(),
        forall|i: int| start <= i < k ==> is_ascii_digit(#[trigger] s[i]),
    ensures
        (forall|i: int| start <= i < n ==> is_ascii_digit(#[trigger] s[i])) ==> digits_value(
            s.subrange(start, k),
        ) <= digits_value(s.subrange(start, n)),
    decreases n - k,
{
    if k < n {
        if forall|i: int| start <= i < n ==> is_ascii_digit(#[trigger] s[i]) {
            lemma_digits_prefix_bound(s, start, k + 1, n);
            assert(s.subrange(start, k + 1).drop_last() =~= s.subrange(start, k));
            lemma_digits_nonneg(s.subrange(start, k));
            assert(is_ascii_digit(s[k]));
        }
    }
}

proof fn lemma_digits_nonneg(s: Seq<char>)
    requires
        forall|i: int| 0 <= i < s.len() ==> is_ascii_digit(#[trigger] s[i]),
    ensures
        digits_value(s) >= 0,
    decreases s.len(),
{
    if s.len() > 0 {
        assert(is_ascii_digit(s[s.len() - 1]));
        lemma_digits_nonneg(s.drop_last());
    }
}

fn chars_equal(a: &Vec<char>, lit: &[char]) -> (r: bool)
    ensures
        r == (a@ == lit@),
{
    if a.len() != lit.len() {
        return false;
    }
    let mut k: usize = 0;
    while k < a.len()
        invariant
            a@.len() == lit@.len(),
            k <= a@.len(),
            forall|i: int| 0 <= i < k ==> a@[i] == lit@[i],
        decreases a@.len() - k,
    {
        if a[k] != lit[k] {
            return false;
        }
        k = k + 1;
    }
    proof {
        assert(a@ =~= lit@);
    }
    true
}

fn string_of(chars: &Vec<char>) -> (s: String)
    ensures
        s@ == chars@,
{
    let mut s = String::new();
    let mut k: usize = 0;
    while k < chars.len()
        invariant
            k <= chars@.len(),
            s@ == chars@.take(k as int),
        decreases chars@.len() - k,
    {
        push_char(&mut s, chars[k]);
        proof {
            assert(chars@.take(k + 1) =~= chars@.take(k as int).push(chars@[k as int]));
        }
        k = k + 1;
    }
    proof {
        assert(chars@.take(k as int) =~= chars@);
    }
    s
}

/// Reads the fields of a worker's report line `METRIC|name|ok|latency|peak`:
/// the trimmed line must have exactly five `|`-separated fields, the first
/// `METRIC` and the fifth a `u64`; the third field `1` means success.
pub fn parse_metric_line(line: &str) -> (r: Option<MetricFields>)
    ensures
        match metric_line(line@) {
            Some((success, latency, peak)) => r matches Some(m) && m.success == success
                && m.latency_text@ == latency && m.peak_kb == peak,
            None => r is None,
        },
{
    let chars = chars_of(line);
    let (lo, hi) = trim_bounds(&chars);
    let fields = split_chars(&chars, lo, hi, '|');
    let ghost f = fields_view(fields@);
    if fields.len() != 5 {
        return None;
    }
    proof {
        assert(f[0] == fields@[0]@);
        assert(f[2] == fields@[2]@);
        assert(f[3] == fields@[3]@);
        assert(f[4] == fields@[4]@);
    }
    let tag = ['M', 'E', 'T', 'R', 'I', 'C'];
    proof {
        assert(tag@ =~= metric_tag());
    }
    if !chars_equal(&fields[0], &tag) {
        return None;
    }
    let peak = match parse_u64_chars(&fields[4]) {
        Some(p) => p,
        None => return None,
    };
    let one = ['1'];
    proof {
        assert(one@ =~= seq!['1']);
    }
    let success = chars_equal(&fields[2], &one);
    let latency_text = string_of(&fields[3]);
    Some(MetricFields { success, latency_text, peak_kb: peak })
}

/// The decimal digit character for `d` (0 to 9).
pub open spec fn digit_char(d: int) -> char {
    if d == 0 {
        '0'
    } else if d == 1 {
        '1'
    } else if d == 2 {
        '2'
    } else if d == 3 {
        '3'
    } else if d == 4 {
        '4'
    } else if d == 5 {
        '5'
    } else if d == 6 {
        '6'
    } else if d == 7 {
        '7'
    } else if d == 8 {
        '8'
    } else {
        '9'
    }
}

/// The decimal notation of `n`, without leading zeros.
pub open spec fn decimal(n: nat) -> Seq<char>
    decreases n,
{
    if n < 10 {
        seq![digit_char(n as int)]
    } else {
        decimal(n / 10).push(digit_char((n % 10) as int))
    }
}

/// The report line a worker prints: `METRIC|name|ok|latency|peak`, with
/// `ok` being `1` on success and `0` otherwise.
pub open spec fn metric_line_text(name: Seq<char>, success: bool, latency: Seq<char>, peak_kb: u64) -> Seq<char> {
    metric_tag() + seq!['|'] + name + seq!['|'] + seq![if success { '1' } else { '0' }] + seq!['|']
        + latency + seq!['|'] + decimal(peak_kb as nat)
}

fn digit_to_char(d: u64) -> (c: char)
    requires
        d < 10,
    ensures
        c == digit_char(d as int),
{
    if d == 0 {
        '0'
    } else if d == 1 {
        '1'
    } else if d == 2 {
        '2'
    } else if d == 3 {
        '3'
    } else if d == 4 {
        '4'
    } else if d == 5 {
        '5'
    } else if d == 6 {
        '6'
    } else if d == 7 {
        '7'
    } else if d == 8 {
        '8'
    } else {
        '9'
    }
}

/// Appends the decimal notation of `n` to `out`.
fn push_decimal(out: &mut String, n: u64)
    ensures
        final(out)@ == old(out)@ + decimal(n as nat),
    decreases n,
{
    if n < 10 {
        push_char(out, digit_to_char(n));
    } else {
        push_decimal(out, n / 10);
        push_char(out, digit_to_char(n % 10));
        proof {
            assert(decimal(n as nat) == decimal((n / 10) as nat).push(digit_char((n % 10) as int)));
        }
    }
}

fn push_str_chars(out: &mut String, s: &str)
    ensures
        final(out)@ == old(out)@ + s@,
{
    let ghost start = out@;
    for c in iter: s.chars()
        invariant
            iter.seq() == s@,
            out@ == start + s@.take(iter.index() as int),
    {
        push_char(out, c);
        proof {
            assert(s@.take(iter.index() + 1) =~= s@.take(iter.index() as int).push(c));
        }
    }
    proof {
        assert(s@.take(s@.len() as int) =~= s@);
    }
}

/// The report line a worker prints: `METRIC|name|ok|latency|peak`, with
/// `ok` being `1` on success and `0` otherwise, and the peak in decimal.
pub fn format_metric_line(name: &str, success: bool, latency_text: &str, peak_kb: u64) -> (line: String)
    ensures
        line@ == metric_line_text(name@, success, latency_text@, peak_kb),
{
    let mut line = String::new();
    push_char(&mut line, 'M');
    push_char(&mut line, 'E');
    push_char(&mut line, 'T');
    push_char(&mut line, 'R');
    push_char(&mut line, 'I');
    push_char(&mut line, 'C');
    push_char(&mut line, '|');
    push_str_chars(&mut line, name);
    push_char(&mut line, '|');
    push_char(&mut line, if success { '1' } else { '0' });
    push_char(&mut line, '|');
    push_str_chars(&mut line, latency_text);
    push_char(&mut line, '|');
    push_decimal(&mut line, peak_kb);
    proof {
        assert(line@ =~= metric_line_text(name@, success, latency_text@, peak_kb));
    }
    line
}

proof fn lemma_digit_char(d: int)
    requires
        0 <= d < 10,
    ensures
        is_ascii_digit(digit_char(d)),
        digit_value(digit_char(d)) == d,
{
}

proof fn lemma_decimal_digits(n: nat)
    ensures
        decimal(n).len() > 0,
        all_digits(decimal(n)),
        digits_value(decimal(n)) == n,
    decreases n,
{
    if n < 10 {
        lemma_digit_char(n as int);
        assert(decimal(n).drop_last() =~= Seq::<char>::empty());
        assert(digits_value(Seq::<char>::empty()) == 0);
        assert(digits_value(decimal(n)) == digits_value(decimal(n).drop_last()) * 10 + digit_value(
            decimal(n).last(),
        ));
    } else {
        lemma_decimal_digits(n / 10);
        lemma_digit_char((n % 10) as int);
        let d = decimal(n);
        assert(d.drop_last() =~= decimal(n / 10));
        assert forall|i: int| 0 <= i < d.len() implies is_ascii_digit(#[trigger] d[i]) by {
            if i < d.len() - 1 {
                assert(d[i] == decimal(n / 10)[i]);
            }
        }
        assert(n == (n / 10) * 10 + n % 10);
        assert(digits_value(d) == digits_value(d.drop_last()) * 10 + digit_value(d.last()));
        assert(d.last() == digit_char((n % 10) as int));
    }
}

proof fn lemma_split_append_free(s: Seq<char>, t: Seq<char>, sep: char)
    requires
        !t.contains(sep),
    ensures
        split_on(s + t, sep) == split_on(s, sep).update(
            split_on(s, sep).len() - 1,
            split_on(s, sep).last() + t,
        ),
    decreases t.len(),
{
    lemma_split_on_nonempty(s, sep);
    if t.len() == 0 {
        assert(s + t =~= s);
        assert(split_on(s, sep).last() + t =~= split_on(s, sep).last());
        assert(split_on(s, sep).update(split_on(s, sep).len() - 1, split_on(s, sep).last())
            =~= split_on(s, sep));
    } else {
        let u = t.drop_last();
        assert(!u.contains(sep)) by {
            if u.contains(sep) {
                let k = choose|k: int| 0 <= k < u.len() && u[k] == sep;
                assert(t[k] == sep);
            }
        }
        lemma_split_append_free(s, u, sep);
        assert((s + t).drop_last() =~= s + u);
        assert((s + t).last() == t.last());
        assert(t.last() != sep) by {
            assert(t[t.len() - 1] == t.last());
        }
        assert(split_on(s, sep).last() + u + seq![t.last()] =~= split_on(s, sep).last() + t);
        lemma_split_on_nonempty(s + u, sep);
        let p = split_on(s, sep);
        let q = split_on(s + u, sep);
        assert(q == p.update(p.len() - 1, p.last() + u));
        assert(q.len() == p.len());
        assert(q.last() == p.last() + u);
        assert(split_on(s + t, sep) == q.update(q.len() - 1, q.last().push(t.last())));
        assert(q.last().push(t.last()) =~= p.last() + t);
        assert(split_on(s + t, sep) =~= split_on(s, sep).update(
            split_on(s, sep).len() - 1,
            split_on(s, sep).last() + t,
        ));
    }
}

proof fn lemma_split_append_sep(s: Seq<char>, sep: char)
    ensures
        split_on(s + seq![sep], sep) == split_on(s, sep).push(seq![]),
{
    assert((s + seq![sep]).drop_last() =~= s);
}

/// A worker's report line reads back as what was reported, whenever neither
/// the name nor the latency text holds a `|`.
pub proof fn lemma_metric_line_roundtrip(name: Seq<char>, success: bool, latency: Seq<char>, peak_kb: u64)
    requires
        !name.contains('|'),
        !latency.contains('|'),
    ensures
        metric_line(metric_line_text(name, success, latency, peak_kb)) == Some((success, latency, peak_kb)),
{
    let flag = seq![if success { '1' } else { '0' }];
    let dec = decimal(peak_kb as nat);
    lemma_decimal_digits(peak_kb as nat);
    let bar = seq!['|'];
    let tag = metric_tag();
    let e = Seq::<char>::empty();
    assert(!tag.contains('|')) by {
        if tag.contains('|') {
            let k = choose|k: int| 0 <= k < tag.len() && tag[k] == '|';
        }
    }
    assert(!flag.contains('|')) by {
        if flag.contains('|') {
            let k = choose|k: int| 0 <= k < flag.len() && flag[k] == '|';
        }
    }
    assert(!dec.contains('|')) by {
        if dec.contains('|') {
            let k = choose|k: int| 0 <= k < dec.len() && dec[k] == '|';
            assert(is_ascii_digit(dec[k]));
        }
    }
    assert(split_on(e, '|') =~= seq![e]);
    lemma_split_append_free(e, tag, '|');
    assert(e + tag =~= tag);
    let p1 = tag + bar;
    lemma_split_append_sep(tag, '|');
    lemma_split_append_free(p1, name, '|');
    let p2 = p1 + name + bar;
    lemma_split_append_sep(p1 + name, '|');
    lemma_split_append_free(p2, flag, '|');
    let p3 = p2 + flag + bar;
    lemma_split_append_sep(p2 + flag, '|');
    lemma_split_append_free(p3, latency, '|');
    let p4 = p3 + latency + bar;
    lemma_split_append_sep(p3 + latency, '|');
    lemma_split_append_free(p4, dec, '|');
    let line = p4 + dec;
    assert(line =~= metric_line_text(name, success, latency, peak_kb));
    assert(split_on(line, '|') =~= seq![tag, name, flag, latency, dec]);
    // the line starts and ends with characters that are not white space
    assert(line[0] == 'M');
    assert(line.last() == dec.last()) by {
        assert(line[line.len() - 1] == dec[dec.len() - 1]);
    }
    assert(is_ascii_digit(dec[dec.len() - 1]));
    assert(!is_white_space(line[0]));
    assert(!is_white_space(line.last()));
    assert(trim_start(line) == line);
    assert(trim_end(line) == line);
    assert(trim(line) == line);
    assert(dec[0] != '+') by {
        assert(is_ascii_digit(dec[0]));
    }
    assert(parse_u64_spec(dec) == Some(peak_kb));
    assert((flag == seq!['1']) == success) by {
        if !success {
            assert(flag[0] != seq!['1'][0]);
        }
    }
}

} // verus!
