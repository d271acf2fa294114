//! The counters as clients receive them: one JSON object with the three
//! counts, written without blanks, and read back from exactly that form.

use crate::stat::Metrics;
use vstd::prelude::*;
use vstd::string::*;

verus! {

/// The character of a decimal digit.
pub open spec fn digit_char(d: nat) -> char {
    if d == 0 {
        '0'
    } else if d == 1 {
        '1'
    } else if d == 2 {
        '2'
    } else if d == 3 {
        '3'
    } else if d == 4 {
        '4'
    } else if d == 5 {
        '5'
    } else if d == 6 {
        '6'
    } else if d == 7 {
        '7'
    } else if d == 8 {
        '8'
    } else {
        '9'
    }
}

/// The decimal digit that a character stands for, if it stands for one.
pub open spec fn digit_value(c: char) -> Option<nat> {
    if c == '0' {
        Some(0nat)
    } else if c == '1' {
        Some(1nat)
    } else if c == '2' {
        Some(2nat)
    } else if c == '3' {
        Some(3nat)
    } else if c == '4' {
        Some(4nat)
    } else if c == '5' {
        Some(5nat)
    } else if c == '6' {
        Some(6nat)
    } else if c == '7' {
        Some(7nat)
    } else if c == '8' {
        Some(8nat)
    } else if c == '9' {
        Some(9nat)
    } else {
        None
    }
}

/// A number in decimal digits, the most significant first, without leading
/// zeros.
pub open spec fn decimal(n: nat) -> Seq<char>
    decreases n,
{
    if n < 10 {
        seq![digit_char(n)]
    } else {
        decimal(n / 10).push(digit_char(n % 10))
    }
}

/// What opens the object and names the first count.
pub open spec fn hits_label() -> Seq<char> {
    seq!['{', '"', 'h', 'i', 't', 's', '"', ':']
}

/// What names the second count.
pub open spec fn cached_label() -> Seq<char> {
    seq![',', '"', 'c', 'a', 'c', 'h', 'e', 'd', '"', ':']
}

/// What names the third count.
pub open spec fn bytes_label() -> Seq<char> {
    seq![',', '"', 'b', 'y', 't', 'e', 's', '"', ':']
}

/// What closes the object.
pub open spec fn closing() -> Seq<char> {
    seq!['}']
}

/// The counters as a JSON object: `{"hits":1,"cached":0,"bytes":120}`.
pub open spec fn json_of(m: Metrics) -> Seq<char> {
    hits_label() + decimal(m.hits as nat) + cached_label() + decimal(m.cached as nat)
        + bytes_label() + decimal(m.bytes as nat) + closing()
}

/// The counters that a text holds: those whose JSON object it is, if it is
/// that of any.
pub open spec fn parsed(t: Seq<char>) -> Option<Metrics> {
    if exists|m: Metrics| t == json_of(m) {
        Some(choose|m: Metrics| t == json_of(m))
    } else {
        None
    }
}

/// The text `t` holds the number `v` in decimal from `pos` up to `end`, and
/// no digit follows it.
pub open spec fn number_at(t: Seq<char>, pos: int, v: nat, end: int) -> bool {
    &&& 0 <= pos < end <= t.len()
    &&& t.subrange(pos, end) == decimal(v)
    &&& (end == t.len() || digit_value(t[end]) is None)
}

/// The number that a row of digits stands for.
pub open spec fn value_of(digits: Seq<char>) -> nat
    decreases digits.len(),
{
    if digits.len() == 0 {
        0
    } else {
        match digit_value(digits.last()) {
            Some(d) => value_of(digits.drop_last()) * 10 + d,
            None => 0,
        }
    }
}

/// Every character of `s` is a digit.
pub open spec fn all_digits(s: Seq<char>) -> bool {
    forall|i: int| 0 <= i < s.len() ==> digit_value(#[trigger] s[i]) is Some
}

/// Of the decimal form of a number: it is a row of digits, not empty, that
/// stands for the number, and it begins with a zero only for zero itself.
proof fn lemma_decimal(n: nat)
    ensures
        decimal(n).len() >= 1,
        all_digits(decimal(n)),
        value_of(decimal(n)) == n,
        decimal(n)[0] == '0' <==> n == 0,
        n == 0 ==> decimal(n) == seq!['0'],
    decreases n,
{
    let s = decimal(n);
    if n >= 10 {
        lemma_decimal(n / 10);
        let init = decimal(n / 10);
        assert(s.drop_last() =~= init);
        assert(s.last() == digit_char(n % 10));
        assert(digit_value(s.last()) == Some(n % 10));
        assert(s[0] == init[0]);
        assert forall|i: int| 0 <= i < s.len() implies digit_value(#[trigger] s[i]) is Some by {
            if i < init.len() {
                assert(s[i] == init[i]);
            }
        }
        assert(value_of(s) == value_of(init) * 10 + n % 10);
    } else {
        assert(s.drop_last() =~= Seq::<char>::empty());
        assert(s.last() == digit_char(n));
        assert(digit_value(s.last()) == Some(n));
        assert(value_of(s.drop_last()) == 0);
        assert(value_of(s) == n);
    }
}

/// A row of digits without a leading zero is the decimal form of the
/// number it stands for.
proof fn lemma_digits_are_decimal(s: Seq<char>)
    requires
        s.len() >= 1,
        all_digits(s),
        s.len() == 1 || s[0] != '0',
    ensures
        decimal(value_of(s)) == s,
        s[0] != '0' ==> value_of(s) >= 1,
    decreases s.len(),
{
    let init = s.drop_last();
    let d = digit_value(s.last())->Some_0;
    assert(digit_value(s[s.len() - 1]) is Some);
    if s.len() == 1 {
        assert(init =~= Seq::<char>::empty());
        assert(value_of(init) == 0);
        assert(value_of(s) == d);
        assert(s =~= seq![digit_char(d)]);
    } else {
        assert(init[0] == s[0]);
        assert forall|i: int| 0 <= i < init.len() implies digit_value(#[trigger] init[i]) is Some by {
            assert(init[i] == s[i]);
        }
        lemma_digits_are_decimal(init);
        let v = value_of(init);
        assert(value_of(s) == v * 10 + d);
        assert((v * 10 + d) / 10 == v);
        assert((v * 10 + d) % 10 == d);
        assert(s =~= init.push(digit_char(d)));
    }
}

/// The number of a row of digits is at least the number of every row it
/// starts with.
proof fn lemma_value_grows(s: Seq<char>, k: int)
    requires
        all_digits(s),
        0 <= k <= s.len(),
    ensures
        value_of(s.subrange(0, k)) <= value_of(s),
    decreases s.len() - k,
{
    if k == s.len() {
        assert(s.subrange(0, k) =~= s);
    } else {
        let init = s.drop_last();
        assert(digit_value(s[s.len() - 1]) is Some);
        assert forall|i: int| 0 <= i < init.len() implies digit_value(#[trigger] init[i]) is Some by {
            assert(init[i] == s[i]);
        }
        assert(init.subrange(0, k) =~= s.subrange(0, k));
        lemma_value_grows(init, k);
    }
}

/// At one place of a text stands at most one number.
proof fn lemma_number_is_unique(t: Seq<char>, pos: int, v: nat, end: int, w: nat, stop: int)
    requires
        number_at(t, pos, v, end),
        number_at(t, pos, w, stop),
    ensures
        v == w,
        end == stop,
{
    lemma_decimal(v);
    lemma_decimal(w);
    if end < stop {
        assert(t.subrange(pos, stop)[end - pos] == t[end]);
    }
    if stop < end {
        assert(t.subrange(pos, end)[stop - pos] == t[stop]);
    }
}

/// Where the parts of the object stand in its text.
proof fn lemma_layout(m: Metrics)
    ensures
        ({
            let t = json_of(m);
            let a = hits_label().len() as int;
            let b = a + decimal(m.hits as nat).len();
            let c = b + cached_label().len();
            let d = c + decimal(m.cached as nat).len();
            let e = d + bytes_label().len();
            let f = e + decimal(m.bytes as nat).len();
            &&& t.len() == f + 1
            &&& t.subrange(0, a) == hits_label()
            &&& number_at(t, a, m.hits as nat, b)
            &&& t.subrange(b, c) == cached_label()
            &&& number_at(t, c, m.cached as nat, d)
            &&& t.subrange(d, e) == bytes_label()
            &&& number_at(t, e, m.bytes as nat, f)
            &&& t.subrange(f, f + 1) == closing()
        }),
{
    let t = json_of(m);
    let a = hits_label().len() as int;
    let b = a + decimal(m.hits as nat).len();
    let c = b + cached_label().len();
    let d = c + decimal(m.cached as nat).len();
    let e = d + bytes_label().len();
    let f = e + decimal(m.bytes as nat).len();
    lemma_decimal(m.hits as nat);
    lemma_decimal(m.cached as nat);
    lemma_decimal(m.bytes as nat);
    assert(t.subrange(0, a) =~= hits_label());
    assert(t.subrange(a, b) =~= decimal(m.hits as nat));
    assert(t.subrange(b, c) =~= cached_label());
    assert(t.subrange(c, d) =~= decimal(m.cached as nat));
    assert(t.subrange(d, e) =~= bytes_label());
    assert(t.subrange(e, f) =~= decimal(m.bytes as nat));
    assert(t.subrange(f, f + 1) =~= closing());
    assert(t[b] == cached_label()[0]);
    assert(t[d] == bytes_label()[0]);
    assert(t[f] == closing()[0]);
}

/// The text of the counters tells the counters apart: two sets of counters
/// with one text are the same.
pub proof fn lemma_text_tells_counters(a: Metrics, b: Metrics)
    requires
        json_of(a) == json_of(b),
    ensures
        a == b,
{
    lemma_layout(a);
    lemma_layout(b);
    let t = json_of(a);
    let p = hits_label().len() as int;
    let q = p + decimal(a.hits as nat).len();
    lemma_number_is_unique(t, p, a.hits as nat, q, b.hits as nat, p + decimal(b.hits as nat).len());
    let r = q + cached_label().len();
    let s = r + decimal(a.cached as nat).len();
    lemma_number_is_unique(
        t,
        r,
        a.cached as nat,
        s,
        b.cached as nat,
        r + decimal(b.cached as nat).len(),
    );
    let u = s + bytes_label().len();
    lemma_number_is_unique(
        t,
        u,
        a.bytes as nat,
        u + decimal(a.bytes as nat).len(),
        b.bytes as nat,
        u + decimal(b.bytes as nat).len(),
    );
}

/// The text of one decimal digit.
fn digit_text(d: u64) -> (text: &'static str)
    requires
        d < 10,
    ensures
        text@ == seq![digit_char(d as nat)],
{
    proof {
        reveal_strlit("0");
        reveal_strlit("1");
        reveal_strlit("2");
        reveal_strlit("3");
        reveal_strlit("4");
        reveal_strlit("5");
        reveal_strlit("6");
        reveal_strlit("7");
        reveal_strlit("8");
        reveal_strlit("9");
    }
    let text = if d == 0 {
        "0"
    } else if d == 1 {
        "1"
    } else if d == 2 {
        "2"
    } else if d == 3 {
        "3"
    } else if d == 4 {
        "4"
    } else if d == 5 {
        "5"
    } else if d == 6 {
        "6"
    } else if d == 7 {
        "7"
    } else if d == 8 {
        "8"
    } else {
        "9"
    };
    assert(text@ =~= seq![digit_char(d as nat)]);
    text
}

/// The digit that a character stands for.
fn digit_of(c: char) -> (d: Option<u64>)
    ensures
        match d {
            Some(d) => d < 10 && digit_value(c) == Some(d as nat),
            None => digit_value(c) is None,
        },
{
    if c == '0' {
        Some(0)
    } else if c == '1' {
        Some(1)
    } else if c == '2' {
        Some(2)
    } else if c == '3' {
        Some(3)
    } else if c == '4' {
        Some(4)
    } else if c == '5' {
        Some(5)
    } else if c == '6' {
        Some(6)
    } else if c == '7' {
        Some(7)
    } else if c == '8' {
        Some(8)
    } else if c == '9' {
        Some(9)
    } else {
        None
    }
}

/// Writes `n` in decimal behind `text`.
fn push_decimal(text: &mut String, n: u64)
    ensures
        final(text)@ == old(text)@ + decimal(n as nat),
    decreases n,
{
    if n >= 10 {
        push_decimal(text, n / 10);
    }
    text.append(digit_text(n % 10));
    assert(text@ =~= old(text)@ + decimal(n as nat));
}

/// Whether `label` stands in `text` at `pos`; if so, the position behind it.
fn read_label(text: &str, n: usize, pos: usize, label: &str) -> (end: Option<usize>)
    requires
        n == text@.len(),
        pos <= n,
    ensures
        match end {
            Some(e) => e == pos + label@.len() && e <= n && text@.subrange(pos as int, e as int)
                == label@,
            None => pos + label@.len() > n || text@.subrange(
                pos as int,
                pos + label@.len(),
            ) != label@,
        },
{
    let k = label.unicode_len();
    if k > n - pos {
        return None;
    }
    let mut i: usize = 0;
    while i < k
        invariant
            i <= k,
            k == label@.len(),
            n == text@.len(),
            pos + k <= n,
            forall|j: int| 0 <= j < i ==> text@[pos + j] == label@[j],
        decreases k - i,
    {
        if text.get_char(pos + i) != label.get_char(i) {
            assert(text@.subrange(pos as int, pos + k)[i as int] == text@[pos + i]);
            return None;
        }
        i += 1;
    }
    assert(text@.subrange(pos as int, pos + k) =~= label@);
    Some(pos + k)
}

/// The number that stands in `text` at `pos`, with the position behind it.
/// A number stands there only in the form in which it is written: at least
/// one digit, no zero before other digits, and no larger than a counter
/// can hold.
fn read_number(text: &str, n: usize, pos: usize) -> (r: Option<(u64, usize)>)
    requires
        n == text@.len(),
        pos <= n,
    ensures
        match r {
            Some((v, end)) => number_at(text@, pos as int, v as nat, end as int),
            None => forall|v: u64, end: int| !number_at(text@, pos as int, v as nat, end),
        },
{
    let ghost t = text@;
    if pos >= n {
        return None;
    }
    let first = match digit_of(text.get_char(pos)) {
        Some(d) => d,
        None => {
            assert forall|v: u64, end: int| !number_at(t, pos as int, v as nat, end) by {
                if number_at(t, pos as int, v as nat, end) {
                    lemma_decimal(v as nat);
                    assert(t.subrange(pos as int, end)[0] == t[pos as int]);
                }
            }
            return None;
        },
    };
    let mut value: u64 = first;
    let mut end: usize = pos + 1;
    assert(t.subrange(pos as int, end as int) =~= seq![t[pos as int]]);
    assert(value_of(t.subrange(pos as int, end as int)) == value) by {
        assert(t.subrange(pos as int, end as int).drop_last() =~= Seq::<char>::empty());
        assert(value_of(Seq::<char>::empty()) == 0);
    }
    while end < n
        invariant
            t == text@,
            n == t.len(),
            pos < end <= n,
            all_digits(t.subrange(pos as int, end as int)),
            value == value_of(t.subrange(pos as int, end as int)),
            digit_value(t[pos as int]) == Some(first as nat),
            first == 0 ==> end == pos + 1,
        ensures
            end == n || digit_value(t[end as int]) is None,
        decreases n - end,
    {
        let d = match digit_of(text.get_char(end)) {
            Some(d) => d,
            None => break,
        };
        let ghost run = t.subrange(pos as int, end + 1);
        assert(run.drop_last() =~= t.subrange(pos as int, end as int));
        assert(run.last() == t[end as int]);
        assert(all_digits(run)) by {
            assert forall|i: int| 0 <= i < run.len() implies digit_value(#[trigger] run[i]) is Some by {
                if i < run.len() - 1 {
                    assert(run[i] == t.subrange(pos as int, end as int)[i]);
                }
            }
        }
        assert(value_of(run) == value * 10 + d);
        if first == 0 || value > (u64::MAX - d) / 10 {
            // a zero before another digit, or a number too large
            assert forall|v: u64, stop: int| !number_at(t, pos as int, v as nat, stop) by {
                if number_at(t, pos as int, v as nat, stop) {
                    let whole = t.subrange(pos as int, stop);
                    lemma_decimal(v as nat);
                    if stop <= end {
                        assert(run[stop - pos] == t[stop]);
                    } else {
                        assert(whole[0] == t[pos as int]);
                        assert(whole.subrange(0, end + 1 - pos) =~= run);
                        lemma_value_grows(whole, end + 1 - pos);
                    }
                }
            }
            return None;
        }
        value = value * 10 + d;
        end += 1;
    }
    proof {
        let run = t.subrange(pos as int, end as int);
        assert(run[0] == t[pos as int]);
        lemma_digits_are_decimal(run);
    }
    Some((value, end))
}

impl Metrics {
    /// The counters as a JSON object.
    pub fn to_json(&self) -> (text: String)
        ensures
            text@ == json_of(*self),
    {
        proof {
            reveal_strlit("{\"hits\":");
            reveal_strlit(",\"cached\":");
            reveal_strlit(",\"bytes\":");
            reveal_strlit("}");
            assert("{\"hits\":"@ =~= hits_label());
            assert(",\"cached\":"@ =~= cached_label());
            assert(",\"bytes\":"@ =~= bytes_label());
            assert("}"@ =~= closing());
        }
        let mut text = "{\"hits\":".to_owned();
        push_decimal(&mut text, self.hits);
        text.append(",\"cached\":");
        push_decimal(&mut text, self.cached);
        text.append(",\"bytes\":");
        push_decimal(&mut text, self.bytes);
        text.append("}");
        text
    }

    /// The counters that `text` holds, if it is the JSON object of any, in
    /// the form in which [`Metrics::to_json`] writes it.
    pub fn from_json(text: &str) -> (r: Option<Metrics>)
        ensures
            r == parsed(text@),
            r matches Some(m) ==> text@ == json_of(m),
    {
        proof {
            reveal_strlit("{\"hits\":");
            reveal_strlit(",\"cached\":");
            reveal_strlit(",\"bytes\":");
            reveal_strlit("}");
            assert("{\"hits\":"@ =~= hits_label());
            assert(",\"cached\":"@ =~= cached_label());
            assert(",\"bytes\":"@ =~= bytes_label());
            assert("}"@ =~= closing());
        }
        let ghost t = text@;
        let n = text.unicode_len();
        let a = match read_label(text, n, 0, "{\"hits\":") {
            Some(a) => a,
            None => {
                assert forall|m: Metrics| t != json_of(m) by {
                    lemma_layout(m);
                }
                return None;
            },
        };
        let (hits, b) = match read_number(text, n, a) {
            Some(found) => found,
            None => {
                assert forall|m: Metrics| t != json_of(m) by {
                    lemma_layout(m);
                }
                return None;
            },
        };
        let c = match read_label(text, n, b, ",\"cached\":") {
            Some(c) => c,
            None => {
                assert forall|m: Metrics| t != json_of(m) by {
                    lemma_layout(m);
                    if t == json_of(m) {
                        lemma_agree(t, m, a as int, hits as nat, b as int, m.hits as nat);
                    }
                }
                return None;
            },
        };
        let (cached, d) = match read_number(text, n, c) {
            Some(found) => found,
            None => {
                assert forall|m: Metrics| t != json_of(m) by {
                    lemma_layout(m);
                    if t == json_of(m) {
                        lemma_agree(t, m, a as int, hits as nat, b as int, m.hits as nat);
                    }
                }
                return None;
            },
        };
        let e = match read_label(text, n, d, ",\"bytes\":") {
            Some(e) => e,
            None => {
                assert forall|m: Metrics| t != json_of(m) by {
                    lemma_layout(m);
                    if t == json_of(m) {
                        lemma_agree(t, m, a as int, hits as nat, b as int, m.hits as nat);
                        lemma_agree(t, m, c as int, cached as nat, d as int, m.cached as nat);
                    }
                }
                return None;
            },
        };
        let (bytes, f) = match read_number(text, n, e) {
            Some(found) => found,
            None => {
                assert forall|m: Metrics| t != json_of(m) by {
                    lemma_layout(m);
                    if t == json_of(m) {
                        lemma_agree(t, m, a as int, hits as nat, b as int, m.hits as nat);
                        lemma_agree(t, m, c as int, cached as nat, d as int, m.cached as nat);
                    }
                }
                return None;
            },
        };
        let g = match read_label(text, n, f, "}") {
            Some(g) => g,
            None => {
                assert forall|m: Metrics| t != json_of(m) by {
                    lemma_layout(m);
                    if t == json_of(m) {
                        lemma_agree(t, m, a as int, hits as nat, b as int, m.hits as nat);
                        lemma_agree(t, m, c as int, cached as nat, d as int, m.cached as nat);
                        lemma_agree(t, m, e as int, bytes as nat, f as int, m.bytes as nat);
                    }
                }
                return None;
            },
        };
        if g != n {
            assert forall|m: Metrics| t != json_of(m) by {
                lemma_layout(m);
                if t == json_of(m) {
                    lemma_agree(t, m, a as int, hits as nat, b as int, m.hits as nat);
                    lemma_agree(t, m, c as int, cached as nat, d as int, m.cached as nat);
                    lemma_agree(t, m, e as int, bytes as nat, f as int, m.bytes as nat);
                }
            }
            return None;
        }
        let m = Metrics { hits, cached, bytes };
        proof {
            lemma_written_is_read_back(m);
        }
        assert(t =~= t.subrange(0, a as int) + t.subrange(a as int, b as int) + t.subrange(
            b as int,
            c as int,
        ) + t.subrange(c as int, d as int) + t.subrange(d as int, e as int) + t.subrange(
            e as int,
            f as int,
        ) + t.subrange(f as int, g as int));
        Some(m)
    }
}

/// Where the text of the counters `m` holds a number at `pos`, it is the
/// number that was read there, and it ends where that one ended.
proof fn lemma_agree(t: Seq<char>, m: Metrics, pos: int, read: nat, end: int, written: nat)
    requires
        number_at(t, pos, read, end),
        number_at(t, pos, written, pos + decimal(written).len()),
    ensures
        read == written,
        end == pos + decimal(written).len(),
{
    lemma_number_is_unique(t, pos, read, end, written, pos + decimal(written).len());
}

/// What is written is read back: the text of any counters holds those
/// counters and no others.
pub proof fn lemma_written_is_read_back(m: Metrics)
    ensures
        parsed(json_of(m)) == Some(m),
{
    let read = choose|r: Metrics| json_of(m) == json_of(r);
    lemma_text_tells_counters(m, read);
}

} // verus!
