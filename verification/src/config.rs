//! Configuration parsing: `key: value` lines.
//!
//! The configuration format is one pair per line, key and value separated by
//! the first colon, both trimmed of surrounding ASCII whitespace.  A line
//! without a colon contributes nothing; text after a second colon is
//! ignored.  When one key appears on several lines the last line wins, as it
//! would in a map filled in order.  The surrounding application reads the
//! file and hands the raw lines in as bytes; everything after that is
//! verified here.

use vstd::prelude::*;

verus! {

/// Whether `b` is an ASCII whitespace byte (tab through carriage return, or
/// space) — what gets trimmed around keys and values.
pub open spec fn spec_is_space(b: u8) -> bool {
    b == 32 || (9 <= b && b <= 13)
}

/// Whether `b` is an ASCII decimal digit.
pub open spec fn spec_is_digit(b: u8) -> bool {
    48 <= b <= 57
}

/// Index of the first colon in `s`, or `s.len()` if `s` holds none.
pub open spec fn spec_first_colon(s: Seq<u8>) -> int
    decreases s.len(),
{
    if s.len() == 0 {
        0
    } else if s[0] == 58 {
        0
    } else {
        1 + spec_first_colon(s.skip(1))
    }
}

pub proof fn lemma_first_colon(s: Seq<u8>)
    ensures
        0 <= spec_first_colon(s) <= s.len(),
        spec_first_colon(s) < s.len() ==> s[spec_first_colon(s)] == 58,
        forall|j: int| 0 <= j < spec_first_colon(s) ==> s[j] != 58,
    decreases s.len(),
{
    if s.len() > 0 && s[0] != 58 {
        lemma_first_colon(s.skip(1));
        assert forall|j: int| 0 <= j < spec_first_colon(s) implies s[j] != 58 by {
            if j > 0 {
                assert(s.skip(1)[j - 1] == s[j]);
            }
        }
        if spec_first_colon(s) < s.len() {
            assert(s.skip(1)[spec_first_colon(s) - 1] == s[spec_first_colon(s)]);
        }
    }
}

/// `s` without its leading whitespace bytes.
pub open spec fn spec_trim_front(s: Seq<u8>) -> Seq<u8>
    decreases s.len(),
{
    if s.len() > 0 && spec_is_space(s[0]) {
        spec_trim_front(s.skip(1))
    } else {
        s
    }
}

/// `s` without its trailing whitespace bytes.
pub open spec fn spec_trim_back(s: Seq<u8>) -> Seq<u8>
    decreases s.len(),
{
    if s.len() > 0 && spec_is_space(s.last()) {
        spec_trim_back(s.drop_last())
    } else {
        s
    }
}

/// `s` without leading and trailing whitespace.
pub open spec fn spec_trim(s: Seq<u8>) -> Seq<u8> {
    spec_trim_back(spec_trim_front(s))
}

proof fn lemma_trim_front_skip(s: Seq<u8>, a: int)
    requires
        0 <= a <= s.len(),
        forall|j: int| 0 <= j < a ==> spec_is_space(#[trigger] s[j]),
        a == s.len() || !spec_is_space(s[a]),
    ensures
        spec_trim_front(s) == s.skip(a),
    decreases a,
{
    if a == 0 {
        assert(s.skip(0) =~= s);
    } else {
        assert(spec_is_space(s[0]));
        assert forall|j: int| 0 <= j < a - 1 implies spec_is_space(#[trigger] s.skip(1)[j]) by {
            assert(s.skip(1)[j] == s[j + 1]);
        }
        if a < s.len() {
            assert(s.skip(1)[a - 1] == s[a]);
        }
        lemma_trim_front_skip(s.skip(1), a - 1);
        assert(s.skip(1).skip(a - 1) =~= s.skip(a));
    }
}

proof fn lemma_trim_back_take(s: Seq<u8>, b: int)
    requires
        0 <= b <= s.len(),
        forall|j: int| b <= j < s.len() ==> spec_is_space(#[trigger] s[j]),
        b == 0 || !spec_is_space(s[b - 1]),
    ensures
        spec_trim_back(s) == s.take(b),
    decreases s.len() - b,
{
    if b == s.len() {
        assert(s.take(b) =~= s);
    } else {
        assert(spec_is_space(s.last()));
        assert forall|j: int| b <= j < s.len() - 1 implies spec_is_space(
            #[trigger] s.drop_last()[j],
        ) by {
            assert(s.drop_last()[j] == s[j]);
        }
        if b > 0 {
            assert(s.drop_last()[b - 1] == s[b - 1]);
        }
        lemma_trim_back_take(s.drop_last(), b);
        assert(s.drop_last().take(b) =~= s.take(b));
    }
}

fn is_space(b: u8) -> (r: bool)
    ensures
        r == spec_is_space(b),
{
    b == 32 || (9 <= b && b <= 13)
}

/// Index of the first colon at or after `start`, or the line length.
fn find_colon_from(line: &Vec<u8>, start: usize) -> (r: usize)
    requires
        start <= line@.len(),
    ensures
        r as int == start + spec_first_colon(line@.skip(start as int)),
        start <= r <= line@.len(),
{
    proof {
        lemma_first_colon(line@.skip(start as int));
    }
    let mut i: usize = start;
    while i < line.len()
        invariant
            start <= i <= line@.len(),
            spec_first_colon(line@.skip(start as int)) == (i - start) + spec_first_colon(
                line@.skip(i as int),
            ),
        decreases line@.len() - i,
    {
        proof {
            assert(line@.skip(i as int)[0] == line@[i as int]);
        }
        if line[i] == 58 {
            return i;
        }
        proof {
            assert(line@.skip(i as int).skip(1) =~= line@.skip(i + 1));
        }
        i = i + 1;
    }
    proof {
        assert(line@.skip(i as int).len() == 0);
    }
    i
}

/// A copy of `line[from..to]`.
fn copy_range(line: &Vec<u8>, from: usize, to: usize) -> (r: Vec<u8>)
    requires
        from <= to <= line@.len(),
    ensures
        r@ == line@.subrange(from as int, to as int),
{
    let mut out: Vec<u8> = Vec::new();
    let mut i: usize = from;
    while i < to
        invariant
            from <= i <= to <= line@.len(),
            out@.len() == i - from,
            forall|j: int| 0 <= j < out@.len() ==> out@[j] == line@[from + j],
        decreases to - i,
    {
        out.push(line[i]);
        i = i + 1;
    }
    proof {
        assert(out@ =~= line@.subrange(from as int, to as int));
    }
    out
}

/// A copy of `bytes` without leading and trailing ASCII whitespace.
pub fn trim(bytes: &Vec<u8>) -> (r: Vec<u8>)
    ensures
        r@ == spec_trim(bytes@),
{
    let mut a: usize = 0;
    while a < bytes.len() && is_space(bytes[a])
        invariant
            a <= bytes@.len(),
            forall|j: int| 0 <= j < a ==> spec_is_space(#[trigger] bytes@[j]),
        decreases bytes@.len() - a,
    {
        a = a + 1;
    }
    let mut b: usize = bytes.len();
    while b > a && is_space(bytes[b - 1])
        invariant
            a <= b <= bytes@.len(),
            forall|j: int| b <= j < bytes@.len() ==> spec_is_space(#[trigger] bytes@[j]),
        decreases b,
    {
        b = b - 1;
    }
    let out = copy_range(bytes, a, b);
    proof {
        lemma_trim_front_skip(bytes@, a as int);
        let tail = bytes@.skip(a as int);
        assert forall|j: int| b - a <= j < tail.len() implies spec_is_space(#[trigger] tail[j]) by {
            assert(tail[j] == bytes@[a + j]);
        }
        if b > a {
            assert(tail[b - a - 1] == bytes@[b - 1]);
        }
        lemma_trim_back_take(tail, b - a);
        assert(out@ =~= tail.take(b - a));
    }
    out
}

/// What one configuration line means: nothing if it has no colon, else the
/// trimmed text before the first colon paired with the trimmed text between
/// the first colon and the second one (or the end of the line).
pub open spec fn spec_parse_config_line(s: Seq<u8>) -> Option<(Seq<u8>, Seq<u8>)> {
    let i = spec_first_colon(s);
    if i == s.len() {
        None
    } else {
        let rest = s.skip(i + 1);
        Some((spec_trim(s.take(i)), spec_trim(rest.take(spec_first_colon(rest)))))
    }
}

/// Parses one `key: value` line; yields nothing for a line without a colon.
pub fn parse_config_line(line: &Vec<u8>) -> (r: Option<(Vec<u8>, Vec<u8>)>)
    ensures
        match r {
            Some(kv) => spec_parse_config_line(line@) == Some((kv.0@, kv.1@)),
            None => spec_parse_config_line(line@) is None,
        },
{
    proof {
        assert(line@.skip(0) =~= line@);
    }
    let i = find_colon_from(line, 0);
    if i == line.len() {
        return None;
    }
    let e = find_colon_from(line, i + 1);
    let key = trim(&copy_range(line, 0, i));
    let value = trim(&copy_range(line, i + 1, e));
    proof {
        let rest = line@.skip(i + 1);
        assert(line@.subrange(0, i as int) =~= line@.take(i as int));
        assert(line@.subrange(i + 1, e as int) =~= rest.take(spec_first_colon(rest)));
    }
    Some((key, value))
}

/// The pairs a whole configuration yields: every line with a colon, parsed,
/// in order.
pub open spec fn spec_parse_config(lines: Seq<Vec<u8>>) -> Seq<(Seq<u8>, Seq<u8>)>
    decreases lines.len(),
{
    if lines.len() == 0 {
        Seq::empty()
    } else {
        let rest = spec_parse_config(lines.drop_last());
        match spec_parse_config_line(lines.last()@) {
            Some(p) => rest.push(p),
            None => rest,
        }
    }
}

/// Parses every line, keeping the pairs of the lines that have one.
pub fn parse_config_lines(lines: &Vec<Vec<u8>>) -> (cfg: Vec<(Vec<u8>, Vec<u8>)>)
    ensures
        cfg@.len() == spec_parse_config(lines@).len(),
        forall|i: int|
            0 <= i < cfg@.len() ==> ((#[trigger] cfg@[i]).0@, cfg@[i].1@) == spec_parse_config(
                lines@,
            )[i],
{
    let mut cfg: Vec<(Vec<u8>, Vec<u8>)> = Vec::new();
    let mut i: usize = 0;
    while i < lines.len()
        invariant
            0 <= i <= lines@.len(),
            cfg@.len() == spec_parse_config(lines@.take(i as int)).len(),
            forall|j: int|
                0 <= j < cfg@.len() ==> ((#[trigger] cfg@[j]).0@, cfg@[j].1@) == spec_parse_config(
                    lines@.take(i as int),
                )[j],
        decreases lines@.len() - i,
    {
        match parse_config_line(&lines[i]) {
            Some(kv) => {
                cfg.push(kv);
            },
            None => {},
        }
        proof {
            assert(lines@.take(i + 1).drop_last() =~= lines@.take(i as int));
            assert(lines@.take(i + 1).last() == lines@[i as int]);
        }
        i = i + 1;
    }
    proof {
        assert(lines@.take(lines@.len() as int) =~= lines@);
    }
    cfg
}

/// The value stored for `key`: of all pairs with that key, the last one —
/// a later line overrides an earlier one, as in a map filled in order.
pub open spec fn spec_lookup(cfg: Seq<(Vec<u8>, Vec<u8>)>, key: Seq<u8>) -> Option<Seq<u8>>
    decreases cfg.len(),
{
    if cfg.len() == 0 {
        None
    } else if cfg.last().0@ == key {
        Some(cfg.last().1@)
    } else {
        spec_lookup(cfg.drop_last(), key)
    }
}

fn bytes_eq(a: &Vec<u8>, b: &Vec<u8>) -> (r: bool)
    ensures
        r == (a@ == b@),
{
    if a.len() != b.len() {
        return false;
    }
    let mut i: usize = 0;
    while i < a.len()
        invariant
            a@.len() == b@.len(),
            0 <= i <= a@.len(),
            forall|j: int| 0 <= j < i ==> a@[j] == b@[j],
        decreases a@.len() - i,
    {
        if a[i] != b[i] {
            return false;
        }
        i = i + 1;
    }
    proof {
        assert(a@ =~= b@);
    }
    true
}

/// Looks `key` up among the parsed pairs; the last pair with that key wins.
pub fn lookup<'a>(cfg: &'a Vec<(Vec<u8>, Vec<u8>)>, key: &Vec<u8>) -> (r: Option<&'a Vec<u8>>)
    ensures
        match r {
            Some(v) => spec_lookup(cfg@, key@) == Some(v@),
            None => spec_lookup(cfg@, key@) is None,
        },
{
    let mut i: usize = cfg.len();
    proof {
        assert(cfg@.take(i as int) =~= cfg@);
    }
    while i > 0
        invariant
            0 <= i <= cfg@.len(),
            spec_lookup(cfg@, key@) == spec_lookup(cfg@.take(i as int), key@),
        decreases i,
    {
        i = i - 1;
        proof {
            assert(cfg@.take(i + 1).drop_last() =~= cfg@.take(i as int));
            assert(cfg@.take(i + 1).last() == cfg@[i as int]);
        }
        if bytes_eq(&cfg[i].0, key) {
            return Some(&cfg[i].1);
        }
    }
    None
}

/// The number the digit string denotes, most significant digit first.
pub open spec fn spec_digits_value(s: Seq<u8>) -> int
    decreases s.len(),
{
    if s.len() == 0 {
        0
    } else {
        spec_digits_value(s.drop_last()) * 10 + (s.last() - 48)
    }
}

pub open spec fn spec_all_digits(s: Seq<u8>) -> bool {
    forall|j: int| 0 <= j < s.len() ==> spec_is_digit(#[trigger] s[j])
}

/// What parsing `s` as an unsigned 32-bit number yields: an optional
/// leading plus sign, then at least one digit, and a value that fits.
pub open spec fn spec_parse_u32(s: Seq<u8>) -> Option<u32> {
    let digits = if s.len() > 0 && s[0] == 43 {
        s.skip(1)
    } else {
        s
    };
    if digits.len() > 0 && spec_all_digits(digits) && spec_digits_value(digits) <= u32::MAX {
        Some(spec_digits_value(digits) as u32)
    } else {
        None
    }
}

proof fn lemma_digits_value_grows(s: Seq<u8>, i: int)
    requires
        0 <= i <= s.len(),
        spec_all_digits(s),
        0 <= spec_digits_value(s.take(i)),
    ensures
        spec_digits_value(s.take(i)) <= spec_digits_value(s),
    decreases s.len() - i,
{
    if i < s.len() {
        assert(s.take(i + 1).drop_last() =~= s.take(i));
        assert(s.take(i + 1).last() == s[i]);
        assert(spec_is_digit(s[i]));
        assert(spec_digits_value(s.take(i)) <= spec_digits_value(s.take(i + 1)));
        lemma_digits_value_grows(s, i + 1);
    } else {
        assert(s.take(i) =~= s);
    }
}

/// Parses the bytes as an unsigned 32-bit number, as the configuration's
/// numeric fields demand: an optional leading plus sign, then decimal
/// digits.  Yields nothing for an empty or malformed string or a value
/// above `u32::MAX`.
pub fn parse_u32(s: &Vec<u8>) -> (r: Option<u32>)
    ensures
        r == spec_parse_u32(s@),
{
    let start: usize = if s.len() > 0 && s[0] == 43 {
        1
    } else {
        0
    };
    let ghost digits = if start == 1 {
        s@.skip(1)
    } else {
        s@
    };
    proof {
        if start == 0 {
            assert(s@.skip(0) =~= s@);
        }
    }
    if s.len() == start {
        return None;
    }
    let mut n: u32 = 0;
    let mut i: usize = start;
    while i < s.len()
        invariant
            start <= i <= s@.len(),
            digits == s@.skip(start as int),
            start <= 1,
            digits == (if s@.len() > 0 && s@[0] == 43 {
                s@.skip(1)
            } else {
                s@
            }),
            forall|j: int| 0 <= j < i - start ==> spec_is_digit(#[trigger] digits[j]),
            n as int == spec_digits_value(digits.take(i - start)),
        decreases s@.len() - i,
    {
        let b = s[i];
        proof {
            assert(digits[i - start] == s@[i as int]);
        }
        if b < 48 || b > 57 {
            proof {
                assert(0 <= i - start < digits.len());
                assert(!spec_is_digit(digits[i - start]));
                assert(!spec_all_digits(digits));
            }
            return None;
        }
        let d = (b - 48) as u32;
        proof {
            assert(digits.take(i - start + 1).drop_last() =~= digits.take(i - start));
            assert(digits.take(i - start + 1).last() == digits[i - start]);
        }
        if n > (u32::MAX - d) / 10 {
            // Any continuation of these digits denotes a value beyond u32.
            proof {
                if spec_all_digits(digits) {
                    vstd::arithmetic::div_mod::lemma_fundamental_div_mod(
                        (u32::MAX - d) as int,
                        10,
                    );
                    assert(spec_digits_value(digits.take(i - start + 1)) == n * 10 + d);
                    assert(spec_digits_value(digits.take(i - start + 1)) > u32::MAX);
                    lemma_digits_value_grows(digits, i - start + 1);
                    assert(spec_digits_value(digits) > u32::MAX);
                }
            }
            return None;
        }
        n = n * 10 + d;
        i = i + 1;
    }
    proof {
        assert(digits.take(s@.len() - start) =~= digits);
    }
    Some(n)
}

} // verus!
