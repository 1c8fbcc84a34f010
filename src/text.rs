//! Character-level helpers: whitespace splitting, literal comparison and
//! decimal numbers, all stated over `Seq<char>`.
use vstd::prelude::*;

verus! {

/// The characters that carry Unicode's `White_Space` property.
pub open spec fn is_space(c: char) -> bool {
    let u = c as u32;
    (0x09 <= u && u <= 0x0D) || u == 0x20 || u == 0x85 || u == 0xA0 || u == 0x1680 || (0x2000
        <= u && u <= 0x200A) || u == 0x2028 || u == 0x2029 || u == 0x202F || u == 0x205F || u
        == 0x3000
}

/// The maximal runs of non-whitespace characters of `s`, in order.
pub open spec fn words(s: Seq<char>) -> Seq<Seq<char>>
    decreases s.len(),
{
    if s.len() == 0 {
        seq![]
    } else {
        let w = words(s.drop_last());
        let c = s.last();
        if is_space(c) {
            w
        } else if s.len() >= 2 && !is_space(s[s.len() - 2]) {
            w.update(w.len() - 1, w.last().push(c))
        } else {
            w.push(seq![c])
        }
    }
}

/// The views of a sequence of strings.
pub open spec fn texts(v: Seq<String>) -> Seq<Seq<char>> {
    v.map_values(|t: String| t@)
}

pub open spec fn is_digit(c: char) -> bool {
    '0' <= c && c <= '9'
}

pub open spec fn digit_value(c: char) -> nat {
    (c as u32 - '0' as u32) as nat
}

pub open spec fn all_digits(s: Seq<char>) -> bool {
    forall|i: int| 0 <= i < s.len() ==> is_digit(#[trigger] s[i])
}

/// The number written by the decimal digits `s`.
pub open spec fn digits_value(s: Seq<char>) -> nat
    decreases s.len(),
{
    if s.len() == 0 {
        0
    } else {
        digits_value(s.drop_last()) * 10 + digit_value(s.last())
    }
}

/// The digits of an unsigned number: an optional leading `+` is dropped.
pub open spec fn unsigned_digits(s: Seq<char>) -> Seq<char> {
    if s.len() > 0 && s[0] == '+' {
        s.drop_first()
    } else {
        s
    }
}

/// The value of `s` read as an unsigned decimal number no larger than `max`
/// (an optional `+`, then at least one digit), or `None`.
pub open spec fn unsigned_value(s: Seq<char>, max: nat) -> Option<nat> {
    let d = unsigned_digits(s);
    if d.len() > 0 && all_digits(d) && digits_value(d) <= max {
        Some(digits_value(d))
    } else {
        None
    }
}

pub fn chars_of(s: &str) -> (r: Vec<char>)
    ensures
        r@ == s@,
{
    let mut v: Vec<char> = Vec::new();
    for c in it: s.chars()
        invariant
            it.seq() == s@,
            v@ == s@.take(it.index() as int),
    {
        v.push(c);
    }
    v
}

/// Whether `t` holds exactly the characters of `lit`.
pub fn text_is(t: &str, lit: &str) -> (r: bool)
    ensures
        r == (t@ == lit@),
{
    let a = chars_of(t);
    let b = chars_of(lit);
    if a.len() != b.len() {
        return false;
    }
    let mut i: usize = 0;
    while i < a.len()
        invariant
            a@ == t@,
            b@ == lit@,
            a.len() == b.len(),
            i <= a.len(),
            a@.take(i as int) == b@.take(i as int),
        decreases a.len() - i,
    {
        if a[i] != b[i] {
            assert(a@[i as int] != b@[i as int]);
            return false;
        }
        assert(a@.take(i + 1) =~= a@.take(i as int).push(a@[i as int]));
        assert(b@.take(i + 1) =~= b@.take(i as int).push(b@[i as int]));
        i = i + 1;
    }
    assert(a@ =~= a@.take(i as int));
    assert(b@ =~= b@.take(i as int));
    true
}

/// Whether `c` occurs in `t`.
pub fn text_contains(t: &str, c: char) -> (r: bool)
    ensures
        r == t@.contains(c),
{
    let a = chars_of(t);
    let mut i: usize = 0;
    while i < a.len()
        invariant
            a@ == t@,
            i <= a.len(),
            forall|j: int| 0 <= j < i ==> a@[j] != c,
        decreases a.len() - i,
    {
        if a[i] == c {
            return true;
        }
        i = i + 1;
    }
    false
}

/// Splits `s` at whitespace into its words.
pub fn split_words(s: &str) -> (r: Vec<String>)
    ensures
        texts(r@) == words(s@),
{
    let cs = chars_of(s);
    let mut out: Vec<String> = Vec::new();
    let mut start: usize = 0;
    let mut in_word = false;
    let mut i: usize = 0;
    while i < cs.len()
        invariant
            cs@ == s@,
            i <= cs.len(),
            start <= i,
            in_word ==> start < i,
            in_word ==> forall|j: int| start <= j < i ==> !is_space(#[trigger] cs@[j]),
            in_word ==> !is_space(cs@[i - 1]),
            !in_word ==> (i == 0 || is_space(cs@[i - 1])),
            in_word ==> (start == 0 || is_space(cs@[start - 1])),
            in_word ==> words(cs@.take(i as int)) == texts(out@).push(
                cs@.subrange(start as int, i as int),
            ),
            !in_word ==> words(cs@.take(i as int)) == texts(out@),
        decreases cs.len() - i,
    {
        let c = cs[i];
        let ghost pre = cs@.take(i as int);
        assert(cs@.take(i + 1).drop_last() =~= pre);
        assert(cs@.take(i + 1).last() == c);
        if is_space_char(c) {
            if in_word {
                let w = s.substring_char(start, i);
                out.push(w.to_string());
                assert(texts(out@) =~= texts(out@.drop_last()).push(w@));
                in_word = false;
            }
        } else {
            if in_word {
                assert(cs@.subrange(start as int, i + 1) =~= cs@.subrange(start as int, i as int).push(
                    c,
                ));
            } else {
                start = i;
                in_word = true;
                assert(cs@.subrange(start as int, i + 1) =~= seq![c]);
            }
        }
        i = i + 1;
    }
    if in_word {
        let w = s.substring_char(start, i);
        out.push(w.to_string());
        assert(texts(out@) =~= texts(out@.drop_last()).push(w@));
    }
    assert(cs@.take(i as int) =~= s@);
    out
}

pub fn is_space_char(c: char) -> (r: bool)
    ensures
        r == is_space(c),
{
    let u = c as u32;
    (0x09 <= u && u <= 0x0D) || u == 0x20 || u == 0x85 || u == 0xA0 || u == 0x1680 || (0x2000
        <= u && u <= 0x200A) || u == 0x2028 || u == 0x2029 || u == 0x202F || u == 0x205F || u
        == 0x3000
}

proof fn lemma_digits_value_grows(s: Seq<char>, k: int)
    requires
        0 <= k <= s.len(),
    ensures
        digits_value(s.take(k)) <= digits_value(s),
    decreases s.len(),
{
    if k < s.len() {
        assert(s.drop_last().take(k) =~= s.take(k));
        lemma_digits_value_grows(s.drop_last(), k);
    } else {
        assert(s.take(k) =~= s);
    }
}

/// Reads `t` as an unsigned decimal number that fits in `u64`.
pub fn parse_u64(t: &str) -> (r: Option<u64>)
    ensures
        r matches Some(v) ==> unsigned_value(t@, u64::MAX as nat) == Some(v as nat),
        r is None ==> unsigned_value(t@, u64::MAX as nat) is None,
{
    let cs = chars_of(t);
    let mut i: usize = 0;
    if cs.len() > 0 && cs[0] == '+' {
        i = 1;
    }
    let ghost d = unsigned_digits(t@);
    assert(d =~= cs@.subrange(i as int, cs.len() as int));
    if i == cs.len() {
        return None;
    }
    let first = i;
    let mut acc: u64 = 0;
    while i < cs.len()
        invariant
            cs@ == t@,
            first <= i <= cs.len(),
            d =~= cs@.subrange(first as int, cs.len() as int),
            d == unsigned_digits(t@),
            all_digits(d.take(i - first)),
            acc as nat == digits_value(d.take(i - first)),
        decreases cs.len() - i,
    {
        let c = cs[i];
        assert(d.take(i - first + 1).drop_last() =~= d.take(i - first));
        assert(d[i - first] == c);
        if c < '0' || c > '9' {
            assert(!is_digit(d[i - first]));
            assert(!all_digits(d));
            return None;
        }
        let v = (c as u32 - '0' as u32) as u64;
        assert(all_digits(d.take(i - first + 1)));
        if acc > (u64::MAX - v) / 10 {
            proof {
                lemma_digits_value_grows(d, i - first + 1);
            }
            assert(digits_value(d.take(i - first + 1)) == acc * 10 + v) by (nonlinear_arith)
                requires
                    digits_value(d.take(i - first + 1)) == digits_value(d.take(i - first)) * 10 + v,
                    acc as nat == digits_value(d.take(i - first)),
            ;
            assert(acc * 10 + v > u64::MAX) by (nonlinear_arith)
                requires
                    acc > (u64::MAX - v) / 10,
                    v <= 9,
            ;
            assert(digits_value(d) > u64::MAX);
            return None;
        }
        assert(acc * 10 + v <= u64::MAX) by (nonlinear_arith)
            requires
                acc <= (u64::MAX - v) / 10,
                v <= 9,
        ;
        acc = acc * 10 + v;
        i = i + 1;
    }
    assert(d.take(i - first) =~= d);
    Some(acc)
}

} // verus!
