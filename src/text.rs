//! Character-level helpers over `str` and `String`, stated over `Seq<char>`.
use vstd::prelude::*;

verus! {

/// An ASCII decimal digit, as `char::is_digit(10)` accepts it.
pub open spec fn is_digit(c: char) -> bool {
    '0' <= c && c <= '9'
}

/// The index of the first decimal digit of `s` at or after `i`, or `s.len()`.
pub open spec fn digit_from(s: Seq<char>, i: int) -> int
    decreases s.len() - i,
{
    if i < 0 || i >= s.len() {
        s.len() as int
    } else if is_digit(s[i]) {
        i
    } else {
        digit_from(s, i + 1)
    }
}

/// The end of the run of decimal digits of `s` that starts at `i`.
pub open spec fn run_end(s: Seq<char>, i: int) -> int
    decreases s.len() - i,
{
    if 0 <= i < s.len() && is_digit(s[i]) {
        run_end(s, i + 1)
    } else {
        i
    }
}

/// The first maximal run of decimal digits in `s`; empty when `s` holds no digit.
pub open spec fn first_digit_run(s: Seq<char>) -> Seq<char> {
    let a = digit_from(s, 0);
    s.subrange(a, run_end(s, a))
}

/// `line` without one trailing carriage return.
pub open spec fn strip_cr(line: Seq<char>) -> Seq<char> {
    if line.len() > 0 && line.last() == '\r' {
        line.drop_last()
    } else {
        line
    }
}

/// The lines of `s` that a line feed has ended, and the text after the last line feed.
pub open spec fn ended_lines(s: Seq<char>) -> (Seq<Seq<char>>, Seq<char>)
    decreases s.len(),
{
    if s.len() == 0 {
        (seq![], seq![])
    } else {
        let (done, tail) = ended_lines(s.drop_last());
        if s.last() == '\n' {
            (done.push(strip_cr(tail)), seq![])
        } else {
            (done, tail.push(s.last()))
        }
    }
}

/// The lines of `s`: split at each line feed, one carriage return before it dropped,
/// and no empty last line after a final line feed.
pub open spec fn lines_of(s: Seq<char>) -> Seq<Seq<char>> {
    let (done, tail) = ended_lines(s);
    if tail.len() == 0 {
        done
    } else {
        done.push(strip_cr(tail))
    }
}

/// The views of a sequence of strings.
pub open spec fn views(v: Seq<String>) -> Seq<Seq<char>> {
    v.map_values(|s: String| s@)
}

/// What `str::to_uppercase` makes of `s`.
pub uninterp spec fn upper_of(s: Seq<char>) -> Seq<char>;

/// Relies on `str::to_uppercase`: the upper-case form of each character, in order.
#[verifier::external_body]
pub(crate) fn uppercase(s: &str) -> (r: String)
    ensures
        r@ == upper_of(s@),
{
    s.to_uppercase()
}

/// Relies on `String::push`: appends one character.
#[verifier::external_body]
pub(crate) fn push_char(s: &mut String, c: char)
    ensures
        final(s)@ == old(s)@.push(c),
{
    s.push(c)
}

/// The characters of `s`, in order.
pub fn chars_of(s: &str) -> (r: Vec<char>)
    ensures
        r@ == s@,
{
    let mut out: Vec<char> = Vec::new();
    for c in it: s.chars()
        invariant
            it.seq() == s@,
            out@ == it.seq().take(it.index() as int),
    {
        out.push(c);
    }
    out
}

/// The characters `cs[from..to]` as a `String`.
pub fn string_of(cs: &Vec<char>, from: usize, to: usize) -> (r: String)
    requires
        from <= to <= cs@.len(),
    ensures
        r@ == cs@.subrange(from as int, to as int),
{
    let mut out = String::new();
    let mut i: usize = from;
    while i < to
        invariant
            from <= i <= to <= cs@.len(),
            out@ == cs@.subrange(from as int, i as int),
        decreases to - i,
    {
        push_char(&mut out, cs[i]);
        assert(cs@.subrange(from as int, i + 1) =~= cs@.subrange(from as int, i as int).push(
            cs@[i as int],
        ));
        i = i + 1;
    }
    out
}

/// The line of `cs[from..to]` without one trailing carriage return.
fn line_of(cs: &Vec<char>, from: usize, to: usize) -> (r: String)
    requires
        from <= to <= cs@.len(),
    ensures
        r@ == strip_cr(cs@.subrange(from as int, to as int)),
{
    if from < to && cs[to - 1] == '\r' {
        assert(cs@.subrange(from as int, to as int).drop_last() =~= cs@.subrange(
            from as int,
            to - 1,
        ));
        string_of(cs, from, to - 1)
    } else {
        string_of(cs, from, to)
    }
}

/// Splits `s` into lines as `str::lines` does.
pub fn lines(s: &str) -> (r: Vec<String>)
    ensures
        views(r@) == lines_of(s@),
{
    let cs = chars_of(s);
    let n = cs.len();
    let mut out: Vec<String> = Vec::new();
    let mut start: usize = 0;
    let mut i: usize = 0;
    while i < n
        invariant
            n == cs@.len(),
            cs@ == s@,
            start <= i <= n,
            ended_lines(cs@.take(i as int)) == (views(out@), cs@.subrange(start as int, i as int)),
        decreases n - i,
    {
        assert(cs@.take(i + 1).drop_last() =~= cs@.take(i as int));
        if cs[i] == '\n' {
            let line = line_of(&cs, start, i);
            let ghost before = out@;
            out.push(line);
            assert(views(out@) =~= views(before).push(line@));
            start = i + 1;
        } else {
            assert(cs@.subrange(start as int, i + 1) =~= cs@.subrange(start as int, i as int).push(
                cs@[i as int],
            ));
        }
        i = i + 1;
    }
    assert(cs@.take(n as int) =~= cs@);
    if start < n {
        let line = line_of(&cs, start, n);
        let ghost before = out@;
        out.push(line);
        assert(views(out@) =~= views(before).push(line@));
    }
    out
}

/// The first run of decimal digits in `s`: characters before the first digit are
/// skipped, and the run stops at the first non-digit after it.
pub fn digit_run(s: &str) -> (r: String)
    ensures
        r@ == first_digit_run(s@),
{
    let cs = chars_of(s);
    let n = cs.len();
    let mut a: usize = 0;
    while a < n && !('0' <= cs[a] && cs[a] <= '9')
        invariant
            n == cs@.len(),
            a <= n,
            digit_from(cs@, 0) == digit_from(cs@, a as int),
        decreases n - a,
    {
        a = a + 1;
    }
    let mut b: usize = a;
    while b < n && '0' <= cs[b] && cs[b] <= '9'
        invariant
            n == cs@.len(),
            a <= b <= n,
            digit_from(cs@, 0) == a,
            run_end(cs@, a as int) == run_end(cs@, b as int),
        decreases n - b,
    {
        b = b + 1;
    }
    string_of(&cs, a, b)
}

} // verus!
