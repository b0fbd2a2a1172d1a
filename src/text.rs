//! Character-level helpers shared by the script reader: whitespace, trimming,
//! splitting, comment removal and decimal numbers.
use vstd::prelude::*;

verus! {

/// The characters of a string slice, in order.
pub fn chars_of(s: &str) -> (r: Vec<char>)
    ensures
        r@ == s@,
{
    let mut r: Vec<char> = Vec::new();
    for c in it: s.chars()
        invariant
            r@ == it.seq().take(it.index() as int),
            it.seq() == s@,
    {
        r.push(c);
    }
    r
}

/// Unicode `White_Space`, the property that `char::is_whitespace` tests.
pub open spec fn is_space(c: char) -> bool {
    let u = c as u32;
    u == 0x20 || (0x09 <= u && u <= 0x0d) || u == 0x85 || u == 0xa0 || u == 0x1680 || (0x2000 <= u
        && u <= 0x200a) || u == 0x2028 || u == 0x2029 || u == 0x202f || u == 0x205f || u == 0x3000
}

pub fn space(c: char) -> (r: bool)
    ensures
        r == is_space(c),
{
    let u = c as u32;
    u == 0x20 || (0x09 <= u && u <= 0x0d) || u == 0x85 || u == 0xa0 || u == 0x1680 || (0x2000 <= u
        && u <= 0x200a) || u == 0x2028 || u == 0x2029 || u == 0x202f || u == 0x205f || u == 0x3000
}

/// The first position at or after `i` that does not hold whitespace.
pub open spec fn space_run_end(s: Seq<char>, i: int) -> int
    decreases s.len() - i,
{
    if 0 <= i < s.len() && is_space(s[i]) {
        space_run_end(s, i + 1)
    } else {
        i
    }
}

/// The position just after the last non-whitespace character before `j`.
pub open spec fn space_run_start(s: Seq<char>, j: int) -> int
    decreases j,
{
    if 0 < j <= s.len() && is_space(s[j - 1]) {
        space_run_start(s, j - 1)
    } else {
        j
    }
}

/// `s` without leading and trailing whitespace.
pub open spec fn trim(s: Seq<char>) -> Seq<char> {
    let a = space_run_end(s, 0);
    let b = space_run_start(s, s.len() as int);
    if a < b {
        s.subrange(a, b)
    } else {
        seq![]
    }
}

/// `s` cut at every `sep`: one piece more than there are separators.
pub open spec fn split(s: Seq<char>, sep: char) -> Seq<Seq<char>>
    decreases s.len(),
{
    if s.len() == 0 {
        seq![seq![]]
    } else {
        let rest = split(s.drop_last(), sep);
        if s.last() == sep {
            rest.push(seq![])
        } else {
            rest.update(rest.len() - 1, rest.last().push(s.last()))
        }
    }
}

/// Each piece trimmed, the empty ones dropped.
pub open spec fn clean(s: Seq<Seq<char>>) -> Seq<Seq<char>>
    decreases s.len(),
{
    if s.len() == 0 {
        seq![]
    } else {
        let done = clean(s.drop_last());
        let t = trim(s.last());
        if t.len() == 0 {
            done
        } else {
            done.push(t)
        }
    }
}

/// The non-empty trimmed pieces of `s` between the separators `sep`.
pub open spec fn pieces(s: Seq<char>, sep: char) -> Seq<Seq<char>> {
    clean(split(s, sep))
}

pub open spec fn views(v: Seq<Vec<char>>) -> Seq<Seq<char>> {
    v.map_values(|x: Vec<char>| x@)
}

/// `s` trimmed of whitespace on both ends.
pub fn trimmed(s: &Vec<char>) -> (r: Vec<char>)
    ensures
        r@ == trim(s@),
{
    let n = s.len();
    let mut a: usize = 0;
    while a < n && space(s[a])
        invariant
            a <= n == s@.len(),
            space_run_end(s@, 0) == space_run_end(s@, a as int),
        decreases n - a,
    {
        a = a + 1;
    }
    let mut b: usize = n;
    while b > 0 && space(s[b - 1])
        invariant
            b <= n == s@.len(),
            space_run_start(s@, n as int) == space_run_start(s@, b as int),
        decreases b,
    {
        b = b - 1;
    }
    let mut r: Vec<char> = Vec::new();
    if a < b {
        let mut k: usize = a;
        while k < b
            invariant
                a <= k <= b <= n == s@.len(),
                r@ == s@.subrange(a as int, k as int),
            decreases b - k,
        {
            r.push(s[k]);
            k = k + 1;
        }
    }
    assert(r@ =~= trim(s@));
    r
}

/// The non-empty trimmed pieces of `s` between the separators `sep`.
pub fn pieces_of(s: &Vec<char>, sep: char) -> (r: Vec<Vec<char>>)
    ensures
        views(r@) == pieces(s@, sep),
{
    let n = s.len();
    let mut out: Vec<Vec<char>> = Vec::new();
    let mut cur: Vec<char> = Vec::new();
    let mut i: usize = 0;
    proof {
        assert(s@.take(0) =~= seq![]);
        assert(views(out@) =~= seq![]);
    }
    while i < n
        invariant
            i <= n == s@.len(),
            split(s@.take(i as int), sep).len() >= 1,
            views(out@) == clean(split(s@.take(i as int), sep).drop_last()),
            cur@ == split(s@.take(i as int), sep).last(),
        decreases n - i,
    {
        let c = s[i];
        let ghost before = split(s@.take(i as int), sep);
        assert(s@.take(i + 1).drop_last() =~= s@.take(i as int));
        if c == sep {
            let t = trimmed(&cur);
            assert(before.push(seq![]).drop_last() =~= before);
            if t.len() > 0 {
                out.push(t);
                assert(views(out@) =~= views(out@.drop_last()).push(t@));
            }
            cur = Vec::new();
        } else {
            cur.push(c);
            assert(before.update(before.len() - 1, before.last().push(c)).drop_last()
                =~= before.drop_last());
        }
        i = i + 1;
    }
    assert(s@.take(n as int) =~= s@);
    let t = trimmed(&cur);
    if t.len() > 0 {
        out.push(t);
        assert(views(out@) =~= views(out@.drop_last()).push(t@));
    }
    out
}

/// The first newline at or after `i`, or the end of `t`.
pub open spec fn line_end(t: Seq<char>, i: int) -> int
    decreases t.len() - i,
{
    if 0 <= i < t.len() && t[i] != '\n' {
        line_end(t, i + 1)
    } else {
        i
    }
}

/// What is left of `t` from position `i` on once every comment is taken out.
/// A comment runs from `#` through the newline that ends its line; a `#` on
/// a last line without a newline starts none.
pub open spec fn uncomment_from(t: Seq<char>, i: int) -> Seq<char>
    decreases t.len() - i,
{
    if i < 0 || i >= t.len() {
        seq![]
    } else if t[i] == '#' && i < line_end(t, i + 1) < t.len() {
        uncomment_from(t, line_end(t, i + 1) + 1)
    } else {
        seq![t[i]] + uncomment_from(t, i + 1)
    }
}

pub open spec fn uncomment(t: Seq<char>) -> Seq<char> {
    uncomment_from(t, 0)
}

fn find_line_end(t: &Vec<char>, i: usize) -> (r: usize)
    requires
        i <= t@.len(),
    ensures
        r == line_end(t@, i as int),
        i <= r <= t@.len(),
{
    let mut k: usize = i;
    while k < t.len() && t[k] != '\n'
        invariant
            i <= k <= t@.len(),
            line_end(t@, i as int) == line_end(t@, k as int),
        decreases t@.len() - k,
    {
        k = k + 1;
    }
    k
}

/// `t` with its comments taken out.
pub fn uncommented(t: &Vec<char>) -> (r: Vec<char>)
    ensures
        r@ == uncomment(t@),
{
    let n = t.len();
    let mut out: Vec<char> = Vec::new();
    let mut i: usize = 0;
    while i < n
        invariant
            i <= n == t@.len(),
            out@ + uncomment_from(t@, i as int) == uncomment(t@),
        decreases n - i,
    {
        if t[i] == '#' {
            let j = find_line_end(t, i + 1);
            if j < n {
                i = j + 1;
                continue;
            }
        }
        let ghost tail = uncomment_from(t@, i + 1);
        assert(out@.push(t@[i as int]) + tail =~= out@ + (seq![t@[i as int]] + tail));
        out.push(t[i]);
        i = i + 1;
    }
    assert(out@ + uncomment_from(t@, n as int) =~= out@);
    out
}

pub open spec fn is_digit(c: char) -> bool {
    '0' as u32 <= c as u32 <= '9' as u32
}

pub open spec fn digit_value(c: char) -> int {
    c as u32 - '0' as u32
}

/// The number that a string of decimal digits writes.
pub open spec fn decimal_value(d: Seq<char>) -> int
    decreases d.len(),
{
    if d.len() == 0 {
        0
    } else {
        decimal_value(d.drop_last()) * 10 + digit_value(d.last())
    }
}

/// One or more decimal digits whose value fits in 32 bits.
pub open spec fn digits_value(d: Seq<char>) -> Option<u32> {
    if d.len() > 0 && (forall|i: int| 0 <= i < d.len() ==> is_digit(#[trigger] d[i]))
        && decimal_value(d) <= u32::MAX {
        Some(decimal_value(d) as u32)
    } else {
        None
    }
}

/// What `u32::from_str` gives: an optional `+`, then one or more decimal
/// digits whose value fits in 32 bits.
pub open spec fn unsigned_of(s: Seq<char>) -> Option<u32> {
    if s.len() > 0 && s[0] == '+' {
        digits_value(s.skip(1))
    } else {
        digits_value(s)
    }
}

/// Reads `s[from..]` as `u32::from_str` does.
pub fn unsigned_from(s: &Vec<char>, from: usize) -> (r: Option<u32>)
    requires
        from <= s@.len(),
    ensures
        r == unsigned_of(s@.skip(from as int)),
{
    let n = s.len();
    let ghost whole = s@.skip(from as int);
    let start: usize = if from < n && s[from] == '+' {
        from + 1
    } else {
        from
    };
    let ghost d = s@.skip(start as int);
    assert(d =~= if whole.len() > 0 && whole[0] == '+' {
        whole.skip(1)
    } else {
        whole
    });
    if start == n {
        return None;
    }
    let mut acc: u32 = 0;
    let mut over = false;
    let mut k: usize = start;
    assert(s@.subrange(start as int, start as int) =~= seq![]);
    while k < n
        invariant
            start <= k <= n == s@.len(),
            d == s@.skip(start as int),
            whole == s@.skip(from as int),
            d == (if whole.len() > 0 && whole[0] == '+' {
                whole.skip(1)
            } else {
                whole
            }),
            forall|i: int| start <= i < k ==> is_digit(#[trigger] s@[i]),
            !over ==> acc == decimal_value(s@.subrange(start as int, k as int)),
            over ==> decimal_value(s@.subrange(start as int, k as int)) > u32::MAX,
        decreases n - k,
    {
        let c = s[k];
        let cu = c as u32;
        if !(48 <= cu && cu <= 57) {
            assert(d[k - start] == c && !is_digit(c) && k - start < d.len());
            assert(!(forall|i: int| 0 <= i < d.len() ==> is_digit(#[trigger] d[i])));
            return None;
        }
        let dig = cu - 48;
        let ghost prev = decimal_value(s@.subrange(start as int, k as int));
        assert(s@.subrange(start as int, k + 1).drop_last() =~= s@.subrange(start as int, k as int));
        assert(decimal_value(s@.subrange(start as int, k + 1)) == prev * 10 + dig);
        if !over {
            if acc > 429496729 || (acc == 429496729 && dig > 5) {
                assert(prev * 10 + dig > u32::MAX) by (nonlinear_arith)
                    requires
                        prev == acc,
                        acc > 429496729 || (acc == 429496729 && dig > 5),
                ;
                over = true;
            } else {
                assert(acc * 10 + dig <= u32::MAX) by (nonlinear_arith)
                    requires
                        acc <= 429496729,
                        acc == 429496729 ==> dig <= 5,
                        dig <= 9,
                ;
                acc = acc * 10 + dig;
            }
        } else {
            assert(prev * 10 + dig > u32::MAX) by (nonlinear_arith)
                requires
                    prev > u32::MAX,
                    dig >= 0,
            ;
        }
        k = k + 1;
    }
    assert(s@.subrange(start as int, n as int) =~= d);
    assert forall|i: int| 0 <= i < d.len() implies is_digit(#[trigger] d[i]) by {
        assert(d[i] == s@[start + i]);
    }
    if over {
        None
    } else {
        Some(acc)
    }
}

} // verus!

verus! {

/// Whether two character vectors hold the same characters.
pub fn same_chars(a: &Vec<char>, b: &Vec<char>) -> (r: bool)
    ensures
        r == (a@ == b@),
{
    if a.len() != b.len() {
        return false;
    }
    let mut i: usize = 0;
    while i < a.len()
        invariant
            i <= a@.len() == b@.len(),
            forall|j: int| 0 <= j < i ==> a@[j] == b@[j],
        decreases a@.len() - i,
    {
        if a[i] != b[i] {
            return false;
        }
        i = i + 1;
    }
    assert(a@ =~= b@);
    true
}

/// The characters of `a` from position `lo` up to `hi`.
pub fn slice_chars(a: &Vec<char>, lo: usize, hi: usize) -> (r: Vec<char>)
    requires
        lo <= hi <= a@.len(),
    ensures
        r@ == a@.subrange(lo as int, hi as int),
{
    let mut r: Vec<char> = Vec::new();
    let mut i: usize = lo;
    while i < hi
        invariant
            lo <= i <= hi <= a@.len(),
            r@ == a@.subrange(lo as int, i as int),
        decreases hi - i,
    {
        r.push(a[i]);
        i = i + 1;
    }
    r
}

} // verus!
