//! The text forms the kernel uses for CPU and NUMA information: CPU lists
//! such as `0-3,8-11`, and node directory names such as `node1`.

use vstd::prelude::*;

verus! {

/// The characters with the Unicode `White_Space` property, which
/// `char::is_whitespace` tests: tab, line feed, vertical tab, form feed,
/// carriage return, space, next line, no-break space, ogham space mark, the
/// spaces U+2000 to U+200A, line and paragraph separators, narrow no-break
/// space, medium mathematical space and ideographic space.
pub open spec fn whitespace(c: char) -> bool {
    let u = c as u32;
    ||| 0x09 <= u <= 0x0D
    ||| u == 0x20
    ||| u == 0x85
    ||| u == 0xA0
    ||| u == 0x1680
    ||| 0x2000 <= u <= 0x200A
    ||| u == 0x2028
    ||| u == 0x2029
    ||| u == 0x202F
    ||| u == 0x205F
    ||| u == 0x3000
}

/// Calls `char::is_whitespace`, which its documentation defines as the
/// Unicode `White_Space` property: the result is `whitespace(c)`.
#[verifier::external_body]
fn char_is_whitespace(c: char) -> (r: bool)
    ensures
        r == whitespace(c),
{
    c.is_whitespace()
}

/// Number of leading whitespace characters.
pub open spec fn leading_ws(s: Seq<char>) -> nat
    decreases s.len(),
{
    if s.len() > 0 && whitespace(s[0]) {
        1 + leading_ws(s.drop_first())
    } else {
        0
    }
}

/// Number of trailing whitespace characters.
pub open spec fn trailing_ws(s: Seq<char>) -> nat
    decreases s.len(),
{
    if s.len() > 0 && whitespace(s.last()) {
        1 + trailing_ws(s.drop_last())
    } else {
        0
    }
}

/// `s` without leading and trailing whitespace, as `str::trim` gives it.
pub open spec fn trim_spec(s: Seq<char>) -> Seq<char> {
    let t = s.subrange(leading_ws(s) as int, s.len() as int);
    t.subrange(0, t.len() - trailing_ws(t))
}

/// One step of splitting on `sep`: a separator opens a new piece, any other
/// character extends the last piece.
pub open spec fn split_step(pieces: Seq<Seq<char>>, c: char, sep: char) -> Seq<Seq<char>> {
    if c == sep {
        pieces.push(Seq::empty())
    } else {
        pieces.update(pieces.len() - 1, pieces.last().push(c))
    }
}

/// The pieces of `s` between occurrences of `sep`, as `str::split` yields
/// them: always at least one piece, empty pieces included.
pub open spec fn split_on(s: Seq<char>, sep: char) -> Seq<Seq<char>>
    decreases s.len(),
{
    if s.len() == 0 {
        seq![Seq::empty()]
    } else {
        split_step(split_on(s.drop_last(), sep), s.last(), sep)
    }
}

/// Every character is an ASCII decimal digit.
pub open spec fn all_digits(s: Seq<char>) -> bool {
    forall|i: int| 0 <= i < s.len() ==> '0' <= #[trigger] s[i] <= '9'
}

/// The number a string of decimal digits denotes.
pub open spec fn digits_value(s: Seq<char>) -> int
    decreases s.len(),
{
    if s.len() == 0 {
        0
    } else {
        digits_value(s.drop_last()) * 10 + (s.last() as int - '0' as int)
    }
}

/// What `str::parse::<usize>` gives: an optional `+` followed by at least
/// one decimal digit, denoting a number that fits in `usize`.
pub open spec fn parse_usize_spec(s: Seq<char>) -> Option<usize> {
    let d = if s.len() > 0 && s[0] == '+' {
        s.drop_first()
    } else {
        s
    };
    if d.len() > 0 && all_digits(d) && digits_value(d) <= usize::MAX {
        Some(digits_value(d) as usize)
    } else {
        None
    }
}

/// The numbers `start..=end`.
pub open spec fn cpu_range(start: usize, end: usize) -> Seq<usize> {
    if start <= end {
        Seq::new((end - start + 1) as nat, |i: int| (start + i) as usize)
    } else {
        Seq::empty()
    }
}

/// The CPUs one comma-separated part names: a range `a-b` (exactly one
/// dash, both ends numbers), or a single number; anything else names none.
pub open spec fn part_cpus(part: Seq<char>) -> Seq<usize> {
    if part.contains('-') {
        let ends = split_on(part, '-');
        if ends.len() == 2 && parse_usize_spec(ends[0]) is Some && parse_usize_spec(ends[1]) is Some {
            cpu_range(parse_usize_spec(ends[0])->0, parse_usize_spec(ends[1])->0)
        } else {
            Seq::empty()
        }
    } else {
        match parse_usize_spec(part) {
            Some(cpu) => seq![cpu],
            None => Seq::empty(),
        }
    }
}

/// The concatenation of `parts`, first to last.
pub open spec fn concat_all(parts: Seq<Seq<usize>>) -> Seq<usize>
    decreases parts.len(),
{
    if parts.len() == 0 {
        Seq::empty()
    } else {
        concat_all(parts.drop_last()) + parts.last()
    }
}

/// The CPUs a CPU list names, in order: the CPUs of each comma-separated,
/// trimmed part, one after the other.
pub open spec fn cpu_list(s: Seq<char>) -> Seq<usize> {
    concat_all(split_on(s, ',').map_values(|p: Seq<char>| part_cpus(trim_spec(p))))
}

/// The characters of `s`, in order.
pub fn chars_of(s: &str) -> (r: Vec<char>)
    ensures
        r@ == s@,
{
    let mut v: Vec<char> = Vec::new();
    for c in it: s.chars()
        invariant
            it.seq() == s@,
            v@ == it.seq().take(it.index() as int),
    {
        v.push(c);
        proof {
            assert(v@ =~= it.seq().take(it.index() as int + 1));
        }
    }
    proof {
        assert(v@ =~= s@);
    }
    v
}


/// Counting whitespace from the front stops at the first other character.
proof fn lemma_leading_ws(s: Seq<char>, k: int)
    requires
        0 <= k <= s.len(),
        forall|i: int| 0 <= i < k ==> whitespace(#[trigger] s[i]),
        k == s.len() || !whitespace(s[k]),
    ensures
        leading_ws(s) == k,
    decreases k,
{
    if k > 0 {
        let t = s.drop_first();
        assert forall|i: int| 0 <= i < k - 1 implies whitespace(#[trigger] t[i]) by {
            assert(t[i] == s[i + 1]);
        }
        if k < s.len() {
            assert(t[k - 1] == s[k]);
        }
        lemma_leading_ws(t, k - 1);
    }
}

/// Counting whitespace from the back stops at the last other character.
proof fn lemma_trailing_ws(s: Seq<char>, k: int)
    requires
        0 <= k <= s.len(),
        forall|i: int| 0 <= i < k ==> whitespace(#[trigger] s[s.len() - 1 - i]),
        k == s.len() || !whitespace(s[s.len() - 1 - k]),
    ensures
        trailing_ws(s) == k,
    decreases k,
{
    if k > 0 {
        let t = s.drop_last();
        assert forall|i: int| 0 <= i < k - 1 implies whitespace(#[trigger] t[t.len() - 1 - i]) by {
            assert(t[t.len() - 1 - i] == s[s.len() - 1 - (i + 1)]);
            assert(whitespace(s[s.len() - 1 - (i + 1)]));
        }
        if k < s.len() {
            assert(t[t.len() - 1 - (k - 1)] == s[s.len() - 1 - k]);
        }
        assert(whitespace(s[s.len() - 1 - 0]));
        lemma_trailing_ws(t, k - 1);
    }
}

/// `v` without leading and trailing whitespace.
pub fn trim_chars(v: &Vec<char>) -> (r: Vec<char>)
    ensures
        r@ == trim_spec(v@),
{
    let n = v.len();
    let mut start: usize = 0;
    while start < n && char_is_whitespace(v[start])
        invariant
            start <= n,
            n == v@.len(),
            forall|i: int| 0 <= i < start ==> whitespace(#[trigger] v@[i]),
        decreases n - start,
    {
        start = start + 1;
    }
    proof {
        lemma_leading_ws(v@, start as int);
    }
    let ghost t = v@.subrange(start as int, n as int);
    let mut end: usize = n;
    while end > start && char_is_whitespace(v[end - 1])
        invariant
            start <= end <= n,
            n == v@.len(),
            t == v@.subrange(start as int, n as int),
            forall|i: int| 0 <= i < n - end ==> whitespace(#[trigger] t[t.len() - 1 - i]),
        decreases end - start,
    {
        assert(t[t.len() - 1 - (n - end)] == v@[end - 1]);
        end = end - 1;
    }
    proof {
        if end > start {
            assert(t[t.len() - 1 - (n - end)] == v@[end - 1]);
        }
        lemma_trailing_ws(t, n - end);
    }
    let mut r: Vec<char> = Vec::new();
    let mut i: usize = start;
    while i < end
        invariant
            start <= i <= end <= n,
            n == v@.len(),
            r@ == v@.subrange(start as int, i as int),
        decreases end - i,
    {
        r.push(v[i]);
        proof {
            assert(r@ =~= v@.subrange(start as int, i + 1));
        }
        i = i + 1;
    }
    proof {
        assert(r@ =~= trim_spec(v@));
    }
    r
}

/// The pieces of `v` between occurrences of `sep`.
pub fn split_chars(v: &Vec<char>, sep: char) -> (r: Vec<Vec<char>>)
    ensures
        r@.map_values(|p: Vec<char>| p@) == split_on(v@, sep),
{
    let mut pieces: Vec<Vec<char>> = Vec::new();
    let mut cur: Vec<char> = Vec::new();
    let n = v.len();
    let mut i: usize = 0;
    while i < n
        invariant
            i <= n,
            n == v@.len(),
            pieces@.map_values(|p: Vec<char>| p@).push(cur@) == split_on(v@.take(i as int), sep),
        decreases n - i,
    {
        let c = v[i];
        proof {
            assert(v@.take(i + 1).drop_last() =~= v@.take(i as int));
            assert(v@.take(i + 1).last() == c);
        }
        if c == sep {
            pieces.push(cur);
            cur = Vec::new();
            proof {
                assert(pieces@.map_values(|p: Vec<char>| p@).push(cur@) =~= split_on(v@.take(i + 1), sep));
            }
        } else {
            let ghost before = pieces@.map_values(|p: Vec<char>| p@).push(cur@);
            cur.push(c);
            proof {
                assert(pieces@.map_values(|p: Vec<char>| p@).push(cur@) =~= before.update(
                    before.len() - 1,
                    before.last().push(c),
                ));
            }
        }
        i = i + 1;
    }
    proof {
        assert(v@.take(n as int) =~= v@);
    }
    pieces.push(cur);
    proof {
        assert(pieces@.map_values(|p: Vec<char>| p@) =~= split_on(v@, sep));
    }
    pieces
}


/// A string of digits denotes a number no smaller than any of its prefixes
/// denotes, and no number is negative.
proof fn lemma_digits_prefix(s: Seq<char>, k: int)
    requires
        0 <= k <= s.len(),
        all_digits(s),
    ensures
        0 <= digits_value(s.take(k)) <= digits_value(s),
    decreases s.len() - k,
{
    if k < s.len() {
        lemma_digits_prefix(s, k + 1);
        assert(s.take(k + 1).drop_last() =~= s.take(k));
        assert(s.take(k + 1).last() == s[k]);
    } else {
        assert(s.take(k) =~= s);
    }
    lemma_digits_nonneg(s.take(k));
}

proof fn lemma_digits_nonneg(s: Seq<char>)
    requires
        all_digits(s),
    ensures
        digits_value(s) >= 0,
    decreases s.len(),
{
    if s.len() > 0 {
        assert(all_digits(s.drop_last())) by {
            assert forall|i: int| 0 <= i < s.drop_last().len() implies '0' <= #[trigger] s.drop_last()[i] <= '9' by {
                assert(s.drop_last()[i] == s[i]);
            }
        }
        lemma_digits_nonneg(s.drop_last());
        assert('0' <= s.last() <= '9');
    }
}

/// The number `v` denotes under `str::parse::<usize>`.
pub fn parse_usize_chars(v: &Vec<char>) -> (r: Option<usize>)
    ensures
        r == parse_usize_spec(v@),
{
    let n = v.len();
    let first: usize = if n > 0 && v[0] == '+' {
        1
    } else {
        0
    };
    let ghost d = v@.subrange(first as int, n as int);
    proof {
        if first == 1 {
            assert(d =~= v@.drop_first());
        } else {
            assert(d =~= v@);
        }
    }
    if first == n {
        return None;
    }
    let mut value: usize = 0;
    let mut i: usize = first;
    while i < n
        invariant
            first <= i <= n,
            n == v@.len(),
            d == v@.subrange(first as int, n as int),
            all_digits(d.take(i - first)),
            value == digits_value(d.take(i - first)),
            d.len() > 0,
            parse_usize_spec(v@) == (if all_digits(d) && digits_value(d) <= usize::MAX {
                Some(digits_value(d) as usize)
            } else {
                None
            }),
        decreases n - i,
    {
        let c = v[i];
        let ghost k = i - first;
        proof {
            assert(d[k] == c);
            assert(d.take(k + 1).drop_last() =~= d.take(k));
            assert(d.take(k + 1).last() == c);
        }
        if !('0' <= c && c <= '9') {
            assert(!all_digits(d));
            return None;
        }
        proof {
            assert(all_digits(d.take(k + 1))) by {
                assert forall|j: int| 0 <= j < k + 1 implies '0' <= #[trigger] d.take(k + 1)[j] <= '9' by {
                    if j < k {
                        assert(d.take(k + 1)[j] == d.take(k)[j]);
                    }
                }
            }
        }
        let digit: usize = ((c as u32) - ('0' as u32)) as usize;
        let next = match value.checked_mul(10) {
            Some(m) => m.checked_add(digit),
            None => None,
        };
        match next {
            Some(x) => {
                value = x;
            },
            None => {
                proof {
                    if all_digits(d) {
                        lemma_digits_prefix(d, k + 1);
                    }
                }
                return None;
            },
        }
        i = i + 1;
    }
    proof {
        assert(d.take(n - first) =~= d);
    }
    Some(value)
}

/// Whether `v` holds `c`.
fn contains_char(v: &Vec<char>, c: char) -> (r: bool)
    ensures
        r == v@.contains(c),
{
    let mut i: usize = 0;
    while i < v.len()
        invariant
            i <= v@.len(),
            forall|j: int| 0 <= j < i ==> v@[j] != c,
        decreases v@.len() - i,
    {
        if v[i] == c {
            assert(v@[i as int] == c);
            return true;
        }
        i = i + 1;
    }
    false
}

/// Append `start..=end` to `out`.
fn push_range(out: &mut Vec<usize>, start: usize, end: usize)
    ensures
        final(out)@ == old(out)@ + cpu_range(start, end),
{
    if start > end {
        assert(old(out)@ + cpu_range(start, end) =~= old(out)@);
        return;
    }
    let ghost base = old(out)@;
    let mut c: usize = start;
    loop
        invariant
            start <= c <= end,
            out@ == base + cpu_range(start, (c - 1) as usize).take(c - start),
            base == old(out)@,
        decreases end - c,
    {
        out.push(c);
        proof {
            assert(out@ =~= base + cpu_range(start, end).take(c - start + 1));
            assert(cpu_range(start, c).take(c - start + 1) =~= cpu_range(start, end).take(c - start + 1));
        }
        if c == end {
            proof {
                assert(cpu_range(start, end).take(c - start + 1) =~= cpu_range(start, end));
            }
            return;
        }
        c = c + 1;
        proof {
            assert(cpu_range(start, (c - 1) as usize).take(c - start) =~= cpu_range(start, end).take(c - start));
        }
    }
}

/// Append the CPUs that one trimmed part of a CPU list names to `out`.
fn push_part_cpus(part: &Vec<char>, out: &mut Vec<usize>)
    ensures
        final(out)@ == old(out)@ + part_cpus(part@),
{
    if contains_char(part, '-') {
        let ends = split_chars(part, '-');
        proof {
            assert(ends@.len() == split_on(part@, '-').len());
        }
        if ends.len() == 2 {
            proof {
                assert(ends@[0]@ == split_on(part@, '-')[0]);
                assert(ends@[1]@ == split_on(part@, '-')[1]);
            }
            let a = parse_usize_chars(&ends[0]);
            let b = parse_usize_chars(&ends[1]);
            match (a, b) {
                (Some(start), Some(end)) => {
                    push_range(out, start, end);
                },
                _ => {
                    assert(old(out)@ + part_cpus(part@) =~= old(out)@);
                },
            }
        } else {
            assert(old(out)@ + part_cpus(part@) =~= old(out)@);
        }
    } else {
        match parse_usize_chars(part) {
            Some(cpu) => {
                out.push(cpu);
            },
            None => {
                assert(old(out)@ + part_cpus(part@) =~= old(out)@);
            },
        }
    }
}

/// The CPUs a CPU list such as `0-3,8-11` names, in order. Each
/// comma-separated part is trimmed; a part that is neither a number nor a
/// range of two numbers names no CPU, and a range whose start exceeds its
/// end is empty.
pub fn parse_cpu_list(s: &str) -> (r: Vec<usize>)
    ensures
        r@ == cpu_list(s@),
{
    let cs = chars_of(s);
    parse_cpu_list_chars(&cs)
}

/// The CPUs the CPU list held in `cs` names (see `parse_cpu_list`).
pub fn parse_cpu_list_chars(cs: &Vec<char>) -> (r: Vec<usize>)
    ensures
        r@ == cpu_list(cs@),
{
    let parts = split_chars(cs, ',');
    let ghost mapped = split_on(cs@, ',').map_values(|p: Seq<char>| part_cpus(trim_spec(p)));
    let mut out: Vec<usize> = Vec::new();
    let n = parts.len();
    let mut i: usize = 0;
    proof {
        assert(parts@.map_values(|p: Vec<char>| p@).len() == n);
        assert(mapped.take(0) =~= Seq::<Seq<usize>>::empty());
    }
    while i < n
        invariant
            i <= n,
            n == parts@.len(),
            parts@.map_values(|p: Vec<char>| p@) == split_on(cs@, ','),
            mapped == split_on(cs@, ',').map_values(|p: Seq<char>| part_cpus(trim_spec(p))),
            out@ == concat_all(mapped.take(i as int)),
        decreases n - i,
    {
        proof {
            assert(parts@[i as int]@ == split_on(cs@, ',')[i as int]);
        }
        let trimmed = trim_chars(&parts[i]);
        push_part_cpus(&trimmed, &mut out);
        proof {
            assert(mapped.take(i + 1).drop_last() =~= mapped.take(i as int));
            assert(mapped.take(i + 1).last() == mapped[i as int]);
        }
        i = i + 1;
    }
    proof {
        assert(mapped.take(n as int) =~= mapped);
    }
    out
}

} // verus!
