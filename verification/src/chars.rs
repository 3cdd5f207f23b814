//! Character-level text scanning: UTF-8 byte lengths, Unicode whitespace,
//! trimming, line splitting and substring search, stated over the
//! characters of a text.
use vstd::prelude::*;

verus! {

/// Appends `c` with `String::push`.
///
/// Claimed: the text afterwards is the text before followed by `c`, as the
/// standard library documents ("Appends the given char to the end of this
/// String").
#[verifier::external_body]
pub(crate) fn push_char(s: &mut String, c: char)
    ensures
        final(s)@ == old(s)@.push(c),
{
    s.push(c);
}

/// Unicode `White_Space`, the set `char::is_whitespace` tests.
pub open spec fn is_ws(c: char) -> bool {
    let u = c as u32;
    ||| 0x09 <= u <= 0x0D
    ||| u == 0x20
    ||| u == 0x85
    ||| u == 0xA0
    ||| u == 0x1680
    ||| 0x2000 <= u <= 0x200A
    ||| u == 0x2028
    ||| u == 0x2029
    ||| u == 0x202F
    ||| u == 0x205F
    ||| u == 0x3000
}

/// Whether `c` is Unicode whitespace.
pub fn is_whitespace(c: char) -> (r: bool)
    ensures
        r == is_ws(c),
{
    let u = c as u32;
    (0x09 <= u && u <= 0x0D) || u == 0x20 || u == 0x85 || u == 0xA0 || u == 0x1680 || (0x2000
        <= u && u <= 0x200A) || u == 0x2028 || u == 0x2029 || u == 0x202F || u == 0x205F || u
        == 0x3000
}

/// Number of UTF-8 bytes that encode `c`.
pub open spec fn char_width(c: char) -> nat {
    let u = c as u32;
    if u < 0x80 {
        1
    } else if u < 0x800 {
        2
    } else if u < 0x10000 {
        3
    } else {
        4
    }
}

/// Number of UTF-8 bytes that encode `s` (what `str::len` returns).
pub open spec fn utf8_len(s: Seq<char>) -> nat
    decreases s.len(),
{
    if s.len() == 0 {
        0
    } else {
        utf8_len(s.drop_last()) + char_width(s.last())
    }
}

/// `s` without leading whitespace.
pub open spec fn trim_start(s: Seq<char>) -> Seq<char>
    decreases s.len(),
{
    if s.len() > 0 && is_ws(s[0]) {
        trim_start(s.drop_first())
    } else {
        s
    }
}

/// `s` without trailing whitespace.
pub open spec fn trim_end(s: Seq<char>) -> Seq<char>
    decreases s.len(),
{
    if s.len() > 0 && is_ws(s.last()) {
        trim_end(s.drop_last())
    } else {
        s
    }
}

/// `s` without leading and trailing whitespace (`str::trim`).
pub open spec fn trim(s: Seq<char>) -> Seq<char> {
    trim_end(trim_start(s))
}

/// `pat` occurs in `s` at position `i`.
pub open spec fn occurs_at(s: Seq<char>, pat: Seq<char>, i: int) -> bool {
    0 <= i && i + pat.len() <= s.len() && s.subrange(i, i + pat.len()) == pat
}

/// The first position at or after `i` where `pat` occurs.
pub open spec fn find_from(s: Seq<char>, pat: Seq<char>, i: int) -> Option<nat>
    decreases s.len() + 1 - i,
{
    if i < 0 || i + pat.len() > s.len() {
        None
    } else if occurs_at(s, pat, i) {
        Some(i as nat)
    } else {
        find_from(s, pat, i + 1)
    }
}

/// The first position of `pat` in `s` (`str::find`).
pub open spec fn find(s: Seq<char>, pat: Seq<char>) -> Option<nat> {
    find_from(s, pat, 0)
}

/// The last position at or before `i` where `pat` occurs.
pub open spec fn rfind_upto(s: Seq<char>, pat: Seq<char>, i: int) -> Option<nat>
    decreases i + 1,
{
    if i < 0 {
        None
    } else if occurs_at(s, pat, i) {
        Some(i as nat)
    } else {
        rfind_upto(s, pat, i - 1)
    }
}

/// The last position of `pat` in `s` (`str::rfind`).
pub open spec fn rfind(s: Seq<char>, pat: Seq<char>) -> Option<nat> {
    rfind_upto(s, pat, s.len() - pat.len())
}

/// `s` without one trailing carriage return.
pub open spec fn strip_cr(s: Seq<char>) -> Seq<char> {
    if s.len() > 0 && s.last() == '\r' {
        s.drop_last()
    } else {
        s
    }
}

/// The lines of `s` (`str::lines`): split after each line feed, the line
/// feed and a carriage return before it removed; no empty last line.
pub open spec fn lines(s: Seq<char>) -> Seq<Seq<char>>
    decreases s.len(),
{
    if s.len() == 0 {
        Seq::empty()
    } else {
        match find(s, seq!['\n']) {
            None => seq![s],
            Some(n) => {
                proof {
                    lemma_find_from_some(s, seq!['\n'], 0);
                }
                seq![strip_cr(s.take(n as int))] + lines(s.skip(n as int + 1))
            },
        }
    }
}

/// A position found by `find_from` is an occurrence at or after the start.
pub proof fn lemma_find_from_some(s: Seq<char>, pat: Seq<char>, i: int)
    ensures
        find_from(s, pat, i) matches Some(n) ==> i <= n && occurs_at(s, pat, n as int),
    decreases s.len() + 1 - i,
{
    if !(i < 0 || i + pat.len() > s.len()) && !occurs_at(s, pat, i) {
        lemma_find_from_some(s, pat, i + 1);
    }
}

/// `v[lo..hi]` as a new text.
pub fn string_of(v: &Vec<char>, lo: usize, hi: usize) -> (s: String)
    requires
        lo <= hi <= v@.len(),
    ensures
        s@ == v@.subrange(lo as int, hi as int),
{
    let mut s = String::new();
    let mut i = lo;
    while i < hi
        invariant
            lo <= i <= hi <= v@.len(),
            s@ == v@.subrange(lo as int, i as int),
        decreases hi - i,
    {
        push_char(&mut s, v[i]);
        i += 1;
        assert(s@ =~= v@.subrange(lo as int, i as int));
    }
    s
}

/// The UTF-8 byte length of `v[lo..hi]`.
pub fn utf8_len_of(v: &Vec<char>, lo: usize, hi: usize) -> (n: usize)
    requires
        lo <= hi <= v@.len(),
        v@.len() <= usize::MAX / 4,
    ensures
        n == utf8_len(v@.subrange(lo as int, hi as int)),
{
    let mut n: usize = 0;
    let mut i = lo;
    while i < hi
        invariant
            lo <= i <= hi <= v@.len(),
            v@.len() <= usize::MAX / 4,
            n == utf8_len(v@.subrange(lo as int, i as int)),
            n <= 4 * (i - lo),
        decreases hi - i,
    {
        let u = #[verifier::truncate] (v[i] as u32);
        let w: usize = if u < 0x80 {
            1
        } else if u < 0x800 {
            2
        } else if u < 0x10000 {
            3
        } else {
            4
        };
        assert(v@.subrange(lo as int, i + 1).drop_last() =~= v@.subrange(lo as int, i as int));
        n = n + w;
        i += 1;
    }
    n
}

/// The bounds of `v[lo..hi]` with surrounding whitespace removed.
pub fn trim_bounds(v: &Vec<char>, lo: usize, hi: usize) -> (r: (usize, usize))
    requires
        lo <= hi <= v@.len(),
    ensures
        lo <= r.0 <= r.1 <= hi,
        v@.subrange(r.0 as int, r.1 as int) == trim(v@.subrange(lo as int, hi as int)),
{
    let mut a = lo;
    while a < hi && is_whitespace(v[a])
        invariant
            lo <= a <= hi <= v@.len(),
            trim_start(v@.subrange(lo as int, hi as int)) == trim_start(v@.subrange(a as int, hi as int)),
        decreases hi - a,
    {
        assert(v@.subrange(a as int, hi as int).drop_first() =~= v@.subrange(a + 1, hi as int));
        a += 1;
    }
    let mut b = hi;
    while b > a && is_whitespace(v[b - 1])
        invariant
            lo <= a <= b <= hi <= v@.len(),
            trim_start(v@.subrange(lo as int, hi as int)) == v@.subrange(a as int, hi as int),
            trim_end(v@.subrange(a as int, hi as int)) == trim_end(v@.subrange(a as int, b as int)),
        decreases b - a,
    {
        assert(v@.subrange(a as int, b as int).drop_last() =~= v@.subrange(a as int, b - 1));
        b -= 1;
    }
    (a, b)
}

/// Whether `pat` occurs in `v` at position `i`.
pub fn occurs_at_exec(v: &Vec<char>, pat: &Vec<char>, i: usize) -> (r: bool)
    ensures
        r == occurs_at(v@, pat@, i as int),
{
    if i > v.len() || pat.len() > v.len() - i {
        return false;
    }
    let mut k: usize = 0;
    while k < pat.len()
        invariant
            i + pat@.len() <= v@.len(),
            i + pat@.len() <= v.len(),
            0 <= k <= pat@.len(),
            forall|j: int| 0 <= j < k ==> v@[i + j] == pat@[j],
        decreases pat@.len() - k,
    {
        if v[i + k] != pat[k] {
            assert(v@.subrange(i as int, i + pat@.len())[k as int] != pat@[k as int]);
            return false;
        }
        k += 1;
    }
    assert(v@.subrange(i as int, i + pat@.len()) =~= pat@);
    true
}

/// The first position at or after `from` where `pat` occurs in `v`.
pub fn find_from_exec(v: &Vec<char>, pat: &Vec<char>, from: usize) -> (r: Option<usize>)
    ensures
        r matches Some(i) ==> find_from(v@, pat@, from as int) == Some(i as nat),
        r is None ==> find_from(v@, pat@, from as int) is None,
{
    if pat.len() == 0 {
        if from <= v.len() {
            assert(v@.subrange(from as int, from as int) =~= pat@);
            return Some(from);
        }
        return None;
    }
    if pat.len() > v.len() {
        return None;
    }
    let mut i = from;
    while i <= v.len() - pat.len()
        invariant
            from <= i,
            0 < pat@.len() <= v@.len(),
            find_from(v@, pat@, from as int) == find_from(v@, pat@, i as int),
        decreases v@.len() + 1 - i,
    {
        if occurs_at_exec(v, pat, i) {
            return Some(i);
        }
        i += 1;
    }
    None
}

/// The last position of `pat` in `v`.
pub fn rfind_exec(v: &Vec<char>, pat: &Vec<char>) -> (r: Option<usize>)
    ensures
        r matches Some(i) ==> rfind(v@, pat@) == Some(i as nat),
        r is None ==> rfind(v@, pat@) is None,
{
    if pat.len() > v.len() {
        return None;
    }
    if pat.len() == 0 {
        assert(v@.subrange(v@.len() as int, v@.len() as int) =~= pat@);
        return Some(v.len());
    }
    let mut i: usize = v.len() - pat.len() + 1;
    while i > 0
        invariant
            0 <= i <= v@.len() - pat@.len() + 1,
            rfind(v@, pat@) == rfind_upto(v@, pat@, i - 1),
        decreases i,
    {
        if occurs_at_exec(v, pat, i - 1) {
            return Some(i - 1);
        }
        i -= 1;
    }
    None
}

/// Whether the UTF-8 byte length of `v[lo..hi]` exceeds `limit`.
pub fn utf8_len_exceeds(v: &Vec<char>, lo: usize, hi: usize, limit: usize) -> (r: bool)
    requires
        lo <= hi <= v@.len(),
        limit < usize::MAX - 4,
    ensures
        r == (utf8_len(v@.subrange(lo as int, hi as int)) > limit),
{
    let mut n: usize = 0;
    let mut i = lo;
    while i < hi
        invariant
            lo <= i <= hi <= v@.len(),
            limit < usize::MAX - 4,
            n == utf8_len(v@.subrange(lo as int, i as int)),
            n <= limit,
        decreases hi - i,
    {
        let u = #[verifier::truncate] (v[i] as u32);
        let w: usize = if u < 0x80 {
            1
        } else if u < 0x800 {
            2
        } else if u < 0x10000 {
            3
        } else {
            4
        };
        assert(v@.subrange(lo as int, i + 1).drop_last() =~= v@.subrange(lo as int, i as int));
        n = n + w;
        i += 1;
        if n > limit {
            proof {
                lemma_utf8_len_monotone(v@.subrange(lo as int, hi as int), i - lo);
                assert(v@.subrange(lo as int, hi as int).take(i - lo) =~= v@.subrange(lo as int, i as int));
            }
            return true;
        }
    }
    false
}

/// A prefix never has more bytes than the whole.
pub proof fn lemma_utf8_len_monotone(s: Seq<char>, k: int)
    requires
        0 <= k <= s.len(),
    ensures
        utf8_len(s.take(k)) <= utf8_len(s),
    decreases s.len(),
{
    if k < s.len() {
        assert(s.drop_last().take(k) =~= s.take(k));
        lemma_utf8_len_monotone(s.drop_last(), k);
    } else {
        assert(s.take(k) =~= s);
    }
}

/// A copy of `v[lo..hi]`.
pub fn sub_vec(v: &Vec<char>, lo: usize, hi: usize) -> (w: Vec<char>)
    requires
        lo <= hi <= v@.len(),
    ensures
        w@ == v@.subrange(lo as int, hi as int),
{
    let mut w: Vec<char> = Vec::new();
    let mut i = lo;
    while i < hi
        invariant
            lo <= i <= hi <= v@.len(),
            w@ == v@.subrange(lo as int, i as int),
        decreases hi - i,
    {
        w.push(v[i]);
        i += 1;
        assert(w@ =~= v@.subrange(lo as int, i as int));
    }
    w
}

/// The position of `pat` in `v[base..]`, relative to `base`, is that of
/// `pat` in `v` from `base` on.
pub proof fn lemma_find_shift(s: Seq<char>, pat: Seq<char>, base: int, i: int)
    requires
        0 <= base <= s.len(),
        0 <= i,
    ensures
        find_from(s.subrange(base, s.len() as int), pat, i) == match find_from(s, pat, base + i) {
            Some(n) => Some((n - base) as nat),
            None => None::<nat>,
        },
    decreases s.len() + 1 - base - i,
{
    let t = s.subrange(base, s.len() as int);
    if !(i + pat.len() > t.len()) {
        assert(occurs_at(t, pat, i) == occurs_at(s, pat, base + i)) by {
            if base + i + pat.len() <= s.len() {
                assert(t.subrange(i, i + pat.len()) =~= s.subrange(base + i, base + i + pat.len()));
            }
        }
        if !occurs_at(t, pat, i) {
            lemma_find_shift(s, pat, base, i + 1);
        }
    }
}

/// The characters that make up the first `n` bytes of `s`; when byte `n`
/// falls inside a character, the characters before it.
pub open spec fn take_bytes(s: Seq<char>, n: nat) -> Seq<char>
    decreases s.len(),
{
    if s.len() == 0 || n == 0 {
        Seq::empty()
    } else if char_width(s[0]) <= n {
        seq![s[0]] + take_bytes(s.drop_first(), (n - char_width(s[0])) as nat)
    } else {
        Seq::empty()
    }
}

/// The characters that make up the last `n` bytes of `s`; when that cut
/// falls inside a character, the characters after it.
pub open spec fn last_bytes(s: Seq<char>, n: nat) -> Seq<char>
    decreases s.len(),
{
    if s.len() == 0 || n == 0 {
        Seq::empty()
    } else if char_width(s.last()) <= n {
        last_bytes(s.drop_last(), (n - char_width(s.last())) as nat).push(s.last())
    } else {
        Seq::empty()
    }
}

/// `s` starts with `p`.
pub open spec fn starts_with(s: Seq<char>, p: Seq<char>) -> bool {
    occurs_at(s, p, 0)
}

/// `p` occurs in `s`.
pub open spec fn contains(s: Seq<char>, p: Seq<char>) -> bool {
    find(s, p) is Some
}

proof fn lemma_utf8_len_push(s: Seq<char>, i: int)
    requires
        0 <= i < s.len(),
    ensures
        utf8_len(s.take(i + 1)) == utf8_len(s.take(i)) + char_width(s[i]),
{
    assert(s.take(i + 1).drop_last() =~= s.take(i));
}

proof fn lemma_utf8_len_prepend(c: char, s: Seq<char>)
    ensures
        utf8_len(seq![c] + s) == char_width(c) + utf8_len(s),
    decreases s.len(),
{
    if s.len() > 0 {
        assert((seq![c] + s).drop_last() =~= seq![c] + s.drop_last());
        assert((seq![c] + s).last() == s.last());
        lemma_utf8_len_prepend(c, s.drop_last());
        assert(utf8_len(seq![c] + s) == utf8_len((seq![c] + s).drop_last()) + char_width(s.last()));
        assert(utf8_len(s) == utf8_len(s.drop_last()) + char_width(s.last()));
    } else {
        assert(seq![c] + s =~= seq![c]);
        assert(seq![c].drop_last() =~= Seq::<char>::empty());
        assert(utf8_len(seq![c]) == utf8_len(seq![c].drop_last()) + char_width(c));
        assert(utf8_len(Seq::<char>::empty()) == 0);
    }
}

/// The number of leading characters of `v` that make up its first `n`
/// bytes, and whether they make up exactly `n` bytes.
pub fn prefix_for_bytes(v: &Vec<char>, n: usize) -> (r: (usize, bool))
    ensures
        r.0 <= v@.len(),
        v@.take(r.0 as int) == take_bytes(v@, n as nat),
        r.1 == (utf8_len(take_bytes(v@, n as nat)) == n),
{
    let mut i: usize = 0;
    let mut acc: usize = 0;
    assert(v@.take(0) + take_bytes(v@.skip(0), n as nat) =~= take_bytes(v@, n as nat)) by {
        assert(v@.skip(0) =~= v@);
    }
    loop
        invariant
            0 <= i <= v@.len(),
            acc <= n,
            acc == utf8_len(v@.take(i as int)),
            take_bytes(v@, n as nat) == v@.take(i as int) + take_bytes(v@.skip(i as int), (n - acc) as nat),
        ensures
            0 <= i <= v@.len(),
            acc <= n,
            acc == utf8_len(v@.take(i as int)),
            take_bytes(v@, n as nat) == v@.take(i as int) + take_bytes(v@.skip(i as int), (n - acc) as nat),
            take_bytes(v@.skip(i as int), (n - acc) as nat) =~= Seq::<char>::empty(),
        decreases v@.len() - i,
    {
        if i >= v.len() || acc == n {
            break;
        }
        let u = #[verifier::truncate] (v[i] as u32);
        let w: usize = if u < 0x80 {
            1
        } else if u < 0x800 {
            2
        } else if u < 0x10000 {
            3
        } else {
            4
        };
        if w > n - acc {
            assert(v@.skip(i as int)[0] == v@[i as int]);
            break;
        }
        proof {
            let rest = v@.skip(i as int);
            assert(rest[0] == v@[i as int]);
            assert(rest.drop_first() =~= v@.skip(i + 1));
            assert(v@.take(i as int) + seq![v@[i as int]] =~= v@.take(i + 1));
            assert(take_bytes(rest, (n - acc) as nat) == seq![rest[0]] + take_bytes(
                rest.drop_first(),
                (n - acc - w) as nat,
            ));
            assert((v@.take(i as int) + seq![v@[i as int]]) + take_bytes(v@.skip(i + 1), (n - acc - w) as nat)
                =~= v@.take(i as int) + (seq![v@[i as int]] + take_bytes(v@.skip(i + 1), (n - acc - w) as nat)));
            lemma_utf8_len_push(v@, i as int);
        }
        acc = acc + w;
        i = i + 1;
    }
    proof {
        assert(v@.take(i as int) + Seq::<char>::empty() =~= v@.take(i as int));
    }
    (i, acc == n)
}

/// The index where the last `n` bytes of `v` begin, and whether the
/// characters from there make up exactly `n` bytes.
pub fn suffix_for_bytes(v: &Vec<char>, n: usize) -> (r: (usize, bool))
    ensures
        r.0 <= v@.len(),
        v@.skip(r.0 as int) == last_bytes(v@, n as nat),
        r.1 == (utf8_len(last_bytes(v@, n as nat)) == n),
{
    let mut i: usize = v.len();
    let mut acc: usize = 0;
    assert(v@.skip(v@.len() as int) =~= Seq::<char>::empty());
    assert(v@.take(v@.len() as int) =~= v@);
    assert(last_bytes(v@, n as nat) =~= last_bytes(v@.take(v@.len() as int), n as nat) + v@.skip(v@.len() as int));
    loop
        invariant
            0 <= i <= v@.len(),
            acc <= n,
            acc == utf8_len(v@.skip(i as int)),
            last_bytes(v@, n as nat) == last_bytes(v@.take(i as int), (n - acc) as nat) + v@.skip(i as int),
        ensures
            0 <= i <= v@.len(),
            acc <= n,
            acc == utf8_len(v@.skip(i as int)),
            last_bytes(v@, n as nat) == last_bytes(v@.take(i as int), (n - acc) as nat) + v@.skip(i as int),
            last_bytes(v@.take(i as int), (n - acc) as nat) =~= Seq::<char>::empty(),
        decreases i,
    {
        if i == 0 || acc == n {
            break;
        }
        let u = #[verifier::truncate] (v[i - 1] as u32);
        let w: usize = if u < 0x80 {
            1
        } else if u < 0x800 {
            2
        } else if u < 0x10000 {
            3
        } else {
            4
        };
        if w > n - acc {
            assert(v@.take(i as int).last() == v@[i - 1]);
            break;
        }
        proof {
            let front = v@.take(i as int);
            assert(front.last() == v@[i - 1]);
            assert(front.drop_last() =~= v@.take(i - 1));
            assert(seq![v@[i - 1]] + v@.skip(i as int) =~= v@.skip(i - 1));
            assert(last_bytes(front, (n - acc) as nat) == last_bytes(front.drop_last(), (n - acc - w) as nat).push(front.last()));
            assert(last_bytes(v@.take(i - 1), (n - acc - w) as nat).push(v@[i - 1]) + v@.skip(i as int)
                =~= last_bytes(v@.take(i - 1), (n - acc - w) as nat) + v@.skip(i - 1));
            lemma_utf8_len_prepend(v@[i - 1], v@.skip(i as int));
        }
        acc = acc + w;
        i = i - 1;
    }
    proof {
        assert(Seq::<char>::empty() + v@.skip(i as int) =~= v@.skip(i as int));
    }
    (i, acc == n)
}

/// The lines of `text`, as `str::lines` yields them.
pub fn split_lines(text: &str) -> (ls: Vec<String>)
    ensures
        ls@.map_values(|l: String| l@) == lines(text@),
{
    let v = chars_of(text);
    let ghost t = v@;
    let nl = chars_of("\n");
    proof {
        reveal_strlit("\n");
        assert(nl@ =~= seq!['\n']);
    }
    let mut ls: Vec<String> = Vec::new();
    let mut pos: usize = 0;
    assert(t.subrange(0, t.len() as int) =~= t);
    while pos < v.len()
        invariant
            0 <= pos <= v@.len(),
            t == v@,
            nl@ == seq!['\n'],
            ls@.map_values(|l: String| l@) + lines(t.subrange(pos as int, t.len() as int)) == lines(t),
        decreases v@.len() - pos,
    {
        let ghost rest = t.subrange(pos as int, t.len() as int);
        let found = find_from_exec(&v, &nl, pos);
        proof {
            lemma_find_shift(t, seq!['\n'], pos as int, 0);
            lemma_find_from_some(t, seq!['\n'], pos as int);
        }
        let (line_end, next) = match found {
            Some(n) => {
                assert(t.subrange(n as int, n + 1)[0] == '\n');
                if n > pos && v[n - 1] == '\r' {
                    (n - 1, n + 1)
                } else {
                    (n, n + 1)
                }
            },
            None => (v.len(), v.len()),
        };
        let ghost line = t.subrange(pos as int, line_end as int);
        proof {
            reveal_with_fuel(lines, 1);
            match found {
                Some(n) => {
                    assert(rest.take(n - pos) =~= t.subrange(pos as int, n as int));
                    assert(strip_cr(rest.take(n - pos)) =~= line);
                    assert(rest.skip(n - pos + 1) =~= t.subrange(next as int, t.len() as int));
                },
                None => {
                    assert(rest =~= line);
                    assert(t.subrange(next as int, t.len() as int) =~= Seq::<char>::empty());
                },
            }
            assert(lines(rest) =~= seq![line] + lines(t.subrange(next as int, t.len() as int)));
        }
        let l = string_of(&v, pos, line_end);
        let ghost before = ls@.map_values(|l: String| l@);
        ls.push(l);
        proof {
            assert(ls@.map_values(|l: String| l@) =~= before.push(line));
            assert(before.push(line) + lines(t.subrange(next as int, t.len() as int)) =~= before + (seq![line] + lines(t.subrange(next as int, t.len() as int))));
        }
        pos = next;
    }
    proof {
        assert(t.subrange(pos as int, t.len() as int) =~= Seq::<char>::empty());
        reveal_with_fuel(lines, 1);
        assert(ls@.map_values(|l: String| l@) + Seq::<Seq<char>>::empty() =~= ls@.map_values(|l: String| l@));
    }
    ls
}

/// The characters of `s`.
pub fn chars_of(s: &str) -> (v: Vec<char>)
    ensures
        v@ == s@,
{
    let mut v: Vec<char> = Vec::new();
    for c in it: s.chars()
        invariant
            v@ == it.seq().take(it.index() as int),
    {
        v.push(c);
    }
    v
}

} // verus!
