//! Character-level text operations: the parts of `str`'s API that the
//! request handling relies on (`trim`, `starts_with`, `contains`, `find`,
//! `split`, `join`), stated over `Seq<char>` and implemented on `Vec<char>`.
use vstd::prelude::*;

verus! {

/// The Unicode `White_Space` property, which `char::is_whitespace` and
/// `str::trim` use.
pub open spec fn is_ws(c: char) -> bool {
    let u = c as u32;
    ||| 0x09 <= u <= 0x0D
    ||| u == 0x20 || u == 0x85 || u == 0xA0 || u == 0x1680
    ||| 0x2000 <= u <= 0x200A
    ||| u == 0x2028 || u == 0x2029 || u == 0x202F || u == 0x205F || u == 0x3000
}

/// The characters that trimming removes: white space, or `|` when `pipes` holds.
pub open spec fn strippable(c: char, pipes: bool) -> bool {
    if pipes {
        c == '|'
    } else {
        is_ws(c)
    }
}

/// Index of the first position at or after `i` whose character is not strippable.
pub open spec fn skip_front(s: Seq<char>, i: int, strip: bool) -> int
    decreases s.len() - i,
{
    if 0 <= i < s.len() && strippable(s[i], strip) {
        skip_front(s, i + 1, strip)
    } else {
        i
    }
}

/// End of the range `[lo, hi)` once trailing strippable characters are removed.
pub open spec fn skip_back(s: Seq<char>, lo: int, hi: int, strip: bool) -> int
    decreases hi - lo,
{
    if lo < hi && strippable(s[hi - 1], strip) {
        skip_back(s, lo, hi - 1, strip)
    } else {
        hi
    }
}

/// `s` without its leading and trailing strippable characters.
pub open spec fn strip_both(s: Seq<char>, strip: bool) -> Seq<char> {
    let a = skip_front(s, 0, strip);
    s.subrange(a, skip_back(s, a, s.len() as int, strip))
}

/// `str::trim`.
pub open spec fn trim(s: Seq<char>) -> Seq<char> {
    strip_both(s, false)
}

/// `str::trim_matches('|')`.
pub open spec fn trim_pipes(s: Seq<char>) -> Seq<char> {
    strip_both(s, true)
}

/// A string is blank when nothing is left after trimming.
pub open spec fn is_blank(s: Seq<char>) -> bool {
    trim(s).len() == 0
}

/// `str::starts_with` for a string pattern.
pub open spec fn starts_with(s: Seq<char>, p: Seq<char>) -> bool {
    p.len() <= s.len() && s.subrange(0, p.len() as int) == p
}

/// `p` occurs in `s` at position `i`.
pub open spec fn occurs_at(s: Seq<char>, p: Seq<char>, i: int) -> bool {
    0 <= i && i + p.len() <= s.len() && s.subrange(i, i + p.len()) == p
}

/// `str::contains` for a string pattern.
pub open spec fn contains(s: Seq<char>, p: Seq<char>) -> bool {
    exists|i: int| occurs_at(s, p, i)
}

/// Index of the first `c` at or after `i`.
pub open spec fn find_from(s: Seq<char>, c: char, i: int) -> Option<int>
    decreases s.len() - i,
{
    if i < 0 || i >= s.len() {
        None
    } else if s[i] == c {
        Some(i)
    } else {
        find_from(s, c, i + 1)
    }
}

/// `str::find` for a single character (as a character index).
pub open spec fn find(s: Seq<char>, c: char) -> Option<int> {
    find_from(s, c, 0)
}

/// The part of `s` before the first `c`: what `s.split(c).next()` gives.
pub open spec fn before_first(s: Seq<char>, c: char) -> Seq<char> {
    match find(s, c) {
        Some(k) => s.take(k),
        None => s,
    }
}

/// `str::split` on a character: every piece between two separators,
/// so there is always one piece more than there are separators.
pub open spec fn split(s: Seq<char>, c: char) -> Seq<Seq<char>>
    decreases s.len(),
{
    if s.len() == 0 {
        seq![Seq::<char>::empty()]
    } else {
        let prev = split(s.drop_last(), c);
        if s.last() == c {
            prev.push(Seq::<char>::empty())
        } else {
            prev.update(prev.len() - 1, prev.last().push(s.last()))
        }
    }
}

/// `[T]::join` on strings with a separator.
pub open spec fn join(parts: Seq<Seq<char>>, sep: Seq<char>) -> Seq<char>
    decreases parts.len(),
{
    if parts.len() == 0 {
        Seq::empty()
    } else if parts.len() == 1 {
        parts[0]
    } else {
        join(parts.drop_last(), sep) + sep + parts.last()
    }
}

/// The digit character of a number below ten.
pub open spec fn digit(d: nat) -> char {
    if d == 0 { '0' }
    else if d == 1 { '1' }
    else if d == 2 { '2' }
    else if d == 3 { '3' }
    else if d == 4 { '4' }
    else if d == 5 { '5' }
    else if d == 6 { '6' }
    else if d == 7 { '7' }
    else if d == 8 { '8' }
    else { '9' }
}

/// The decimal representation that `Display` gives an unsigned integer.
pub open spec fn decimal(n: nat) -> Seq<char>
    decreases n,
{
    if n < 10 {
        seq![digit(n)]
    } else {
        decimal(n / 10).push(digit(n % 10))
    }
}

/// The views of a sequence of strings.
pub open spec fn views(v: Seq<String>) -> Seq<Seq<char>> {
    v.map_values(|s: String| s@)
}

/// The views of a sequence of character vectors.
pub open spec fn char_views(v: Seq<Vec<char>>) -> Seq<Seq<char>> {
    v.map_values(|s: Vec<char>| s@)
}

pub proof fn lemma_skip_front_bounds(s: Seq<char>, i: int, strip: bool)
    requires
        0 <= i <= s.len(),
    ensures
        i <= skip_front(s, i, strip) <= s.len(),
        forall|k: int| i <= k < skip_front(s, i, strip) ==> strippable(#[trigger] s[k], strip),
        skip_front(s, i, strip) < s.len() ==> !strippable(s[skip_front(s, i, strip)], strip),
    decreases s.len() - i,
{
    if i < s.len() && strippable(s[i], strip) {
        lemma_skip_front_bounds(s, i + 1, strip);
    }
}

pub proof fn lemma_skip_back_bounds(s: Seq<char>, lo: int, hi: int, strip: bool)
    requires
        0 <= lo <= hi <= s.len(),
    ensures
        lo <= skip_back(s, lo, hi, strip) <= hi,
        forall|k: int| skip_back(s, lo, hi, strip) <= k < hi ==> strippable(#[trigger] s[k], strip),
        lo < skip_back(s, lo, hi, strip) ==> !strippable(s[skip_back(s, lo, hi, strip) - 1], strip),
    decreases hi - lo,
{
    if lo < hi && strippable(s[hi - 1], strip) {
        lemma_skip_back_bounds(s, lo, hi - 1, strip);
    }
}

pub proof fn lemma_find_from_bounds(s: Seq<char>, c: char, i: int)
    requires
        0 <= i,
    ensures
        match find_from(s, c, i) {
            Some(k) => i <= k < s.len() && s[k] == c && forall|j: int|
                i <= j < k ==> #[trigger] s[j] != c,
            None => forall|j: int| i <= j < s.len() ==> #[trigger] s[j] != c,
        },
    decreases s.len() - i,
{
    if i < s.len() && s[i] != c {
        lemma_find_from_bounds(s, c, i + 1);
    }
}

pub proof fn lemma_split_nonempty(s: Seq<char>, c: char)
    ensures
        split(s, c).len() >= 1,
    decreases s.len(),
{
    if s.len() > 0 {
        lemma_split_nonempty(s.drop_last(), c);
    }
}

/// Splitting at a separator that joins two strings splits each of them.
pub proof fn lemma_split_join(x: Seq<char>, c: char, y: Seq<char>)
    ensures
        split(x + seq![c] + y, c) == split(x, c) + split(y, c),
    decreases y.len(),
{
    let z = x + seq![c] + y;
    if y.len() == 0 {
        assert(z.drop_last() == x);
        assert(split(x, c) + split(y, c) == split(x, c).push(Seq::<char>::empty()));
    } else {
        lemma_split_join(x, c, y.drop_last());
        lemma_split_nonempty(y.drop_last(), c);
        assert(z.drop_last() == x + seq![c] + y.drop_last());
        let a = split(x, c);
        let b = split(y.drop_last(), c);
        if y.last() == c {
            assert((a + b).push(Seq::<char>::empty()) == a + b.push(Seq::<char>::empty()));
        } else {
            let ab = a + b;
            assert(ab.update(ab.len() - 1, ab.last().push(y.last())) == a + b.update(
                b.len() - 1,
                b.last().push(y.last()),
            ));
        }
    }
}

/// A string without the separator splits into itself alone.
pub proof fn lemma_split_single(h: Seq<char>, c: char)
    requires
        !h.contains(c),
    ensures
        split(h, c) == seq![h],
    decreases h.len(),
{
    if h.len() > 0 {
        assert(!h.drop_last().contains(c)) by {
            if h.drop_last().contains(c) {
                let k = choose|k: int| 0 <= k < h.drop_last().len() && h.drop_last()[k] == c;
                assert(h[k] == c);
            }
        }
        lemma_split_single(h.drop_last(), c);
        assert(h.last() != c) by {
            assert(h[h.len() - 1] == h.last());
        }
        assert(h.drop_last().push(h.last()) == h);
        assert(seq![h.drop_last()].update(0, h.drop_last().push(h.last())) =~= seq![h]);
    } else {
        assert(h =~= Seq::<char>::empty());
    }
}

/// Whether `c` is a Unicode white-space character.
pub fn is_ws_char(c: char) -> (b: bool)
    ensures
        b == is_ws(c),
{
    let u = c as u32;
    (0x09 <= u && u <= 0x0D) || u == 0x20 || u == 0x85 || u == 0xA0 || u == 0x1680 || (0x2000
        <= u && u <= 0x200A) || u == 0x2028 || u == 0x2029 || u == 0x202F || u == 0x205F || u
        == 0x3000
}

#[verifier::external_body]
fn push_char(s: &mut String, c: char)
    ensures
        final(s)@ == old(s)@.push(c),
{
    s.push(c);
}

/// Whether two strings are equal.
pub fn str_eq(a: &str, b: &str) -> (r: bool)
    ensures
        r == (a@ == b@),
{
    eq_chars(&chars_of(a), &chars_of(b))
}

/// The characters of a string.
pub fn chars_of(s: &str) -> (v: Vec<char>)
    ensures
        v@ == s@,
{
    let mut v: Vec<char> = Vec::new();
    for c in it: s.chars()
        invariant
            v@ == it.seq().take(it.index() as int),
            it.seq() == s@,
    {
        v.push(c);
    }
    v
}

/// The string made of the characters `s[lo..hi]`.
pub fn string_of_range(s: &Vec<char>, lo: usize, hi: usize) -> (r: String)
    requires
        lo <= hi <= s.len(),
    ensures
        r@ == s@.subrange(lo as int, hi as int),
{
    let mut r = String::new();
    let mut i = lo;
    while i < hi
        invariant
            lo <= i <= hi <= s.len(),
            r@ == s@.subrange(lo as int, i as int),
        decreases hi - i,
    {
        push_char(&mut r, s[i]);
        assert(s@.subrange(lo as int, i + 1) == s@.subrange(lo as int, i as int).push(s@[i as int]));
        i += 1;
    }
    r
}

/// The string made of the characters of `s`.
pub fn string_of(s: &Vec<char>) -> (r: String)
    ensures
        r@ == s@,
{
    let r = string_of_range(s, 0, s.len());
    assert(s@.subrange(0, s@.len() as int) == s@);
    r
}

/// The first `limit` characters of a response body, for error messages.
pub fn body_preview(body: &str, limit: usize) -> (r: String)
    ensures
        r@ == body@.take(if limit < body@.len() { limit as int } else { body@.len() as int }),
{
    let v = chars_of(body);
    let hi: usize = if limit < v.len() { limit } else { v.len() };
    string_of_range(&v, 0, hi)
}

/// A copy of `s[lo..hi]`.
pub fn sub_chars(s: &Vec<char>, lo: usize, hi: usize) -> (r: Vec<char>)
    requires
        lo <= hi <= s.len(),
    ensures
        r@ == s@.subrange(lo as int, hi as int),
{
    let mut r: Vec<char> = Vec::new();
    let mut i = lo;
    while i < hi
        invariant
            lo <= i <= hi <= s.len(),
            r@ == s@.subrange(lo as int, i as int),
        decreases hi - i,
    {
        r.push(s[i]);
        assert(s@.subrange(lo as int, i + 1) == s@.subrange(lo as int, i as int).push(s@[i as int]));
        i += 1;
    }
    r
}

/// The bounds `[a, b)` of `s` once white space is trimmed from both ends.
pub fn trim_bounds(s: &Vec<char>) -> (r: (usize, usize))
    ensures
        r.0 <= r.1 <= s.len(),
        r.0 == skip_front(s@, 0, false),
        r.1 == skip_back(s@, r.0 as int, s@.len() as int, false),
        s@.subrange(r.0 as int, r.1 as int) == trim(s@),
{
    let mut a: usize = 0;
    while a < s.len() && is_ws_char(s[a])
        invariant
            a <= s.len(),
            skip_front(s@, 0, false) == skip_front(s@, a as int, false),
        decreases s.len() - a,
    {
        assert(skip_front(s@, a as int, false) == skip_front(s@, a + 1, false));
        a += 1;
    }
    let mut b: usize = s.len();
    while b > a && is_ws_char(s[b - 1])
        invariant
            a <= b <= s.len(),
            skip_back(s@, a as int, s@.len() as int, false) == skip_back(s@, a as int, b as int, false),
        decreases b - a,
    {
        assert(skip_back(s@, a as int, b as int, false) == skip_back(s@, a as int, b - 1, false));
        b -= 1;
    }
    (a, b)
}

/// `str::trim`.
pub fn trim_chars(s: &Vec<char>) -> (r: Vec<char>)
    ensures
        r@ == trim(s@),
{
    let (a, b) = trim_bounds(s);
    sub_chars(s, a, b)
}

/// Whether `str::trim` leaves nothing of `s`.
pub fn is_blank_str(s: &str) -> (r: bool)
    ensures
        r == is_blank(s@),
{
    let v = chars_of(s);
    let (a, b) = trim_bounds(&v);
    a == b
}

/// `str::trim_matches('|')`.
pub fn trim_pipe_chars(s: &Vec<char>) -> (r: Vec<char>)
    ensures
        r@ == trim_pipes(s@),
{
    let mut a: usize = 0;
    while a < s.len() && s[a] == '|'
        invariant
            a <= s.len(),
            skip_front(s@, 0, true) == skip_front(s@, a as int, true),
        decreases s.len() - a,
    {
        assert(skip_front(s@, a as int, true) == skip_front(s@, a + 1, true));
        a += 1;
    }
    let mut b: usize = s.len();
    while b > a && s[b - 1] == '|'
        invariant
            a <= b <= s.len(),
            skip_back(s@, a as int, s@.len() as int, true) == skip_back(s@, a as int, b as int, true),
        decreases b - a,
    {
        assert(skip_back(s@, a as int, b as int, true) == skip_back(s@, a as int, b - 1, true));
        b -= 1;
    }
    sub_chars(s, a, b)
}

/// `str::starts_with`.
pub fn starts_with_chars(s: &Vec<char>, p: &Vec<char>) -> (r: bool)
    ensures
        r == starts_with(s@, p@),
{
    if p.len() > s.len() {
        return false;
    }
    let mut i: usize = 0;
    while i < p.len()
        invariant
            p.len() <= s.len(),
            i <= p.len(),
            forall|k: int| 0 <= k < i ==> s@[k] == p@[k],
        decreases p.len() - i,
    {
        if s[i] != p[i] {
            assert(s@.subrange(0, p@.len() as int)[i as int] != p@[i as int]);
            return false;
        }
        i += 1;
    }
    assert(s@.subrange(0, p@.len() as int) =~= p@);
    true
}

/// Whether `p` occurs in `s` at position `i`.
fn occurs_at_exec(s: &Vec<char>, p: &Vec<char>, i: usize) -> (r: bool)
    requires
        i + p.len() <= s.len(),
    ensures
        r == occurs_at(s@, p@, i as int),
{
    let mut k: usize = 0;
    while k < p.len()
        invariant
            i + p.len() <= s.len(),
            k <= p.len(),
            forall|j: int| 0 <= j < k ==> s@[i + j] == p@[j],
        decreases p.len() - k,
    {
        if s[i + k] != p[k] {
            assert(s@.subrange(i as int, i + p@.len())[k as int] != p@[k as int]);
            return false;
        }
        k += 1;
    }
    assert(s@.subrange(i as int, i + p@.len()) =~= p@);
    true
}

/// `str::contains`.
pub fn contains_chars(s: &Vec<char>, p: &Vec<char>) -> (r: bool)
    ensures
        r == contains(s@, p@),
{
    if p.len() > s.len() {
        return false;
    }
    let mut i: usize = 0;
    let last = s.len() - p.len();
    loop
        invariant
            p.len() <= s.len(),
            last == s.len() - p.len(),
            i <= last,
            forall|j: int| 0 <= j < i ==> !occurs_at(s@, p@, j),
        ensures
            forall|j: int| 0 <= j <= last ==> !occurs_at(s@, p@, j),
        decreases last - i,
    {
        if occurs_at_exec(s, p, i) {
            return true;
        }
        if i == last {
            break;
        }
        i += 1;
    }
    assert forall|j: int| !occurs_at(s@, p@, j) by {
        if 0 <= j && j + p@.len() <= s@.len() {
            assert(j <= last);
        }
    }
    false
}

/// `str::find` for a character, as a character index.
pub fn find_char(s: &Vec<char>, c: char) -> (r: Option<usize>)
    ensures
        r matches Some(k) ==> find(s@, c) == Some(k as int),
        r is None ==> find(s@, c) is None,
{
    let mut i: usize = 0;
    while i < s.len()
        invariant
            i <= s.len(),
            find(s@, c) == find_from(s@, c, i as int),
        decreases s.len() - i,
    {
        if s[i] == c {
            return Some(i);
        }
        i += 1;
    }
    None
}

/// `s.split(c).next()`: the part of `s` before its first `c`.
pub fn before_first_chars(s: &Vec<char>, c: char) -> (r: Vec<char>)
    ensures
        r@ == before_first(s@, c),
{
    match find_char(s, c) {
        Some(k) => {
            proof {
                lemma_find_from_bounds(s@, c, 0);
            }
            let r = sub_chars(s, 0, k);
            assert(r@ == s@.take(k as int));
            r
        },
        None => {
            let r = sub_chars(s, 0, s.len());
            assert(s@.subrange(0, s@.len() as int) == s@);
            r
        },
    }
}

/// `str::split` on a character.
pub fn split_chars(s: &Vec<char>, c: char) -> (r: Vec<Vec<char>>)
    ensures
        char_views(r@) == split(s@, c),
{
    let mut done: Vec<Vec<char>> = Vec::new();
    let mut cur: Vec<char> = Vec::new();
    let mut i: usize = 0;
    while i < s.len()
        invariant
            i <= s.len(),
            char_views(done@).push(cur@) == split(s@.take(i as int), c),
        decreases s.len() - i,
    {
        let ghost prev = split(s@.take(i as int), c);
        assert(s@.take(i + 1).drop_last() == s@.take(i as int));
        if s[i] == c {
            let old_cur = cur;
            cur = Vec::new();
            done.push(old_cur);
            assert(char_views(done@).push(cur@) =~= prev.push(Seq::<char>::empty()));
        } else {
            cur.push(s[i]);
            assert(char_views(done@).push(cur@) =~= prev.update(
                prev.len() - 1,
                prev.last().push(s@[i as int]),
            ));
        }
        i += 1;
    }
    assert(s@.take(s@.len() as int) == s@);
    done.push(cur);
    assert(char_views(done@) =~= split(s@, c));
    done
}

/// `[String]::join`.
pub fn join_strings(parts: &Vec<String>, sep: &str) -> (r: String)
    ensures
        r@ == join(views(parts@), sep@),
{
    let mut r = String::new();
    let mut i: usize = 0;
    while i < parts.len()
        invariant
            i <= parts.len(),
            r@ == join(views(parts@.take(i as int)), sep@),
        decreases parts.len() - i,
    {
        let ghost vs = views(parts@.take(i + 1));
        assert(views(parts@.take(i + 1)).drop_last() =~= views(parts@.take(i as int)));
        if i == 0 {
            r.append(parts[i].as_str());
            assert(vs.len() == 1);
        } else {
            r.append(sep);
            r.append(parts[i].as_str());
        }
        i += 1;
    }
    assert(parts@.take(parts@.len() as int) == parts@);
    r
}

/// The decimal representation of `n`.
pub fn decimal_string(n: usize) -> (r: String)
    ensures
        r@ == decimal(n as nat),
    decreases n,
{
    if n < 10 {
        let mut r = String::new();
        push_char(&mut r, digit_char(n));
        r
    } else {
        let mut r = decimal_string(n / 10);
        push_char(&mut r, digit_char(n % 10));
        r
    }
}

fn digit_char(d: usize) -> (c: char)
    requires
        d < 10,
    ensures
        c == digit(d as nat),
{
    if d == 0 { '0' }
    else if d == 1 { '1' }
    else if d == 2 { '2' }
    else if d == 3 { '3' }
    else if d == 4 { '4' }
    else if d == 5 { '5' }
    else if d == 6 { '6' }
    else if d == 7 { '7' }
    else if d == 8 { '8' }
    else { '9' }
}

/// Whether two character sequences are equal.
pub fn eq_chars(a: &Vec<char>, b: &Vec<char>) -> (r: bool)
    ensures
        r == (a@ == b@),
{
    if a.len() != b.len() {
        return false;
    }
    let r = starts_with_chars(a, b);
    assert(a@.subrange(0, b@.len() as int) == a@);
    r
}

/// Whether `s` is among `v`, comparing by value.
pub fn contains_string(v: &Vec<String>, s: &String) -> (r: bool)
    ensures
        r == views(v@).contains(s@),
{
    let mut i: usize = 0;
    while i < v.len()
        invariant
            i <= v.len(),
            forall|k: int| 0 <= k < i ==> v@[k]@ != s@,
        decreases v.len() - i,
    {
        assert(views(v@)[i as int] == v@[i as int]@);
        if v[i] == *s {
            return true;
        }
        i += 1;
    }
    assert(!views(v@).contains(s@)) by {
        if views(v@).contains(s@) {
            let k = choose|k: int| 0 <= k < views(v@).len() && views(v@)[k] == s@;
            assert(views(v@)[k] == v@[k]@);
        }
    }
    false
}

} // verus!
