//! Character-level string helpers shared by the other modules.

use vstd::prelude::*;
use vstd::std_specs::iter::IteratorSpec;

verus! {

broadcast use vstd::string::group_string_axioms;

/// `String::push` appends one character to the end of the string.
pub assume_specification[ String::push ](s: &mut String, ch: char)
    ensures
        final(s)@ == old(s)@.push(ch),
;

/// `String::pop` removes the last character and returns it, or returns
/// `None` and leaves the string alone when it is empty.
pub assume_specification[ String::pop ](s: &mut String) -> (r: Option<char>)
    ensures
        old(s)@.len() == 0 ==> r is None && final(s)@ == old(s)@,
        old(s)@.len() > 0 ==> r == Some(old(s)@.last()) && final(s)@ == old(s)@.drop_last(),
;

/// The view of an optional string.
pub open spec fn opt_view(o: Option<String>) -> Option<Seq<char>> {
    match o {
        Some(s) => Some(s@),
        None => None,
    }
}

/// The views of a list of strings.
pub open spec fn string_views(v: Seq<String>) -> Seq<Seq<char>> {
    v.map_values(|s: String| s@)
}

/// The characters of `s`, in order.
pub fn chars_of(s: &str) -> (r: Vec<char>)
    ensures
        r@ == s@,
{
    let mut it = s.chars();
    let mut r: Vec<char> = Vec::new();
    loop
        invariant
            r@ + it.remaining() == s@,
            it.decrease() is Some,
        decreases it.decrease()->0,
    {
        match it.next() {
            Some(c) => {
                r.push(c);
                assert(r@ + it.remaining() =~= s@);
            },
            None => {
                assert(r@ =~= s@);
                return r;
            },
        }
    }
}

/// A new string holding `chars[lo..hi]`.
pub fn string_from(chars: &Vec<char>, lo: usize, hi: usize) -> (r: String)
    requires
        lo <= hi <= chars@.len(),
    ensures
        r@ == chars@.subrange(lo as int, hi as int),
{
    let mut r = String::new();
    let mut i = lo;
    while i < hi
        invariant
            lo <= i <= hi <= chars@.len(),
            r@ == chars@.subrange(lo as int, i as int),
        decreases hi - i,
    {
        r.push(chars[i]);
        assert(r@ =~= chars@.subrange(lo as int, i + 1));
        i = i + 1;
    }
    r
}

/// A new string holding all of `chars`.
pub fn string_of(chars: &Vec<char>) -> (r: String)
    ensures
        r@ == chars@,
{
    let r = string_from(chars, 0, chars.len());
    assert(chars@.subrange(0, chars@.len() as int) =~= chars@);
    r
}

/// A copy of a string literal as an owned `String`.
pub fn owned(s: &str) -> (r: String)
    ensures
        r@ == s@,
{
    let cs = chars_of(s);
    string_of(&cs)
}

/// `p` is a prefix of `s`.
pub open spec fn has_prefix(s: Seq<char>, p: Seq<char>) -> bool {
    p.len() <= s.len() && s.take(p.len() as int) == p
}

/// Whether `s[at..]` begins with `p`.
pub fn prefix_at(s: &Vec<char>, at: usize, p: &Vec<char>) -> (r: bool)
    requires
        at <= s@.len(),
    ensures
        r == has_prefix(s@.skip(at as int), p@),
{
    if p.len() > s.len() - at {
        return false;
    }
    let mut k: usize = 0;
    while k < p.len()
        invariant
            at <= s@.len(),
            s.len() == s@.len(),
            p@.len() <= s@.len() - at,
            k <= p@.len(),
            forall|m: int| 0 <= m < k ==> s@[at + m] == p@[m],
        decreases p@.len() - k,
    {
        assert(at + k < s@.len());
        if s[at + k] != p[k] {
            assert(s@.skip(at as int).take(p@.len() as int)[k as int] != p@[k as int]);
            return false;
        }
        k = k + 1;
    }
    assert(s@.skip(at as int).take(p@.len() as int) =~= p@);
    true
}

/// Whether the two character sequences are equal.
pub fn chars_equal(a: &Vec<char>, b: &Vec<char>) -> (r: bool)
    ensures
        r == (a@ == b@),
{
    if a.len() != b.len() {
        return false;
    }
    let r = prefix_at(a, 0, b);
    assert(a@.skip(0) =~= a@);
    assert(a@.take(b@.len() as int) =~= a@);
    r
}

/// Whether the two strings hold the same characters.
pub fn str_equal(a: &str, b: &str) -> (r: bool)
    ensures
        r == (a@ == b@),
{
    let x = chars_of(a);
    let y = chars_of(b);
    chars_equal(&x, &y)
}

/// The characters that carry the Unicode `White_Space` property, which is
/// what `char::is_whitespace` and `str::trim` go by.
pub open spec fn is_space(c: char) -> bool {
    let u = c as u32;
    ||| 0x09 <= u <= 0x0d
    ||| u == 0x20
    ||| u == 0x85
    ||| u == 0xa0
    ||| u == 0x1680
    ||| 0x2000 <= u <= 0x200a
    ||| u == 0x2028
    ||| u == 0x2029
    ||| u == 0x202f
    ||| u == 0x205f
    ||| u == 0x3000
}

/// Whether `c` is a Unicode whitespace character.
pub fn space_char(c: char) -> (r: bool)
    ensures
        r == is_space(c),
{
    let u = c as u32;
    (0x09 <= u && u <= 0x0d) || u == 0x20 || u == 0x85 || u == 0xa0 || u == 0x1680 || (0x2000
        <= u && u <= 0x200a) || u == 0x2028 || u == 0x2029 || u == 0x202f || u == 0x205f || u
        == 0x3000
}

/// `s` without its leading whitespace.
pub open spec fn trim_start(s: Seq<char>) -> Seq<char>
    decreases s.len(),
{
    if s.len() > 0 && is_space(s[0]) {
        trim_start(s.drop_first())
    } else {
        s
    }
}

/// `s` without its trailing whitespace.
pub open spec fn trim_end(s: Seq<char>) -> Seq<char>
    decreases s.len(),
{
    if s.len() > 0 && is_space(s.last()) {
        trim_end(s.drop_last())
    } else {
        s
    }
}

/// `s` without leading and trailing whitespace, as `str::trim` gives it.
pub open spec fn trimmed(s: Seq<char>) -> Seq<char> {
    trim_end(trim_start(s))
}

proof fn lemma_trim_start_skip(s: Seq<char>, a: int)
    requires
        0 <= a <= s.len(),
        forall|m: int| 0 <= m < a ==> is_space(#[trigger] s[m]),
    ensures
        trim_start(s) == trim_start(s.skip(a)),
    decreases a,
{
    if a > 0 {
        assert(is_space(s[0]));
        assert(s.drop_first().skip(a - 1) =~= s.skip(a));
        assert forall|m: int| 0 <= m < a - 1 implies is_space(#[trigger] s.drop_first()[m]) by {
            assert(s.drop_first()[m] == s[m + 1]);
        }
        lemma_trim_start_skip(s.drop_first(), a - 1);
    } else {
        assert(s.skip(0) =~= s);
    }
}

proof fn lemma_trim_end_take(s: Seq<char>, b: int)
    requires
        0 <= b <= s.len(),
        forall|m: int| b <= m < s.len() ==> is_space(#[trigger] s[m]),
    ensures
        trim_end(s) == trim_end(s.take(b)),
    decreases s.len() - b,
{
    if b < s.len() {
        assert(is_space(s.last()));
        assert(s.drop_last().take(b) =~= s.take(b));
        assert forall|m: int| b <= m < s.drop_last().len() implies is_space(
            #[trigger] s.drop_last()[m],
        ) by {
            assert(s.drop_last()[m] == s[m]);
        }
        lemma_trim_end_take(s.drop_last(), b);
    } else {
        assert(s.take(b) =~= s);
    }
}

/// `s` with leading and trailing Unicode whitespace removed.
pub fn trim(s: &str) -> (r: String)
    ensures
        r@ == trimmed(s@),
{
    let cs = chars_of(s);
    let mut a: usize = 0;
    while a < cs.len() && space_char(cs[a])
        invariant
            a <= cs@.len(),
            forall|m: int| 0 <= m < a ==> is_space(#[trigger] cs@[m]),
        decreases cs@.len() - a,
    {
        a = a + 1;
    }
    proof {
        lemma_trim_start_skip(cs@, a as int);
    }
    let mut b: usize = cs.len();
    while b > a && space_char(cs[b - 1])
        invariant
            a <= b <= cs@.len(),
            forall|m: int| b <= m < cs@.len() ==> is_space(#[trigger] cs@[m]),
        decreases b,
    {
        b = b - 1;
    }
    proof {
        let t = cs@.skip(a as int);
        if a < cs@.len() {
            assert(t[0] == cs@[a as int]);
        }
        assert(trim_start(t) == t);
        assert forall|m: int| b - a <= m < t.len() implies is_space(#[trigger] t[m]) by {
            assert(t[m] == cs@[a + m]);
        }
        lemma_trim_end_take(t, b - a);
        let u = t.take(b - a);
        if b > a {
            assert(u.last() == cs@[b - 1]);
        }
        assert(trim_end(u) == u);
        assert(u =~= cs@.subrange(a as int, b as int));
    }
    string_from(&cs, a, b)
}

/// The text that `str::to_lowercase` gives for `text`: the Unicode
/// lowercase mapping, under which one character may become several and a
/// capital sigma depends on the characters around it.
pub uninterp spec fn lowercase_of(text: Seq<char>) -> Seq<char>;

/// Every character of `s` is ASCII.
pub open spec fn is_ascii_text(s: Seq<char>) -> bool {
    forall|i: int| 0 <= i < s.len() ==> (#[trigger] s[i]) as u32 <= 0x7f
}

/// The ASCII lowercase of one character: `A`..`Z` become `a`..`z`.
pub open spec fn ascii_lower_char(c: char) -> char {
    if 'A' <= c <= 'Z' {
        ((c as u32) + 32) as char
    } else {
        c
    }
}

/// The ASCII lowercase of each character of `s`.
pub open spec fn ascii_lower(s: Seq<char>) -> Seq<char> {
    s.map_values(|c: char| ascii_lower_char(c))
}

/// Calls `str::to_lowercase`. The result is named `lowercase_of`, since the
/// Unicode case tables it follows are not restated; of it, the contract
/// states what std documents: empty text stays empty, and ASCII text is
/// lowercased character by character as `to_ascii_lowercase` does.
#[verifier::external_body]
pub fn lowercase(s: &str) -> (r: String)
    ensures
        r@ == lowercase_of(s@),
        s@.len() == 0 ==> r@.len() == 0,
        is_ascii_text(s@) ==> r@ == ascii_lower(s@),
{
    s.to_lowercase()
}

/// All characters of `q` appear in `t`, in the same order: there are
/// strictly increasing positions of `t` that spell out `q`.
pub open spec fn is_subsequence(q: Seq<char>, t: Seq<char>) -> bool {
    exists|pos: Seq<int>| embeds(q, t, pos, 0, 0)
}

/// Dropping the last character of a pattern keeps it a subsequence.
pub proof fn lemma_subsequence_drop_last(q: Seq<char>, x: char, t: Seq<char>)
    requires
        is_subsequence(q.push(x), t),
    ensures
        is_subsequence(q, t),
{
    let pos = choose|pos: Seq<int>| embeds(q.push(x), t, pos, 0, 0);
    let p = pos.drop_last();
    assert forall|k: int| 0 <= k < p.len() implies 0 <= #[trigger] p[k] < t.len() && t[p[k]] == q[k] by {
        assert(p[k] == pos[k]);
        assert(q.push(x)[k] == q[k]);
    }
    assert forall|k1: int, k2: int| 0 <= k1 < k2 < p.len() implies p[k1] < p[k2] by {
        assert(p[k1] == pos[k1] && p[k2] == pos[k2]);
    }
    assert(embeds(q, t, p, 0, 0));
}

/// `pos` places `q[j..]` in `t` at strictly increasing positions, all at or
/// after `i`.
pub open spec fn embeds(q: Seq<char>, t: Seq<char>, pos: Seq<int>, j: int, i: int) -> bool {
    &&& pos.len() == q.len() - j
    &&& forall|k: int| 0 <= k < pos.len() ==> i <= #[trigger] pos[k] < t.len() && t[pos[k]] == q[j + k]
    &&& forall|k1: int, k2: int| 0 <= k1 < k2 < pos.len() ==> pos[k1] < pos[k2]
}

/// Greedy left-to-right matching of `q[j..]` in `t[i..]`.
pub open spec fn greedy_match(q: Seq<char>, t: Seq<char>, j: int, i: int) -> bool
    decreases t.len() - i,
{
    if j >= q.len() {
        true
    } else if i >= t.len() || i < 0 {
        false
    } else if q[j] == t[i] {
        greedy_match(q, t, j + 1, i + 1)
    } else {
        greedy_match(q, t, j, i + 1)
    }
}

proof fn lemma_greedy_complete(q: Seq<char>, t: Seq<char>, j: int, i: int, pos: Seq<int>)
    requires
        0 <= j <= q.len(),
        0 <= i,
        embeds(q, t, pos, j, i),
    ensures
        greedy_match(q, t, j, i),
    decreases t.len() - i,
{
    if j < q.len() {
        assert(i <= pos[0] < t.len());
        if q[j] == t[i] {
            let rest = pos.drop_first();
            assert forall|k: int| 0 <= k < rest.len() implies i + 1 <= #[trigger] rest[k] < t.len()
                && t[rest[k]] == q[j + 1 + k] by {
                assert(rest[k] == pos[k + 1]);
                assert(pos[0] < pos[k + 1]);
            }
            assert forall|k1: int, k2: int| 0 <= k1 < k2 < rest.len() implies rest[k1]
                < rest[k2] by {
                assert(rest[k1] == pos[k1 + 1]);
                assert(rest[k2] == pos[k2 + 1]);
            }
            lemma_greedy_complete(q, t, j + 1, i + 1, rest);
        } else {
            assert(pos[0] != i);
            assert forall|k: int| 0 <= k < pos.len() implies i + 1 <= #[trigger] pos[k] by {
                if k > 0 {
                    assert(pos[0] < pos[k]);
                }
            }
            lemma_greedy_complete(q, t, j, i + 1, pos);
        }
    }
}

proof fn lemma_greedy_sound(q: Seq<char>, t: Seq<char>, j: int, i: int) -> (pos: Seq<int>)
    requires
        0 <= j <= q.len(),
        0 <= i,
        greedy_match(q, t, j, i),
    ensures
        embeds(q, t, pos, j, i),
    decreases t.len() - i,
{
    if j >= q.len() {
        Seq::empty()
    } else if q[j] == t[i] {
        let rest = lemma_greedy_sound(q, t, j + 1, i + 1);
        let pos = seq![i].add(rest);
        assert forall|k: int| 0 <= k < pos.len() implies i <= #[trigger] pos[k] < t.len() && t[pos[k]]
            == q[j + k] by {
            if k > 0 {
                assert(pos[k] == rest[k - 1]);
            }
        }
        assert forall|k1: int, k2: int| 0 <= k1 < k2 < pos.len() implies pos[k1] < pos[k2] by {
            assert(pos[k2] == rest[k2 - 1]);
            if k1 > 0 {
                assert(pos[k1] == rest[k1 - 1]);
            }
        }
        pos
    } else {
        lemma_greedy_sound(q, t, j, i + 1)
    }
}

/// Greedy matching decides `is_subsequence`.
pub proof fn lemma_greedy_is_subsequence(q: Seq<char>, t: Seq<char>)
    ensures
        greedy_match(q, t, 0, 0) == is_subsequence(q, t),
{
    if greedy_match(q, t, 0, 0) {
        let pos = lemma_greedy_sound(q, t, 0, 0);
        assert(embeds(q, t, pos, 0, 0));
    }
    if is_subsequence(q, t) {
        let pos = choose|pos: Seq<int>| embeds(q, t, pos, 0, 0);
        lemma_greedy_complete(q, t, 0, 0, pos);
    }
}

/// Fuzzy matching: every character of `query` occurs in `target`, in order.
pub fn fuzzy_match(target: &str, query: &str) -> (r: bool)
    ensures
        r == is_subsequence(query@, target@),
{
    let t = chars_of(target);
    let q = chars_of(query);
    let mut i: usize = 0;
    let mut j: usize = 0;
    while j < q.len()
        invariant
            q@ == query@,
            t@ == target@,
            j <= q@.len(),
            i <= t@.len(),
            greedy_match(q@, t@, 0, 0) == greedy_match(q@, t@, j as int, i as int),
        decreases t@.len() - i,
    {
        if i >= t.len() {
            proof {
                assert(!greedy_match(q@, t@, j as int, i as int));
                lemma_greedy_is_subsequence(q@, t@);
            }
            return false;
        }
        if t[i] == q[j] {
            j = j + 1;
        }
        i = i + 1;
    }
    proof {
        lemma_greedy_is_subsequence(q@, t@);
    }
    true
}

/// The decimal digit for `d`.
pub open spec fn digit(d: nat) -> char {
    if d == 0 {
        '0'
    } else if d == 1 {
        '1'
    } else if d == 2 {
        '2'
    } else if d == 3 {
        '3'
    } else if d == 4 {
        '4'
    } else if d == 5 {
        '5'
    } else if d == 6 {
        '6'
    } else if d == 7 {
        '7'
    } else if d == 8 {
        '8'
    } else {
        '9'
    }
}

/// The decimal notation of `n`, without sign or leading zeros.
pub open spec fn decimal(n: nat) -> Seq<char>
    decreases n,
{
    if n < 10 {
        seq![digit(n)]
    } else {
        decimal(n / 10).push(digit(n % 10))
    }
}

fn digit_char(d: u64) -> (c: char)
    requires
        d < 10,
    ensures
        c == digit(d as nat),
{
    if d == 0 {
        '0'
    } else if d == 1 {
        '1'
    } else if d == 2 {
        '2'
    } else if d == 3 {
        '3'
    } else if d == 4 {
        '4'
    } else if d == 5 {
        '5'
    } else if d == 6 {
        '6'
    } else if d == 7 {
        '7'
    } else if d == 8 {
        '8'
    } else {
        '9'
    }
}

/// Appends the decimal notation of `n` to `s`.
pub fn push_decimal(s: &mut String, n: u64)
    ensures
        final(s)@ == old(s)@ + decimal(n as nat),
    decreases n,
{
    if n < 10 {
        s.push(digit_char(n));
        assert(old(s)@.push(digit(n as nat)) =~= old(s)@ + decimal(n as nat));
    } else {
        push_decimal(s, n / 10);
        s.push(digit_char(n % 10));
        assert(old(s)@ + decimal((n / 10) as nat) + seq![digit((n % 10) as nat)] =~= old(s)@
            + decimal(n as nat));
    }
}

/// The decimal notation of `n`.
pub fn decimal_string(n: u64) -> (r: String)
    ensures
        r@ == decimal(n as nat),
{
    let mut r = String::new();
    push_decimal(&mut r, n);
    r
}

} // verus!
