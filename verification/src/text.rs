//! Character-level text utilities shared by the store, the search engine,
//! the shell integration planner and the terminal view helpers.
//!
//! Everything here works on the `Seq<char>` view of strings: `s@` for a
//! `String` or a `&str`.
use vstd::prelude::*;

verus! {

// ───────────────────────────── conversions ─────────────────────────────

/// The characters of `s`, in order.
pub fn chars_of(s: &str) -> (v: Vec<char>)
    ensures
        v@ == s@,
{
    let mut v: Vec<char> = Vec::new();
    for c in it: s.chars()
        invariant
            v@ == it.seq().take(it.index() as int),
    {
        v.push(c);
    }
    v
}

/// Builds a `String` from a sequence of characters.
///
/// Trusted: calls std's `FromIterator<&char> for String` (through
/// `Iterator::collect`), which the std documentation describes as appending
/// every character in order; the contract says the result holds exactly
/// those characters.
#[verifier::external_body]
pub(crate) fn string_of(chars: &[char]) -> (s: String)
    ensures
        s@ == chars@,
{
    chars.iter().collect()
}

/// Equality of two string slices, character by character.
pub fn same_text(a: &str, b: &str) -> (r: bool)
    ensures
        r == (a@ == b@),
{
    let x = String::from_str(a);
    let y = String::from_str(b);
    x == y
}

/// The Unicode lower-case mapping of a string, as computed by std's
/// `str::to_lowercase` (the full Unicode case tables, with the context rule
/// for final sigma). It depends on the characters of the string only.
pub uninterp spec fn lowercase(s: Seq<char>) -> Seq<char>;

/// Trusted: calls std's `str::to_lowercase`; the contract names its result
/// `lowercase(s@)` and says nothing more about it.
#[verifier::external_body]
pub(crate) fn to_lower(s: &str) -> (r: String)
    ensures
        r@ == lowercase(s@),
{
    s.to_lowercase()
}

/// The view of every string in a sequence.
pub open spec fn text_views(v: Seq<String>) -> Seq<Seq<char>> {
    v.map_values(|s: String| s@)
}

// ───────────────────────────── white space ─────────────────────────────

/// The Unicode `White_Space` property, which is what `char::is_whitespace`,
/// `str::trim` and `str::split_whitespace` test.
pub open spec fn is_space_char(c: char) -> bool {
    let u = c as u32;
    ||| 0x9 <= u <= 0xd
    ||| u == 0x20
    ||| u == 0x85
    ||| u == 0xa0
    ||| u == 0x1680
    ||| 0x2000 <= u <= 0x200a
    ||| u == 0x2028
    ||| u == 0x2029
    ||| u == 0x202f
    ||| u == 0x205f
    ||| u == 0x3000
}

/// Whether `c` is a Unicode white-space character.
pub fn is_space(c: char) -> (b: bool)
    ensures
        b == is_space_char(c),
{
    let u = c as u32;
    (0x9 <= u && u <= 0xd) || u == 0x20 || u == 0x85 || u == 0xa0 || u == 0x1680 || (0x2000
        <= u && u <= 0x200a) || u == 0x2028 || u == 0x2029 || u == 0x202f || u == 0x205f || u
        == 0x3000
}

/// Index of the first non-space character at or after `i` (or the length).
pub open spec fn first_solid_from(s: Seq<char>, i: int) -> int
    decreases s.len() - i,
{
    if i < 0 || i >= s.len() {
        s.len() as int
    } else if is_space_char(s[i]) {
        first_solid_from(s, i + 1)
    } else {
        i
    }
}

/// One past the index of the last non-space character before `j` (or 0).
pub open spec fn last_solid_before(s: Seq<char>, j: int) -> int
    decreases j,
{
    if j <= 0 || j > s.len() {
        0
    } else if is_space_char(s[j - 1]) {
        last_solid_before(s, j - 1)
    } else {
        j
    }
}

/// `s` without leading and trailing white space (`str::trim`).
pub open spec fn trimmed(s: Seq<char>) -> Seq<char> {
    let a = first_solid_from(s, 0);
    let b = last_solid_before(s, s.len() as int);
    if a < b {
        s.subrange(a, b)
    } else {
        Seq::empty()
    }
}

proof fn lemma_first_solid_bounds(s: Seq<char>, i: int)
    requires
        0 <= i <= s.len(),
    ensures
        i <= first_solid_from(s, i) <= s.len(),
        first_solid_from(s, i) < s.len() ==> !is_space_char(s[first_solid_from(s, i)]),
        forall|k: int| i <= k < first_solid_from(s, i) ==> is_space_char(#[trigger] s[k]),
    decreases s.len() - i,
{
    if i < s.len() && is_space_char(s[i]) {
        lemma_first_solid_bounds(s, i + 1);
    }
}

proof fn lemma_last_solid_bounds(s: Seq<char>, j: int)
    requires
        0 <= j <= s.len(),
    ensures
        0 <= last_solid_before(s, j) <= j,
        last_solid_before(s, j) > 0 ==> !is_space_char(s[last_solid_before(s, j) - 1]),
        forall|k: int| last_solid_before(s, j) <= k < j ==> is_space_char(#[trigger] s[k]),
    decreases j,
{
    if j > 0 && is_space_char(s[j - 1]) {
        lemma_last_solid_bounds(s, j - 1);
    }
}

/// `s` with leading and trailing white space removed.
pub fn trim_chars(s: &[char]) -> (r: Vec<char>)
    ensures
        r@ == trimmed(s@),
{
    let n = s.len();
    let mut a: usize = 0;
    while a < n && is_space(s[a])
        invariant
            a <= n,
            n == s@.len(),
            first_solid_from(s@, 0) == first_solid_from(s@, a as int),
        decreases n - a,
    {
        a = a + 1;
    }
    let mut b: usize = n;
    while b > 0 && is_space(s[b - 1])
        invariant
            b <= n,
            n == s@.len(),
            last_solid_before(s@, n as int) == last_solid_before(s@, b as int),
        decreases b,
    {
        b = b - 1;
    }
    let mut r: Vec<char> = Vec::new();
    if a < b {
        let mut k = a;
        while k < b
            invariant
                a <= k <= b <= n,
                n == s@.len(),
                r@ == s@.subrange(a as int, k as int),
            decreases b - k,
        {
            r.push(s[k]);
            k = k + 1;
            assert(r@ =~= s@.subrange(a as int, k as int));
        }
    }
    assert(r@ =~= trimmed(s@));
    r
}

// ───────────────────────────── infixes ─────────────────────────────

/// `n` occurs in `h` starting at index `i`.
pub open spec fn occurs_at(h: Seq<char>, n: Seq<char>, i: int) -> bool {
    0 <= i && i + n.len() <= h.len() && h.subrange(i, i + n.len()) == n
}

/// `n` occurs somewhere in `h` (`str::contains`).
pub open spec fn has_infix(h: Seq<char>, n: Seq<char>) -> bool {
    exists|i: int| occurs_at(h, n, i)
}

/// `p` is a prefix of `s` (`str::starts_with`).
pub open spec fn has_prefix(s: Seq<char>, p: Seq<char>) -> bool {
    occurs_at(s, p, 0)
}

/// An occurrence in a suffix is an occurrence in the whole.
pub proof fn lemma_infix_of_suffix(x: Seq<char>, y: Seq<char>, n: Seq<char>)
    requires
        has_infix(y, n),
    ensures
        has_infix(x + y, n),
{
    let i = choose|i: int| occurs_at(y, n, i);
    assert((x + y).subrange(x.len() + i, x.len() + i + n.len()) =~= y.subrange(i, i + n.len()));
    assert(occurs_at(x + y, n, x.len() + i));
}

/// Whether `n` occurs in `h` at index `i`.
pub fn occurs_at_index(h: &[char], n: &[char], i: usize) -> (r: bool)
    ensures
        r == occurs_at(h@, n@, i as int),
{
    if i > h.len() || n.len() > h.len() - i {
        return false;
    }
    let mut j: usize = 0;
    while j < n.len()
        invariant
            i + n@.len() <= h@.len(),
            h@.len() == h.len(),
            j <= n@.len(),
            forall|k: int| 0 <= k < j ==> h@[i + k] == n@[k],
        decreases n.len() - j,
    {
        if h[i + j] != n[j] {
            assert(h@.subrange(i as int, i + n@.len())[j as int] != n@[j as int]);
            return false;
        }
        j = j + 1;
    }
    assert(h@.subrange(i as int, i + n@.len()) =~= n@);
    true
}

/// Whether `n` occurs anywhere in `h`.
pub fn find_infix(h: &[char], n: &[char]) -> (r: bool)
    ensures
        r == has_infix(h@, n@),
{
    if n.len() > h.len() {
        assert(!has_infix(h@, n@));
        return false;
    }
    let last = h.len() - n.len();
    let mut i: usize = 0;
    while i < last
        invariant
            last == h@.len() - n@.len(),
            i <= last,
            forall|k: int| 0 <= k < i ==> !occurs_at(h@, n@, k),
        decreases last - i,
    {
        if occurs_at_index(h, n, i) {
            return true;
        }
        i = i + 1;
    }
    if occurs_at_index(h, n, last) {
        return true;
    }
    assert forall|k: int| !occurs_at(h@, n@, k) by {
        if 0 <= k < i {
        }
    }
    false
}

/// Whether `p` is a prefix of `s`.
pub fn starts_with_chars(s: &[char], p: &[char]) -> (r: bool)
    ensures
        r == has_prefix(s@, p@),
{
    occurs_at_index(s, p, 0)
}

// ───────────────────────────── joining ─────────────────────────────

/// The parts joined with `sep` between consecutive parts (`[T]::join`).
pub open spec fn joined(parts: Seq<Seq<char>>, sep: Seq<char>) -> Seq<char>
    decreases parts.len(),
{
    if parts.len() == 0 {
        Seq::empty()
    } else if parts.len() == 1 {
        parts[0]
    } else {
        joined(parts.drop_last(), sep) + sep + parts.last()
    }
}

/// Joins the strings with `sep` between consecutive ones.
pub fn join_texts(parts: &Vec<String>, sep: &str) -> (r: String)
    ensures
        r@ == joined(text_views(parts@), sep@),
{
    let mut r = String::new();
    let n = parts.len();
    let mut i: usize = 0;
    while i < n
        invariant
            n == parts@.len(),
            i <= n,
            r@ == joined(text_views(parts@).take(i as int), sep@),
        decreases n - i,
    {
        let ghost before = text_views(parts@).take(i as int);
        assert(text_views(parts@).take(i + 1).drop_last() =~= before);
        if i > 0 {
            r.append(sep);
        }
        r.append(parts[i].as_str());
        i = i + 1;
        assert(text_views(parts@).take(i as int).last() == parts@[i - 1]@);
    }
    assert(text_views(parts@).take(n as int) =~= text_views(parts@));
    r
}

// ───────────────────────────── splitting ─────────────────────────────

/// The white-space separated words of `s[i..]`, where `cur` is the part of a
/// word already read (`str::split_whitespace`).
pub open spec fn words_from(s: Seq<char>, i: int, cur: Seq<char>) -> Seq<Seq<char>>
    decreases s.len() - i,
{
    if i < 0 || i >= s.len() {
        if cur.len() > 0 {
            seq![cur]
        } else {
            Seq::empty()
        }
    } else if is_space_char(s[i]) {
        (if cur.len() > 0 {
            seq![cur]
        } else {
            Seq::empty()
        }) + words_from(s, i + 1, Seq::empty())
    } else {
        words_from(s, i + 1, cur.push(s[i]))
    }
}

/// The maximal runs of non-white-space characters of `s`, in order.
pub open spec fn words(s: Seq<char>) -> Seq<Seq<char>> {
    words_from(s, 0, Seq::empty())
}

/// Every word is non-empty.
pub proof fn lemma_words_nonempty(s: Seq<char>, i: int, cur: Seq<char>)
    requires
        0 <= i,
    ensures
        forall|k: int|
            0 <= k < words_from(s, i, cur).len() ==> #[trigger] words_from(s, i, cur)[k].len()
                > 0,
    decreases s.len() - i,
{
    if i >= s.len() {
    } else if is_space_char(s[i]) {
        lemma_words_nonempty(s, i + 1, Seq::empty());
        let rest = words_from(s, i + 1, Seq::empty());
        if cur.len() > 0 {
            assert(words_from(s, i, cur) == seq![cur] + rest);
        } else {
            assert(words_from(s, i, cur) =~= rest);
        }
    } else {
        lemma_words_nonempty(s, i + 1, cur.push(s[i]));
        assert(words_from(s, i, cur) == words_from(s, i + 1, cur.push(s[i])));
    }
}

/// The white-space separated words of `s`.
pub fn split_words(s: &[char]) -> (r: Vec<Vec<char>>)
    ensures
        r@.map_values(|w: Vec<char>| w@) == words(s@),
{
    let n = s.len();
    let mut out: Vec<Vec<char>> = Vec::new();
    let mut cur: Vec<char> = Vec::new();
    let mut i: usize = 0;
    while i < n
        invariant
            n == s@.len(),
            i <= n,
            words(s@) == out@.map_values(|w: Vec<char>| w@) + words_from(s@, i as int, cur@),
        decreases n - i,
    {
        let ghost old_out = out@.map_values(|w: Vec<char>| w@);
        if is_space(s[i]) {
            if cur.len() > 0 {
                let w = cur;
                out.push(w);
                cur = Vec::new();
                assert(out@.map_values(|w: Vec<char>| w@) =~= old_out.push(w@));
                assert(old_out + (seq![w@] + words_from(s@, i + 1, Seq::empty())) =~= old_out.push(
                    w@,
                ) + words_from(s@, i + 1, Seq::empty()));
            } else {
                assert(Seq::<Seq<char>>::empty() + words_from(s@, i + 1, Seq::empty())
                    =~= words_from(s@, i + 1, Seq::empty()));
                assert(cur@ =~= Seq::<char>::empty());
            }
        } else {
            cur.push(s[i]);
        }
        i = i + 1;
    }
    if cur.len() > 0 {
        let ghost old_out = out@.map_values(|w: Vec<char>| w@);
        let w = cur;
        out.push(w);
        assert(out@.map_values(|w: Vec<char>| w@) =~= old_out + seq![w@]);
    } else {
        assert(out@.map_values(|w: Vec<char>| w@) + Seq::<Seq<char>>::empty() =~= out@.map_values(
            |w: Vec<char>| w@,
        ));
    }
    out
}

/// The pieces of `s[i..]` between occurrences of `sep`, where `cur` is the
/// part of the current piece already read (`str::split` by a character).
pub open spec fn pieces_from(s: Seq<char>, sep: char, i: int, cur: Seq<char>) -> Seq<Seq<char>>
    decreases s.len() - i,
{
    if i < 0 || i >= s.len() {
        seq![cur]
    } else if s[i] == sep {
        seq![cur] + pieces_from(s, sep, i + 1, Seq::empty())
    } else {
        pieces_from(s, sep, i + 1, cur.push(s[i]))
    }
}

/// The pieces of `s` between occurrences of `sep`; there is always one more
/// piece than there are separators, and pieces may be empty.
pub open spec fn pieces(s: Seq<char>, sep: char) -> Seq<Seq<char>> {
    pieces_from(s, sep, 0, Seq::empty())
}

/// The pieces of `s` between occurrences of `sep`.
pub fn split_on(s: &[char], sep: char) -> (r: Vec<Vec<char>>)
    ensures
        r@.map_values(|w: Vec<char>| w@) == pieces(s@, sep),
{
    let n = s.len();
    let mut out: Vec<Vec<char>> = Vec::new();
    let mut cur: Vec<char> = Vec::new();
    let mut i: usize = 0;
    while i < n
        invariant
            n == s@.len(),
            i <= n,
            pieces(s@, sep) == out@.map_values(|w: Vec<char>| w@) + pieces_from(
                s@,
                sep,
                i as int,
                cur@,
            ),
        decreases n - i,
    {
        let ghost old_out = out@.map_values(|w: Vec<char>| w@);
        if s[i] == sep {
            let w = cur;
            out.push(w);
            cur = Vec::new();
            assert(out@.map_values(|w: Vec<char>| w@) =~= old_out.push(w@));
            assert(old_out + (seq![w@] + pieces_from(s@, sep, i + 1, Seq::empty()))
                =~= old_out.push(w@) + pieces_from(s@, sep, i + 1, Seq::empty()));
            assert(cur@ =~= Seq::<char>::empty());
        } else {
            cur.push(s[i]);
        }
        i = i + 1;
    }
    let ghost old_out = out@.map_values(|w: Vec<char>| w@);
    let w = cur;
    out.push(w);
    assert(out@.map_values(|w: Vec<char>| w@) =~= old_out + seq![w@]);
    out
}

// ───────────────────────────── replacing ─────────────────────────────

/// `s[i..]` with every leftmost, non-overlapping occurrence of `pat`
/// replaced by `rep` (`str::replace`).
pub open spec fn replaced_from(s: Seq<char>, pat: Seq<char>, rep: Seq<char>, i: int) -> Seq<char>
    decreases s.len() - i,
{
    if i < 0 || i >= s.len() || pat.len() == 0 {
        if 0 <= i <= s.len() {
            s.subrange(i, s.len() as int)
        } else {
            Seq::empty()
        }
    } else if occurs_at(s, pat, i) {
        rep + replaced_from(s, pat, rep, i + pat.len())
    } else {
        seq![s[i]] + replaced_from(s, pat, rep, i + 1)
    }
}

/// `s` with every occurrence of `pat` replaced by `rep`, scanning from the
/// left (`str::replace` for a non-empty `pat`; an empty `pat` changes
/// nothing).
pub open spec fn replaced(s: Seq<char>, pat: Seq<char>, rep: Seq<char>) -> Seq<char> {
    replaced_from(s, pat, rep, 0)
}

/// Replacing a pattern that does not occur changes nothing.
pub proof fn lemma_replace_absent(s: Seq<char>, pat: Seq<char>, rep: Seq<char>, i: int)
    requires
        0 <= i <= s.len(),
        !has_infix(s, pat),
    ensures
        replaced_from(s, pat, rep, i) == s.subrange(i, s.len() as int),
    decreases s.len() - i,
{
    if i < s.len() && pat.len() > 0 {
        assert(!occurs_at(s, pat, i));
        lemma_replace_absent(s, pat, rep, i + 1);
        assert(seq![s[i]] + s.subrange(i + 1, s.len() as int) =~= s.subrange(i, s.len() as int));
    }
}

/// Replaces every occurrence of `pat` in `s` by `rep` (an empty `pat`
/// leaves `s` as it is).
pub fn replace_all(s: &[char], pat: &[char], rep: &[char]) -> (r: Vec<char>)
    ensures
        r@ == replaced(s@, pat@, rep@),
{
    let n = s.len();
    if pat.len() == 0 {
        let mut copy: Vec<char> = Vec::new();
        for k in 0..n
            invariant
                n == s@.len(),
                copy@ == s@.take(k as int),
        {
            copy.push(s[k]);
            assert(copy@ =~= s@.take(k + 1));
        }
        assert(copy@ =~= s@.subrange(0, n as int));
        return copy;
    }
    let mut out: Vec<char> = Vec::new();
    let mut i: usize = 0;
    while i < n
        invariant
            n == s@.len(),
            i <= n,
            pat@.len() > 0,
            replaced(s@, pat@, rep@) == out@ + replaced_from(s@, pat@, rep@, i as int),
        decreases n - i,
    {
        let ghost old_out = out@;
        if occurs_at_index(s, pat, i) {
            let mut k: usize = 0;
            while k < rep.len()
                invariant
                    k <= rep@.len(),
                    out@ == old_out + rep@.take(k as int),
                decreases rep.len() - k,
            {
                out.push(rep[k]);
                k = k + 1;
                assert(out@ =~= old_out + rep@.take(k as int));
            }
            assert(rep@.take(rep@.len() as int) =~= rep@);
            assert(old_out + (rep@ + replaced_from(s@, pat@, rep@, i + pat@.len())) =~= out@
                + replaced_from(s@, pat@, rep@, i + pat@.len()));
            i = i + pat.len();
        } else {
            out.push(s[i]);
            assert(old_out + (seq![s@[i as int]] + replaced_from(s@, pat@, rep@, i + 1)) =~= out@
                + replaced_from(s@, pat@, rep@, i + 1));
            i = i + 1;
        }
    }
    assert(replaced_from(s@, pat@, rep@, n as int) =~= Seq::<char>::empty());
    assert(out@ + Seq::<char>::empty() =~= out@);
    out
}

// ───────────────────────────── numbers ─────────────────────────────

/// The decimal digit character for `d < 10`.
pub open spec fn digit_char(d: nat) -> char {
    if d == 0 {
        '0'
    } else if d == 1 {
        '1'
    } else if d == 2 {
        '2'
    } else if d == 3 {
        '3'
    } else if d == 4 {
        '4'
    } else if d == 5 {
        '5'
    } else if d == 6 {
        '6'
    } else if d == 7 {
        '7'
    } else if d == 8 {
        '8'
    } else {
        '9'
    }
}

/// The decimal notation of `n`, without leading zeros.
pub open spec fn decimal(n: nat) -> Seq<char>
    decreases n,
{
    if n < 10 {
        seq![digit_char(n)]
    } else {
        decimal(n / 10).push(digit_char(n % 10))
    }
}

/// The decimal digit character for `d < 10`.
pub fn digit(d: usize) -> (c: char)
    requires
        d < 10,
    ensures
        c == digit_char(d as nat),
{
    if d == 0 {
        '0'
    } else if d == 1 {
        '1'
    } else if d == 2 {
        '2'
    } else if d == 3 {
        '3'
    } else if d == 4 {
        '4'
    } else if d == 5 {
        '5'
    } else if d == 6 {
        '6'
    } else if d == 7 {
        '7'
    } else if d == 8 {
        '8'
    } else {
        '9'
    }
}

/// The decimal notation of `n` (`usize`'s `Display`).
pub fn decimal_text(n: usize) -> (r: Vec<char>)
    ensures
        r@ == decimal(n as nat),
    decreases n,
{
    if n < 10 {
        let mut r: Vec<char> = Vec::new();
        r.push(digit(n));
        assert(r@ =~= seq![digit_char(n as nat)]);
        r
    } else {
        let mut r = decimal_text(n / 10);
        r.push(digit(n % 10));
        r
    }
}

} // verus!
