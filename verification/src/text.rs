use vstd::prelude::*;

verus! {

/// The characters of `s`, in order.
pub fn chars_of(s: &str) -> (v: Vec<char>)
    ensures
        v@ == s@,
{
    let mut v: Vec<char> = Vec::new();
    for c in it: s.chars()
        invariant
            it.seq() == s@,
            v@ == it.seq().take(it.index() as int),
    {
        v.push(c);
        assert(v@ =~= it.seq().take(it.index() + 1));
    }
    assert(v@ =~= s@);
    v
}


/// `a` and `b` hold the same characters.
pub fn text_eq(a: &str, b: &str) -> (r: bool)
    ensures
        r == (a@ == b@),
{
    let x = chars_of(a);
    let y = chars_of(b);
    if x.len() != y.len() {
        return false;
    }
    let mut i: usize = 0;
    while i < x.len()
        invariant
            x@ == a@,
            y@ == b@,
            x.len() == y.len(),
            i <= x.len(),
            forall|j: int| 0 <= j < i ==> x@[j] == y@[j],
        decreases x.len() - i,
    {
        if x[i] != y[i] {
            return false;
        }
        i = i + 1;
    }
    assert(x@ =~= y@);
    true
}

/// `needle` occurs in `hay` starting at position `i`.
pub open spec fn occurs_at(hay: Seq<char>, needle: Seq<char>, i: int) -> bool {
    0 <= i && i + needle.len() <= hay.len() && hay.subrange(i, i + needle.len()) == needle
}

/// `needle` occurs somewhere in `hay` (the empty text occurs everywhere).
pub open spec fn spec_contains(hay: Seq<char>, needle: Seq<char>) -> bool {
    exists|i: int| occurs_at(hay, needle, i)
}

fn matches_at(hay: &Vec<char>, needle: &Vec<char>, i: usize) -> (r: bool)
    requires
        i + needle.len() <= hay.len(),
    ensures
        r == occurs_at(hay@, needle@, i as int),
{
    let mut k: usize = 0;
    while k < needle.len()
        invariant
            i + needle.len() <= hay.len(),
            k <= needle.len(),
            forall|j: int| 0 <= j < k ==> hay@[i + j] == needle@[j],
        decreases needle.len() - k,
    {
        if hay[i + k] != needle[k] {
            assert(hay@.subrange(i as int, i + needle.len())[k as int] != needle@[k as int]);
            return false;
        }
        k = k + 1;
    }
    assert(hay@.subrange(i as int, i + needle.len()) =~= needle@);
    true
}

/// Whether `needle` occurs in `hay`, as `str::contains` answers it for a
/// string pattern.
pub fn contains_text(hay: &str, needle: &str) -> (r: bool)
    ensures
        r == spec_contains(hay@, needle@),
{
    let h = chars_of(hay);
    let n = chars_of(needle);
    if n.len() > h.len() {
        assert forall|i: int| !occurs_at(hay@, needle@, i) by {}
        return false;
    }
    let last = h.len() - n.len();
    let mut i: usize = 0;
    loop
        invariant
            h@ == hay@,
            n@ == needle@,
            last == h.len() - n.len(),
            n.len() <= h.len(),
            i <= last,
            forall|j: int| 0 <= j < i ==> !occurs_at(hay@, needle@, j),
        ensures
            forall|j: int| 0 <= j <= last ==> !occurs_at(hay@, needle@, j),
        decreases last - i,
    {
        if matches_at(&h, &n, i) {
            return true;
        }
        if i == last {
            break;
        }
        i = i + 1;
    }
    assert forall|j: int| !occurs_at(hay@, needle@, j) by {
        if 0 <= j && j <= last {
        }
    }
    false
}

/// The pieces of `s` between occurrences of `sep`, as `str::split` with a
/// character pattern yields them: one more piece than there are separators.
pub open spec fn split_by(s: Seq<char>, sep: char) -> Seq<Seq<char>>
    decreases s.len(),
{
    if s.len() == 0 {
        seq![Seq::<char>::empty()]
    } else {
        let p = split_by(s.drop_last(), sep);
        if s.last() == sep {
            p.push(Seq::<char>::empty())
        } else {
            p.update(p.len() - 1, p.last().push(s.last()))
        }
    }
}

/// `s` holds no `c`.
pub open spec fn free_of(s: Seq<char>, c: char) -> bool
    decreases s.len(),
{
    s.len() == 0 || (s.last() != c && free_of(s.drop_last(), c))
}

/// [`free_of`] says that no character of `s` is `c`.
pub proof fn lemma_free_of(s: Seq<char>, c: char)
    requires
        free_of(s, c),
    ensures
        forall|k: int| 0 <= k < s.len() ==> s[k] != c,
    decreases s.len(),
{
    if s.len() > 0 {
        lemma_free_of(s.drop_last(), c);
        assert forall|k: int| 0 <= k < s.len() implies s[k] != c by {
            if k < s.len() - 1 {
                assert(s.drop_last()[k] == s[k]);
            }
        }
    }
}

/// Splitting text that ends with a separator followed by a piece free of
/// separators gives the pieces before it, then that piece.
pub proof fn lemma_split_last_piece(p: Seq<char>, sep: char, b: Seq<char>)
    requires
        free_of(b, sep),
    ensures
        split_by(p + seq![sep] + b, sep) == split_by(p, sep).push(b),
    decreases b.len(),
{
    let s = p + seq![sep] + b;
    if b.len() == 0 {
        assert(s.drop_last() =~= p);
        assert(b =~= Seq::<char>::empty());
    } else {
        lemma_split_last_piece(p, sep, b.drop_last());
        assert(s.drop_last() =~= p + seq![sep] + b.drop_last());
        assert(s.last() == b.last());
        let q = split_by(p, sep).push(b.drop_last());
        assert(b.drop_last().push(b.last()) =~= b);
        assert(q.update(q.len() - 1, q.last().push(b.last())) =~= split_by(p, sep).push(b));
    }
}

/// Splits `s` at every `sep`.
pub fn split_char(s: &str, sep: char) -> (parts: Vec<String>)
    ensures
        parts@.map_values(|p: String| p@) == split_by(s@, sep),
{
    let c = chars_of(s);
    let n = c.len();
    let mut parts: Vec<String> = Vec::new();
    let mut start: usize = 0;
    let mut i: usize = 0;
    assert(s@.take(0) =~= Seq::<char>::empty());
    while i < n
        invariant
            c@ == s@,
            n == c.len(),
            start <= i <= n,
            split_by(s@.take(i as int), sep)
                == parts@.map_values(|p: String| p@).push(s@.subrange(start as int, i as int)),
        decreases n - i,
    {
        let ghost old_parts = parts@.map_values(|p: String| p@);
        assert(s@.take(i + 1).drop_last() =~= s@.take(i as int));
        assert(s@.take(i + 1).last() == c@[i as int]);
        if c[i] == sep {
            let piece = s.substring_char(start, i);
            parts.push(piece.to_owned());
            assert(parts@.map_values(|p: String| p@) =~= old_parts.push(
                s@.subrange(start as int, i as int),
            ));
            start = i + 1;
            assert(s@.subrange(start as int, i + 1) =~= Seq::<char>::empty());
        } else {
            assert(s@.subrange(start as int, i as int).push(c@[i as int]) =~= s@.subrange(
                start as int,
                i + 1,
            ));
            assert(old_parts.push(s@.subrange(start as int, i as int)).update(
                old_parts.len() as int,
                s@.subrange(start as int, i + 1),
            ) =~= old_parts.push(s@.subrange(start as int, i + 1)));
        }
        i = i + 1;
    }
    let piece = s.substring_char(start, n);
    let ghost before = parts@.map_values(|p: String| p@);
    parts.push(piece.to_owned());
    assert(s@.take(n as int) =~= s@);
    assert(parts@.map_values(|p: String| p@) =~= before.push(s@.subrange(start as int, n as int)));
    parts
}

/// The number of copies of `c` at the front of `s`.
pub open spec fn leading_count(s: Seq<char>, c: char) -> nat
    decreases s.len(),
{
    if s.len() > 0 && s[0] == c {
        1 + leading_count(s.drop_first(), c)
    } else {
        0
    }
}

/// `s` without every copy of `c` at its front, as `str::trim_start_matches`
/// with a character pattern returns it.
pub open spec fn trim_leading(s: Seq<char>, c: char) -> Seq<char> {
    s.skip(leading_count(s, c) as int)
}

proof fn lemma_leading_count(s: Seq<char>, c: char, k: int)
    requires
        0 <= k <= s.len(),
        forall|j: int| 0 <= j < k ==> s[j] == c,
        k == s.len() || s[k] != c,
    ensures
        leading_count(s, c) == k,
    decreases k,
{
    if k > 0 {
        lemma_leading_count(s.drop_first(), c, k - 1);
    }
}

/// Removes every leading `c` from `s`.
pub fn trim_start_char(s: &str, c: char) -> (r: &str)
    ensures
        r@ == trim_leading(s@, c),
{
    let v = chars_of(s);
    let mut k: usize = 0;
    while k < v.len() && v[k] == c
        invariant
            v@ == s@,
            k <= v.len(),
            forall|j: int| 0 <= j < k ==> s@[j] == c,
        decreases v.len() - k,
    {
        k = k + 1;
    }
    proof {
        lemma_leading_count(s@, c, k as int);
    }
    let r = s.substring_char(k, v.len());
    assert(r@ =~= s@.skip(k as int));
    r
}


/// What `str::to_lowercase` returns for a text: its Unicode lowercase
/// mapping, character by character, with the context rule for a final
/// capital sigma.
pub uninterp spec fn lowercase(s: Seq<char>) -> Seq<char>;

/// Calls `str::to_lowercase`; its result is named, not restated.
#[verifier::external_body]
pub(crate) fn to_lowercase(s: &str) -> (r: String)
    ensures
        r@ == lowercase(s@),
{
    s.to_lowercase()
}

/// The decimal digit character for `d < 10`.
pub open spec fn digit_char(d: nat) -> char {
    (d + 48) as char
}

/// The decimal notation of `n`, without sign or leading zeros, as `{}`
/// formats an unsigned integer.
pub open spec fn decimal(n: nat) -> Seq<char>
    decreases n,
{
    if n < 10 {
        seq![digit_char(n)]
    } else {
        decimal(n / 10).push(digit_char(n % 10))
    }
}

/// Appends the decimal notation of `n` to `out`.
pub fn push_decimal(out: &mut String, n: u64)
    ensures
        final(out)@ == old(out)@ + decimal(n as nat),
    decreases n,
{
    if n >= 10 {
        push_decimal(out, n / 10);
    }
    let d = (n % 10) as usize;
    let digits = "0123456789";
    proof {
        reveal_strlit("0123456789");
    }
    let one = digits.substring_char(d, d + 1);
    assert(one@ =~= seq![digit_char(d as nat)]);
    out.append(one);
    assert(final(out)@ =~= old(out)@ + decimal(n as nat));
}

} // verus!
