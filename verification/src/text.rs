//! Small string helpers.
use vstd::prelude::*;

verus! {

/// The characters of a string, in order.
pub fn chars_of(s: &str) -> (cs: Vec<char>)
    ensures
        cs@ == s@,
{
    let mut cs: Vec<char> = Vec::new();
    for c in it: s.chars()
        invariant
            cs@ == it.seq().take(it.index() as int),
    {
        cs.push(c);
    }
    cs
}


/// Appends a character to a string.
///
/// Trusted: calls `String::push`, whose documentation says it appends the
/// character to the end of the string.
#[verifier::external_body]
pub fn push_char(s: &mut String, c: char)
    ensures
        final(s)@ == old(s)@.push(c),
{
    s.push(c);
}

/// A string of the characters `cs[from..to]`.
pub fn string_of(cs: &Vec<char>, from: usize, to: usize) -> (s: String)
    requires
        from <= to <= cs.len(),
    ensures
        s@ == cs@.subrange(from as int, to as int),
{
    let mut s = String::new();
    let mut i = from;
    while i < to
        invariant
            from <= i <= to <= cs.len(),
            s@ == cs@.subrange(from as int, i as int),
        decreases to - i,
    {
        push_char(&mut s, cs[i]);
        i += 1;
        assert(s@ =~= cs@.subrange(from as int, i as int));
    }
    s
}

/// `a` comes before `b` in the order of strings: at the first position where
/// they differ `a` has the smaller character, or `a` is a proper prefix of `b`.
pub open spec fn str_lt(a: Seq<char>, b: Seq<char>) -> bool
    decreases a.len(),
{
    if a.len() == 0 {
        b.len() > 0
    } else if b.len() == 0 {
        false
    } else if a[0] != b[0] {
        a[0] < b[0]
    } else {
        str_lt(a.drop_first(), b.drop_first())
    }
}

/// `a` comes before `b` or equals it.
pub open spec fn str_le(a: Seq<char>, b: Seq<char>) -> bool {
    str_lt(a, b) || a == b
}

/// The order of strings is total.
pub proof fn lemma_str_lt_total(a: Seq<char>, b: Seq<char>)
    ensures
        str_lt(a, b) || str_lt(b, a) || a == b,
        !(str_lt(a, b) && str_lt(b, a)),
        !str_lt(a, a),
    decreases a.len(),
{
    if a.len() == 0 && b.len() == 0 {
        assert(a =~= b);
    } else if a.len() > 0 && b.len() > 0 && a[0] == b[0] {
        lemma_str_lt_total(a.drop_first(), b.drop_first());
        if a.drop_first() == b.drop_first() {
            assert forall|k: int| 0 <= k < a.len() implies a[k] == b[k] by {
                if k > 0 {
                    assert(a[k] == a.drop_first()[k - 1]);
                    assert(b[k] == b.drop_first()[k - 1]);
                }
            }
            assert(a =~= b);
        }
    }
    if a.len() > 0 {
        lemma_str_lt_total(a.drop_first(), a.drop_first());
    }
}

/// The order of strings is transitive.
pub proof fn lemma_str_lt_transitive(a: Seq<char>, b: Seq<char>, c: Seq<char>)
    requires
        str_lt(a, b),
        str_lt(b, c),
    ensures
        str_lt(a, c),
    decreases a.len(),
{
    if a.len() > 0 && a[0] == b[0] && b[0] == c[0] {
        lemma_str_lt_transitive(a.drop_first(), b.drop_first(), c.drop_first());
    }
}

/// Whether `a` comes before `b` in the order of strings.
pub fn str_less(a: &str, b: &str) -> (less: bool)
    ensures
        less == str_lt(a@, b@),
{
    let ca = chars_of(a);
    let cb = chars_of(b);
    let mut i: usize = 0;
    assert(ca@.skip(0) =~= ca@);
    assert(cb@.skip(0) =~= cb@);
    while i < ca.len() && i < cb.len() && ca[i] == cb[i]
        invariant
            i <= ca.len(),
            i <= cb.len(),
            ca@.take(i as int) == cb@.take(i as int),
            str_lt(ca@, cb@) == str_lt(ca@.skip(i as int), cb@.skip(i as int)),
        decreases ca.len() - i,
    {
        assert(ca@.skip(i as int).drop_first() =~= ca@.skip(i + 1));
        assert(cb@.skip(i as int).drop_first() =~= cb@.skip(i + 1));
        assert(ca@.take(i + 1) =~= ca@.take(i as int).push(ca@[i as int]));
        assert(cb@.take(i + 1) =~= cb@.take(i as int).push(cb@[i as int]));
        i += 1;
    }
    if i == ca.len() {
        i < cb.len()
    } else if i == cb.len() {
        false
    } else {
        ca[i] < cb[i]
    }
}

/// `a` comes before `b` or equals it, and so on along a chain.
proof fn lemma_str_le_transitive(a: Seq<char>, b: Seq<char>, c: Seq<char>)
    requires
        str_le(a, b),
        str_le(b, c),
    ensures
        str_le(a, c),
{
    if str_lt(a, b) && str_lt(b, c) {
        lemma_str_lt_transitive(a, b, c);
    }
}

/// Sorts strings into the order of strings.
pub fn sort_strings(v: &mut Vec<String>)
    ensures
        final(v)@.to_multiset() == old(v)@.to_multiset(),
        forall|a: int, b: int|
            0 <= a < b < final(v).len() ==> str_le(
                #[trigger] final(v)@[a]@,
                #[trigger] final(v)@[b]@,
            ),
{
    let ghost initial = v@;
    let mut i: usize = 0;
    while i < v.len()
        invariant
            v@.to_multiset() == initial.to_multiset(),
            v.len() == initial.len(),
            i <= v.len(),
            forall|a: int, b: int| 0 <= a < b < i ==> str_le(#[trigger] v@[a]@, #[trigger] v@[b]@),
        decreases v.len() - i,
    {
        let mut j: usize = i;
        while j > 0 && str_less(v[j].as_str(), v[j - 1].as_str())
            invariant
                j <= i < v.len(),
                v.len() == initial.len(),
                v@.to_multiset() == initial.to_multiset(),
                forall|a: int, b: int| 0 <= a < b < j ==> str_le(#[trigger] v@[a]@, #[trigger] v@[b]@),
                forall|a: int, b: int|
                    j < a < b <= i ==> str_le(#[trigger] v@[a]@, #[trigger] v@[b]@),
                forall|a: int, b: int|
                    0 <= a < j && j < b <= i ==> str_le(#[trigger] v@[a]@, #[trigger] v@[b]@),
                forall|b: int| j < b <= i ==> str_le(v@[j as int]@, #[trigger] v@[b]@),
            decreases j,
        {
            let ghost before = v@;
            let left = v[j - 1].clone();
            let right = v[j].clone();
            v.set(j - 1, right);
            v.set(j, left);
            proof {
                lemma_swap_multiset(before, j - 1, j as int);
                assert(v@ == before.update(j - 1, before[j as int]).update(j as int, before[j - 1]));
            }
            j -= 1;
        }
        proof {
            if j > 0 {
                lemma_str_lt_total(v@[j as int]@, v@[j - 1]@);
            }
            assert forall|a: int, b: int| 0 <= a < b < i + 1 implies str_le(
                #[trigger] v@[a]@,
                #[trigger] v@[b]@,
            ) by {
                if b == j && a < j - 1 {
                    lemma_str_le_transitive(v@[a]@, v@[j - 1]@, v@[j as int]@);
                }
            }
        }
        i += 1;
    }
}

proof fn lemma_swap_multiset<A>(s: Seq<A>, a: int, b: int)
    requires
        0 <= a < b < s.len(),
    ensures
        s.update(a, s[b]).update(b, s[a]).to_multiset() == s.to_multiset(),
{
    broadcast use vstd::seq_lib::group_to_multiset_ensures;

    let t = s.update(a, s[b]);
    assert(t.to_multiset() == s.to_multiset().remove(s[a]).insert(s[b]));
    assert(t.update(b, s[a]).to_multiset() == t.to_multiset().remove(t[b]).insert(s[a]));
    assert(s.to_multiset().count(s[a]) > 0);
    assert(t.to_multiset().count(s[b]) > 0);
}

/// The first position from `from` on where `l` holds `c`, or its length.
pub open spec fn find_char(l: Seq<char>, c: char, from: int) -> int
    decreases l.len() - from,
{
    if from >= l.len() {
        l.len() as int
    } else if l[from] == c {
        from
    } else {
        find_char(l, c, from + 1)
    }
}


pub proof fn lemma_find_char(l: Seq<char>, c: char, from: int)
    requires
        0 <= from <= l.len(),
    ensures
        from <= find_char(l, c, from) <= l.len(),
        find_char(l, c, from) < l.len() ==> l[find_char(l, c, from)] == c,
        forall|k: int| from <= k < find_char(l, c, from) ==> l[k] != c,
    decreases l.len() - from,
{
    if from < l.len() && l[from] != c {
        lemma_find_char(l, c, from + 1);
    }
}

/// The first position of `c` from `from` on, as a scan finds it.
pub proof fn lemma_find_char_is(l: Seq<char>, c: char, from: int, r: int)
    requires
        0 <= from <= r <= l.len(),
        r < l.len() ==> l[r] == c,
        forall|k: int| from <= k < r ==> l[k] != c,
    ensures
        find_char(l, c, from) == r,
{
    lemma_find_char(l, c, from);
    let f = find_char(l, c, from);
    if f < r {
        assert(l[f] != c);
    } else if r < f {
        assert(l[r] != c);
    }
}

/// The first position in `cs[lo..hi]` that holds `c`, or `hi`.
pub fn scan_for(cs: &Vec<char>, c: char, lo: usize, hi: usize) -> (r: usize)
    requires
        lo <= hi <= cs.len(),
    ensures
        lo <= r <= hi,
        r < hi ==> cs@[r as int] == c,
        forall|k: int| lo <= k < r ==> cs@[k] != c,
{
    let mut r = lo;
    while r < hi
        invariant
            lo <= r <= hi <= cs.len(),
            forall|k: int| lo <= k < r ==> cs@[k] != c,
        decreases hi - r,
    {
        if cs[r] == c {
            return r;
        }
        r += 1;
    }
    r
}


} // verus!
