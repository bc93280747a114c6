//! The camera angle option of the viewer: either a bare number, turning the
//! camera around the vertical axis, or a list of axis letters each followed
//! by its angle, such as `x90y45`. This module splits the text; the angles
//! themselves are decimal numbers that the caller reads.
use vstd::prelude::*;

use crate::text::{chars_of, string_of};

verus! {

/// White space as `char::is_whitespace` knows it: the Unicode `White_Space`
/// characters.
pub open spec fn is_white(c: char) -> bool {
    ||| ('\u{9}' <= c && c <= '\u{d}')
    ||| c == ' '
    ||| c == '\u{85}'
    ||| c == '\u{a0}'
    ||| c == '\u{1680}'
    ||| ('\u{2000}' <= c && c <= '\u{200a}')
    ||| c == '\u{2028}'
    ||| c == '\u{2029}'
    ||| c == '\u{202f}'
    ||| c == '\u{205f}'
    ||| c == '\u{3000}'
}

/// Without leading white space.
pub open spec fn trim_start(s: Seq<char>) -> Seq<char>
    decreases s.len(),
{
    if s.len() > 0 && is_white(s[0]) {
        trim_start(s.drop_first())
    } else {
        s
    }
}

/// Without trailing white space.
pub open spec fn trim_end(s: Seq<char>) -> Seq<char>
    decreases s.len(),
{
    if s.len() > 0 && is_white(s.last()) {
        trim_end(s.drop_last())
    } else {
        s
    }
}

/// An ASCII capital letter in lower case; every other character unchanged.
pub open spec fn ascii_lower(c: char) -> char {
    if 'A' <= c && c <= 'Z' {
        ((c as u32) + 32) as char
    } else {
        c
    }
}

pub open spec fn is_ascii_alpha(c: char) -> bool {
    ('a' <= c && c <= 'z') || ('A' <= c && c <= 'Z')
}

pub open spec fn is_ascii_digit(c: char) -> bool {
    '0' <= c && c <= '9'
}

/// The option text as it is read: trimmed, in ASCII lower case.
pub open spec fn normalized(s: Seq<char>) -> Seq<char> {
    trim_end(trim_start(s)).map_values(|c: char| ascii_lower(c))
}

/// A text that starts like a number.
pub open spec fn starts_numeric(n: Seq<char>) -> bool {
    n.len() > 0 && (is_ascii_digit(n[0]) || n[0] == '-' || n[0] == '+' || n[0] == '.')
}

/// The first position from `j` on that holds an ASCII letter, or the length.
pub open spec fn next_letter(n: Seq<char>, j: int) -> int
    decreases n.len() - j,
{
    if j >= n.len() {
        n.len() as int
    } else if is_ascii_alpha(n[j]) {
        j
    } else {
        next_letter(n, j + 1)
    }
}

/// The axis letters from position `i` on, each with the text of its angle:
/// everything up to the next letter.
pub open spec fn axis_tokens(n: Seq<char>, i: int) -> Seq<(char, Seq<char>)>
    decreases n.len() - i,
{
    if i < 0 || i >= n.len() {
        seq![]
    } else {
        let e = next_letter(n, i + 1);
        proof {
            lemma_next_letter(n, i + 1);
        }
        if e <= i {
            seq![]
        } else {
            seq![(n[i], n.subrange(i + 1, e))] + axis_tokens(n, e)
        }
    }
}

/// An axis letter with the text of its angle.
#[derive(Clone, Debug)]
pub struct AxisToken {
    pub axis: char,
    pub value: String,
}

/// How an angle option reads.
#[derive(Clone, Debug)]
pub enum AngleText {
    /// A bare angle: a turn around the vertical axis.
    Bare(String),
    /// Axis letters, each with the text of its angle, in order.
    Axes(Vec<AxisToken>),
}

/// An angle option split into its parts, with the text they were read from.
#[derive(Clone, Debug)]
pub struct AngleSpec {
    pub input: String,
    pub text: AngleText,
}

/// The message for an empty angle option.
pub const EMPTY_ANGLE_MESSAGE: &'static str = "expected an angle like 'x90y45'";

fn white(c: char) -> (w: bool)
    ensures
        w == is_white(c),
{
    ('\u{9}' <= c && c <= '\u{d}') || c == ' ' || c == '\u{85}' || c == '\u{a0}' || c
        == '\u{1680}' || ('\u{2000}' <= c && c <= '\u{200a}') || c == '\u{2028}' || c
        == '\u{2029}' || c == '\u{202f}' || c == '\u{205f}' || c == '\u{3000}'
}

fn lower(c: char) -> (l: char)
    ensures
        l == ascii_lower(c),
{
    if 'A' <= c && c <= 'Z' {
        ((c as u8) + 32) as char
    } else {
        c
    }
}

proof fn lemma_trim_start(s: Seq<char>, i: int)
    requires
        0 <= i <= s.len(),
        forall|k: int| 0 <= k < i ==> is_white(s[k]),
    ensures
        trim_start(s) == trim_start(s.skip(i)),
    decreases i,
{
    if i > 0 {
        assert(s.skip(1) =~= s.drop_first());
        lemma_trim_start(s.drop_first(), i - 1);
        assert(s.drop_first().skip(i - 1) =~= s.skip(i));
    } else {
        assert(s.skip(0) =~= s);
    }
}

proof fn lemma_trim_end(s: Seq<char>, j: int)
    requires
        0 <= j <= s.len(),
        forall|k: int| j <= k < s.len() ==> is_white(s[k]),
    ensures
        trim_end(s) == trim_end(s.take(j)),
    decreases s.len() - j,
{
    if j < s.len() {
        assert(s.take(s.len() - 1) =~= s.drop_last());
        lemma_trim_end(s.drop_last(), j);
        assert(s.drop_last().take(j) =~= s.take(j));
    } else {
        assert(s.take(j) =~= s);
    }
}

/// The option text as it is read: trimmed, in ASCII lower case.
fn normalize(input: &str) -> (n: Vec<char>)
    ensures
        n@ == normalized(input@),
{
    let cs = chars_of(input);
    let mut lo: usize = 0;
    while lo < cs.len() && white(cs[lo])
        invariant
            lo <= cs.len(),
            forall|k: int| 0 <= k < lo ==> is_white(cs@[k]),
        decreases cs.len() - lo,
    {
        lo += 1;
    }
    let mut hi: usize = cs.len();
    while hi > lo && white(cs[hi - 1])
        invariant
            lo <= hi <= cs.len(),
            forall|k: int| hi <= k < cs.len() ==> is_white(cs@[k]),
        decreases hi,
    {
        hi -= 1;
    }
    let ghost rest = cs@.skip(lo as int);
    proof {
        lemma_trim_start(cs@, lo as int);
        assert(lo == cs.len() || !is_white(rest[0]));
        assert forall|k: int| hi - lo <= k < rest.len() implies is_white(rest[k]) by {
            assert(rest[k] == cs@[lo + k]);
        }
        lemma_trim_end(rest, hi - lo);
        let kept = rest.take(hi - lo);
        assert(kept.len() == 0 || !is_white(kept.last())) by {
            if kept.len() > 0 {
                assert(kept.last() == cs@[hi - 1]);
            }
        }
        assert(kept =~= cs@.subrange(lo as int, hi as int));
    }
    let mut n: Vec<char> = Vec::new();
    let mut i = lo;
    while i < hi
        invariant
            lo <= i <= hi <= cs.len(),
            n@ == cs@.subrange(lo as int, i as int).map_values(|c: char| ascii_lower(c)),
        decreases hi - i,
    {
        n.push(lower(cs[i]));
        i += 1;
        assert(n@ =~= cs@.subrange(lo as int, i as int).map_values(|c: char| ascii_lower(c)));
    }
    n
}

/// The next letter lies between the start and the end.
pub proof fn lemma_next_letter(n: Seq<char>, j: int)
    requires
        0 <= j <= n.len(),
    ensures
        j <= next_letter(n, j) <= n.len(),
    decreases n.len() - j,
{
    if j < n.len() && !is_ascii_alpha(n[j]) {
        lemma_next_letter(n, j + 1);
    }
}

proof fn lemma_token_views(ts: Seq<AxisToken>, t: AxisToken, v: (char, Seq<char>))
    requires
        v == (t.axis, t.value@),
    ensures
        ts.push(t).map_values(|t: AxisToken| (t.axis, t.value@)) == ts.map_values(
            |t: AxisToken| (t.axis, t.value@),
        ) + seq![v],
{
    assert(ts.push(t).map_values(|t: AxisToken| (t.axis, t.value@)) =~= ts.map_values(
        |t: AxisToken| (t.axis, t.value@),
    ) + seq![v]);
}

/// Splits an angle option. An empty option is refused; one that starts
/// like a number is a bare angle; any other is read as axis letters, each
/// followed by the text up to the next letter.
pub fn split_angles(input: &str) -> (spec: Result<AngleSpec, String>)
    requires
        normalized(input@).len() == 0 || (normalized(input@)[0] as u32) < 128,
    ensures
        ({
            let n = normalized(input@);
            match spec {
                Err(message) => n.len() == 0 && message@ == EMPTY_ANGLE_MESSAGE@,
                Ok(s) => {
                    &&& n.len() > 0
                    &&& s.input@ == n
                    &&& match s.text {
                        AngleText::Bare(v) => starts_numeric(n) && v@ == n,
                        AngleText::Axes(tokens) => !starts_numeric(n) && tokens@.map_values(
                            |t: AxisToken| (t.axis, t.value@),
                        ) == axis_tokens(n, 0),
                    }
                },
            }
        }),
        ({
            let n = normalized(input@);
            n.len() > 0 && (('0' <= n[0] && n[0] <= '9') || n[0] == '-' || n[0] == '+' || n[0]
                == '.') ==> (spec matches Ok(s) && s.text is Bare)
        }),
        ({
            let n = normalized(input@);
            n.len() > 0 && !(('0' <= n[0] && n[0] <= '9') || n[0] == '-' || n[0] == '+' || n[0]
                == '.') ==> (spec matches Ok(s) && s.text is Axes)
        }),
{
    let n = normalize(input);
    if n.len() == 0 {
        return Err(String::from_str(EMPTY_ANGLE_MESSAGE));
    }
    let whole = string_of(&n, 0, n.len());
    assert(n@.subrange(0, n.len() as int) =~= n@);
    let first = n[0];
    if ('0' <= first && first <= '9') || first == '-' || first == '+' || first == '.' {
        return Ok(AngleSpec { input: whole, text: AngleText::Bare(string_of(&n, 0, n.len())) });
    }
    let mut tokens: Vec<AxisToken> = Vec::new();
    let mut i: usize = 0;
    while i < n.len()
        invariant
            i <= n.len(),
            tokens@.map_values(|t: AxisToken| (t.axis, t.value@)) + axis_tokens(n@, i as int)
                == axis_tokens(n@, 0),
        decreases n.len() - i,
    {
        let axis = n[i];
        let mut e = i + 1;
        while e < n.len() && !(('a' <= n[e] && n[e] <= 'z') || ('A' <= n[e] && n[e] <= 'Z'))
            invariant
                i < e <= n.len(),
                next_letter(n@, i + 1) == next_letter(n@, e as int),
            decreases n.len() - e,
        {
            e += 1;
        }
        let value = string_of(&n, i + 1, e);
        let ghost old_tokens = tokens@;
        let ghost before = old_tokens.map_values(|t: AxisToken| (t.axis, t.value@));
        let token = AxisToken { axis, value };
        let ghost tk = token;
        tokens.push(token);
        proof {
            lemma_next_letter(n@, i + 1);
            let head = seq![(n@[i as int], n@.subrange(i + 1, e as int))];
            assert(tokens@ == old_tokens.push(tk));
            lemma_token_views(old_tokens, tk, head[0]);
            assert(axis_tokens(n@, i as int) == head + axis_tokens(n@, e as int));
            assert(before + head + axis_tokens(n@, e as int) =~= before + (head + axis_tokens(
                n@,
                e as int,
            )));
        }
        i = e;
    }
    assert(axis_tokens(n@, i as int) =~= Seq::<(char, Seq<char>)>::empty());
    assert(tokens@.map_values(|t: AxisToken| (t.axis, t.value@)) + Seq::<(char, Seq<char>)>::empty()
        =~= tokens@.map_values(|t: AxisToken| (t.axis, t.value@)));
    Ok(AngleSpec { input: whole, text: AngleText::Axes(tokens) })
}

/// The text the tokens were read from: each axis letter followed by the
/// text of its angle.
pub open spec fn joined(ts: Seq<(char, Seq<char>)>) -> Seq<char>
    decreases ts.len(),
{
    if ts.len() == 0 {
        seq![]
    } else {
        seq![ts[0].0] + ts[0].1 + joined(ts.drop_first())
    }
}

/// Splitting into axis tokens loses and reorders nothing: the tokens from
/// position `i` on, joined, are the text from `i` on.
pub proof fn lemma_axis_tokens_rejoin(n: Seq<char>, i: int)
    requires
        0 <= i <= n.len(),
    ensures
        joined(axis_tokens(n, i)) == n.subrange(i, n.len() as int),
    decreases n.len() - i,
{
    if i < n.len() {
        lemma_next_letter(n, i + 1);
        let e = next_letter(n, i + 1);
        lemma_axis_tokens_rejoin(n, e);
        let head = seq![(n[i], n.subrange(i + 1, e))];
        let ts = axis_tokens(n, i);
        assert(ts == head + axis_tokens(n, e));
        assert(ts.drop_first() =~= axis_tokens(n, e));
        assert(n.subrange(i, n.len() as int) =~= seq![n[i]] + n.subrange(i + 1, e) + n.subrange(
            e,
            n.len() as int,
        ));
    } else {
        assert(n.subrange(i, n.len() as int) =~= Seq::<char>::empty());
    }
}

/// An option starts like a number exactly when its first character is a
/// decimal digit `0` to `9`, a sign or a decimal point.
pub proof fn lemma_starts_numeric(n: Seq<char>)
    ensures
        starts_numeric(n) <==> n.len() > 0 && (('0' <= n[0] && n[0] <= '9') || n[0] == '-'
            || n[0] == '+' || n[0] == '.'),
{
}

} // verus!
