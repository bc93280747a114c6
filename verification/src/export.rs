//! Names of the files that the command line exporter writes: one per part
//! of the model, named after the source file.
use vstd::prelude::*;

use crate::text::{chars_of, push_char, string_of};

verus! {

/// The decimal digit of `d`.
pub open spec fn digit(d: nat) -> char {
    (('0' as u32) + d) as char
}

/// The decimal form of `n`, without leading zeros.
pub open spec fn decimal(n: nat) -> Seq<char>
    decreases n,
{
    if n < 10 {
        seq![digit(n)]
    } else {
        decimal(n / 10).push(digit(n % 10))
    }
}

/// The last position of `.` before `end`, if any.
pub open spec fn last_dot(s: Seq<char>, end: int) -> Option<int>
    decreases end,
{
    if end <= 0 {
        None
    } else if s[end - 1] == '.' {
        Some(end - 1)
    } else {
        last_dot(s, end - 1)
    }
}

/// A file name with its extension, if it has one, replaced by `ext`: the
/// extension is what follows the last dot, unless that dot starts the name.
pub open spec fn with_extension(name: Seq<char>, ext: Seq<char>) -> Seq<char> {
    match last_dot(name, name.len() as int) {
        Some(d) if d > 0 => name.take(d) + seq!['.'] + ext,
        _ => name + seq!['.'] + ext,
    }
}

/// The file of part `index`: the first part takes the name of the source,
/// the others add their number.
pub open spec fn part_file_name_spec(stem: Seq<char>, index: nat, ext: Seq<char>) -> Seq<char> {
    if index == 0 {
        with_extension(stem, ext)
    } else {
        stem + seq!['_'] + decimal(index) + seq!['.'] + ext
    }
}

/// A name that stands for one file in a folder.
pub open spec fn plain_file_name(name: Seq<char>) -> bool {
    &&& name.len() > 0
    &&& !name.contains('/')
    &&& name != seq!['.']
    &&& name != seq!['.', '.']
}

fn push_decimal(s: &mut String, n: usize)
    ensures
        final(s)@ == old(s)@ + decimal(n as nat),
    decreases n,
{
    if n >= 10 {
        push_decimal(s, n / 10);
    }
    let d = (n % 10) as u8;
    let c = ('0' as u8 + d) as char;
    assert(c == digit((n % 10) as nat));
    push_char(s, c);
    assert(decimal(n as nat) =~= if n < 10 {
        seq![digit(n as nat)]
    } else {
        decimal((n / 10) as nat).push(digit((n % 10) as nat))
    });
}

/// The name of the file that part `index` of a model from the source named
/// `stem` is exported to.
pub fn part_file_name(stem: &str, index: usize, ext: &str) -> (name: String)
    requires
        plain_file_name(stem@),
    ensures
        name@ == part_file_name_spec(stem@, index as nat, ext@),
{
    proof {
        reveal_strlit(".");
        reveal_strlit("_");
    }
    if index == 0 {
        let cs = chars_of(stem);
        let mut end = cs.len();
        while end > 0 && cs[end - 1] != '.'
            invariant
                end <= cs.len(),
                last_dot(cs@, cs.len() as int) == last_dot(cs@, end as int),
            decreases end,
        {
            end -= 1;
        }
        let mut name = if end > 1 {
            string_of(&cs, 0, end - 1)
        } else {
            assert(cs@.subrange(0, cs.len() as int) =~= cs@);
            string_of(&cs, 0, cs.len())
        };
        name.append(".");
        name.append(ext);
        name
    } else {
        let mut name = String::from_str(stem);
        name.append("_");
        push_decimal(&mut name, index);
        name.append(".");
        name.append(ext);
        name
    }
}

proof fn lemma_decimal_len(n: nat)
    ensures
        decimal(n).len() >= 1,
        n >= 10 ==> decimal(n).len() >= 2,
    decreases n,
{
    if n >= 10 {
        lemma_decimal_len(n / 10);
    }
}

/// Different numbers have different decimal forms.
proof fn lemma_decimal_injective(i: nat, j: nat)
    requires
        decimal(i) == decimal(j),
    ensures
        i == j,
    decreases i,
{
    lemma_decimal_len(i);
    lemma_decimal_len(j);
    if i < 10 && j < 10 {
        assert(decimal(i)[0] == digit(i));
        assert(decimal(j)[0] == digit(j));
    } else if i >= 10 && j >= 10 {
        assert(decimal(i).last() == digit(i % 10));
        assert(decimal(j).last() == digit(j % 10));
        assert(decimal(i).drop_last() =~= decimal(i / 10));
        assert(decimal(j).drop_last() =~= decimal(j / 10));
        lemma_decimal_injective(i / 10, j / 10);
    }
}

proof fn lemma_with_extension_len(name: Seq<char>, ext: Seq<char>)
    ensures
        with_extension(name, ext).len() <= name.len() + 1 + ext.len(),
{
    match last_dot(name, name.len() as int) {
        Some(d) if d > 0 => {
            lemma_last_dot_below(name, name.len() as int);
        },
        _ => {},
    }
}

proof fn lemma_last_dot_below(s: Seq<char>, end: int)
    ensures
        last_dot(s, end) matches Some(d) ==> 0 <= d < end,
    decreases end,
{
    if end > 0 && s[end - 1] != '.' {
        lemma_last_dot_below(s, end - 1);
    }
}

/// Different parts of one source are exported to different files, so no
/// part overwrites another.
pub proof fn lemma_part_file_names_distinct(stem: Seq<char>, i: nat, j: nat, ext: Seq<char>)
    requires
        i != j,
    ensures
        part_file_name_spec(stem, i, ext) != part_file_name_spec(stem, j, ext),
{
    lemma_decimal_len(i);
    lemma_decimal_len(j);
    lemma_with_extension_len(stem, ext);
    if i > 0 && j > 0 {
        let a = part_file_name_spec(stem, i, ext);
        let b = part_file_name_spec(stem, j, ext);
        if a == b {
            let p: int = stem.len() + 1int;
            assert(a == stem + seq!['_'] + decimal(i) + seq!['.'] + ext);
            assert(b == stem + seq!['_'] + decimal(j) + seq!['.'] + ext);
            assert(a.len() == p + decimal(i).len() + 1 + ext.len());
            assert(b.len() == p + decimal(j).len() + 1 + ext.len());
            assert(decimal(i).len() == decimal(j).len());
            assert(a.subrange(p, p + decimal(i).len() as int) =~= decimal(i));
            assert(b.subrange(p, p + decimal(j).len() as int) =~= decimal(j));
            lemma_decimal_injective(i, j);
        }
    }
}

} // verus!
