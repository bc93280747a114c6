//! Settings: string values by key, kept in memory or in a config file of
//! `key=value` lines.
use vstd::prelude::*;

use crate::text::{chars_of, find_char, lemma_find_char_is, scan_for};

verus! {

/// A store of settings: string values by string key.
pub trait Store: Sized {
    /// The settings the store holds.
    spec fn values(&self) -> Map<Seq<char>, Seq<char>>;

    /// The value stored under `key`, if any.
    fn load<'a>(&'a self, key: &'static str) -> (value: Option<&'a str>)
        ensures
            match value {
                Some(v) => self.values().contains_key(key@) && v@ == self.values()[key@],
                None => !self.values().contains_key(key@),
            },
    ;

    /// Stores `value` under `key`, replacing what was there.
    fn store(&mut self, key: &'static str, value: &str)
        ensures
            final(self).values() == old(self).values().insert(key@, value@),
    ;
}

/// The settings a list of entries holds: each key with its value.
pub open spec fn entries_map(es: Seq<(String, String)>) -> Map<Seq<char>, Seq<char>>
    decreases es.len(),
{
    if es.len() == 0 {
        Map::empty()
    } else {
        entries_map(es.drop_last()).insert(es.last().0@, es.last().1@)
    }
}

/// No key occurs twice.
pub open spec fn keys_distinct(es: Seq<(String, String)>) -> bool {
    forall|i: int, j: int| 0 <= i < j < es.len() ==> (#[trigger] es[i]).0@ != (#[trigger] es[j]).0@
}

/// Settings as a list of entries without repeated keys.
pub struct ConfigValues {
    entries: Vec<(String, String)>,
}

impl View for ConfigValues {
    type V = Map<Seq<char>, Seq<char>>;

    closed spec fn view(&self) -> Map<Seq<char>, Seq<char>> {
        entries_map(self.entries@)
    }
}

proof fn lemma_entries_map(es: Seq<(String, String)>)
    requires
        keys_distinct(es),
    ensures
        forall|k: Seq<char>| #[trigger]
            entries_map(es).contains_key(k) <==> exists|i: int|
                0 <= i < es.len() && (#[trigger] es[i]).0@ == k,
        forall|i: int| 0 <= i < es.len() ==> #[trigger] entries_map(es)[es[i].0@] == es[i].1@,
    decreases es.len(),
{
    if es.len() > 0 {
        let prev = es.drop_last();
        assert(keys_distinct(prev));
        lemma_entries_map(prev);
        assert forall|k: Seq<char>| #[trigger]
            entries_map(es).contains_key(k) implies exists|i: int|
                0 <= i < es.len() && (#[trigger] es[i]).0@ == k by {
            if k != es.last().0@ {
                assert(entries_map(prev).contains_key(k));
                let i = choose|i: int| 0 <= i < prev.len() && (#[trigger] prev[i]).0@ == k;
                assert(es[i] == prev[i]);
            } else {
                assert(es[es.len() - 1].0@ == k);
            }
        }
        assert forall|k: Seq<char>|
            (exists|i: int| 0 <= i < es.len() && (#[trigger] es[i]).0@ == k) implies #[trigger]
            entries_map(es).contains_key(k) by {
            let i = choose|i: int| 0 <= i < es.len() && (#[trigger] es[i]).0@ == k;
            if i < es.len() - 1 {
                assert(prev[i] == es[i]);
                assert(entries_map(prev).contains_key(k));
            }
        }
        assert forall|i: int| 0 <= i < es.len() implies #[trigger] entries_map(es)[es[i].0@]
            == es[i].1@ by {
            if i < es.len() - 1 {
                assert(prev[i] == es[i]);
                assert(es[i].0@ != es[es.len() - 1].0@);
                assert(entries_map(prev)[prev[i].0@] == prev[i].1@);
            }
        }
    }
}

/// Replacing the value of an existing entry updates that key only.
proof fn lemma_entries_map_update(es: Seq<(String, String)>, i: int, e: (String, String))
    requires
        keys_distinct(es),
        0 <= i < es.len(),
        es[i].0@ == e.0@,
    ensures
        keys_distinct(es.update(i, e)),
        entries_map(es.update(i, e)) == entries_map(es).insert(e.0@, e.1@),
    decreases es.len(),
{
    let es2 = es.update(i, e);
    assert forall|a: int, b: int| 0 <= a < b < es2.len() implies (#[trigger] es2[a]).0@
        != (#[trigger] es2[b]).0@ by {
        assert(es[a].0@ != es[b].0@);
    }
    let prev = es.drop_last();
    if i < es.len() - 1 {
        assert(keys_distinct(prev));
        lemma_entries_map_update(prev, i, e);
        assert(es2.drop_last() =~= prev.update(i, e));
        assert(es.last().0@ != e.0@) by {
            assert(es[i].0@ != es[es.len() - 1].0@);
        }
        assert(entries_map(es2) =~= entries_map(es).insert(e.0@, e.1@));
    } else {
        assert(es2.drop_last() =~= prev);
        assert(entries_map(es2) =~= entries_map(es).insert(e.0@, e.1@));
    }
}

impl ConfigValues {
    #[verifier::type_invariant]
    spec fn keys_unique(&self) -> bool {
        keys_distinct(self.entries@)
    }

    /// No settings.
    pub fn new() -> (values: Self)
        ensures
            values@ == Map::<Seq<char>, Seq<char>>::empty(),
    {
        ConfigValues { entries: Vec::new() }
    }

    /// The entries in the order they were first stored.
    pub closed spec fn entry_seq(&self) -> Seq<(String, String)> {
        self.entries@
    }

    /// The position of the entry with key `key`.
    fn position(&self, key: &String) -> (pos: Option<usize>)
        ensures
            match pos {
                Some(i) => i < self.entries.len() && self.entries@[i as int].0@ == key@,
                None => forall|i: int|
                    0 <= i < self.entries.len() ==> (#[trigger] self.entries@[i]).0@ != key@,
            },
    {
        let mut i: usize = 0;
        while i < self.entries.len()
            invariant
                i <= self.entries.len(),
                forall|j: int| 0 <= j < i ==> (#[trigger] self.entries@[j]).0@ != key@,
            decreases self.entries.len() - i,
        {
            if self.entries[i].0 == *key {
                return Some(i);
            }
            i += 1;
        }
        None
    }

    /// The value stored under `key`, if any.
    pub fn get<'a>(&'a self, key: &str) -> (value: Option<&'a str>)
        ensures
            match value {
                Some(v) => self@.contains_key(key@) && v@ == self@[key@],
                None => !self@.contains_key(key@),
            },
    {
        proof {
            use_type_invariant(self);
            lemma_entries_map(self.entries@);
        }
        let key = String::from_str(key);
        match self.position(&key) {
            Some(i) => Some(self.entries[i].1.as_str()),
            None => None,
        }
    }

    /// Stores `value` under `key`, replacing what was there.
    pub fn set(&mut self, key: &str, value: &str)
        ensures
            final(self)@ == old(self)@.insert(key@, value@),
    {
        proof {
            use_type_invariant(&*self);
        }
        let key = String::from_str(key);
        let value = String::from_str(value);
        let pos = self.position(&key);
        let mut es: Vec<(String, String)> = Vec::new();
        std::mem::swap(&mut es, &mut self.entries);
        match pos {
            Some(i) => {
                proof {
                    lemma_entries_map_update(es@, i as int, (key, value));
                }
                es.set(i, (key, value));
            },
            None => {
                let ghost before = es@;
                assert(before.push((key, value)).drop_last() =~= before);
                es.push((key, value));
            },
        }
        self.entries = es;
    }
}

/// A line without the carriage return that ends it, if any.
pub open spec fn strip_cr(l: Seq<char>) -> Seq<char> {
    if l.len() > 0 && l.last() == '\r' {
        l.drop_last()
    } else {
        l
    }
}

/// The lines of `t` from position `i` on, where the current line started at
/// `start`: lines end at a line feed, which a carriage return may precede,
/// and the last line needs no line feed.
pub open spec fn lines_from(t: Seq<char>, i: int, start: int) -> Seq<Seq<char>>
    decreases t.len() - i,
{
    if i >= t.len() {
        if start < t.len() {
            seq![t.subrange(start, t.len() as int)]
        } else {
            seq![]
        }
    } else if t[i] == '\n' {
        seq![strip_cr(t.subrange(start, i))] + lines_from(t, i + 1, i + 1)
    } else {
        lines_from(t, i + 1, start)
    }
}

/// The lines of a text.
pub open spec fn text_lines(t: Seq<char>) -> Seq<Seq<char>> {
    lines_from(t, 0, 0)
}

/// The setting a config line holds: the text before the first `=` is the
/// key, the text after it up to the next `=` the value. A line without `=`
/// holds none.
pub open spec fn line_entry(l: Seq<char>) -> Option<(Seq<char>, Seq<char>)> {
    let eq = find_char(l, '=', 0);
    if eq >= l.len() {
        None
    } else {
        Some((l.take(eq), l.subrange(eq + 1, find_char(l, '=', eq + 1))))
    }
}

/// Applies the settings of the lines in order; a later line overrides an
/// earlier one with the same key.
pub open spec fn apply_lines(m: Map<Seq<char>, Seq<char>>, ls: Seq<Seq<char>>) -> Map<
    Seq<char>,
    Seq<char>,
>
    decreases ls.len(),
{
    if ls.len() == 0 {
        m
    } else {
        let next = match line_entry(ls[0]) {
            Some(e) => m.insert(e.0, e.1),
            None => m,
        };
        apply_lines(next, ls.drop_first())
    }
}

/// The settings a config text holds.
pub open spec fn parse_config(t: Seq<char>) -> Map<Seq<char>, Seq<char>> {
    apply_lines(Map::empty(), text_lines(t))
}

/// The config line of a setting.
pub open spec fn entry_line(key: Seq<char>, value: Seq<char>) -> Seq<char> {
    key + seq!['='] + value + seq!['\n']
}

/// The config text of a list of entries: one line per entry, in order.
pub open spec fn render_entries(es: Seq<(String, String)>) -> Seq<char>
    decreases es.len(),
{
    if es.len() == 0 {
        seq![]
    } else {
        render_entries(es.drop_last()) + entry_line(es.last().0@, es.last().1@)
    }
}

impl ConfigValues {
    /// Applies the setting of the line `text[start..end]`, if it holds one.
    fn apply_line(&mut self, text: &str, cs: &Vec<char>, start: usize, end: usize)
        requires
            cs@ == text@,
            start <= end <= cs.len(),
        ensures
            final(self)@ == match line_entry(cs@.subrange(start as int, end as int)) {
                Some(e) => old(self)@.insert(e.0, e.1),
                None => old(self)@,
            },
    {
        let ghost l = cs@.subrange(start as int, end as int);
        let eq = scan_for(cs, '=', start, end);
        proof {
            lemma_find_char_is(l, '=', 0, eq - start);
        }
        if eq < end {
            let next = scan_for(cs, '=', eq + 1, end);
            proof {
                lemma_find_char_is(l, '=', eq - start + 1, next - start);
                assert(l.take(eq - start) =~= cs@.subrange(start as int, eq as int));
                assert(l.subrange(eq - start + 1, next - start) =~= cs@.subrange(
                    eq + 1,
                    next as int,
                ));
            }
            let key = text.substring_char(start, eq);
            let value = text.substring_char(eq + 1, next);
            self.set(key, value);
        }
    }

    /// The settings of a config text: one `key=value` per line, a later line
    /// overriding an earlier one; lines without `=` are skipped, and a
    /// value ends at a second `=`.
    pub fn parse(text: &str) -> (values: Self)
        ensures
            values@ == parse_config(text@),
    {
        let cs = chars_of(text);
        let mut values = ConfigValues::new();
        let mut start: usize = 0;
        let mut i: usize = 0;
        while i < cs.len()
            invariant
                cs@ == text@,
                start <= i <= cs.len(),
                apply_lines(values@, lines_from(cs@, i as int, start as int)) == parse_config(
                    text@,
                ),
            decreases cs.len() - i,
        {
            if cs[i] == '\n' {
                let ghost rest = lines_from(cs@, i + 1, i + 1);
                let ghost line = strip_cr(cs@.subrange(start as int, i as int));
                let end = if i > start && cs[i - 1] == '\r' {
                    i - 1
                } else {
                    i
                };
                assert(line =~= cs@.subrange(start as int, end as int));
                let ghost before = values@;
                values.apply_line(text, &cs, start, end);
                assert((seq![line] + rest)[0] == line);
                assert((seq![line] + rest).drop_first() =~= rest);
                start = i + 1;
            }
            i += 1;
        }
        if start < cs.len() {
            let ghost line = cs@.subrange(start as int, cs.len() as int);
            let ghost before = values@;
            assert(lines_from(cs@, i as int, start as int) == seq![line]);
            values.apply_line(text, &cs, start, cs.len());
            assert(seq![line].drop_first() =~= Seq::<Seq<char>>::empty());
            assert(apply_lines(before, seq![line]) == apply_lines(values@, Seq::<Seq<char>>::empty()));
        } else {
            assert(lines_from(cs@, i as int, start as int) == Seq::<Seq<char>>::empty());
        }
        values
    }

    /// The config text of the settings: one `key=value` line per setting.
    pub fn render(&self) -> (text: String)
        ensures
            text@ == render_entries(self.entry_seq()),
            keys_distinct(self.entry_seq()),
            self@ == entries_map(self.entry_seq()),
    {
        proof {
            use_type_invariant(self);
        }
        let mut text = String::new();
        let mut i: usize = 0;
        while i < self.entries.len()
            invariant
                i <= self.entries.len(),
                text@ == render_entries(self.entries@.take(i as int)),
            decreases self.entries.len() - i,
        {
            let ghost before = text@;
            proof {
                reveal_strlit("=");
                reveal_strlit("\n");
            }
            text.append(self.entries[i].0.as_str());
            text.append("=");
            text.append(self.entries[i].1.as_str());
            text.append("\n");
            let ghost es = self.entries@.take(i + 1);
            assert(es.drop_last() =~= self.entries@.take(i as int));
            assert(es.last() == self.entries@[i as int]);
            assert("="@ =~= seq!['=']);
            assert("\n"@ =~= seq!['\n']);
            assert(text@ =~= render_entries(es));
            i += 1;
        }
        assert(self.entries@.take(i as int) =~= self.entries@);
        text
    }
}

/// A setting that a config line carries unchanged: neither key nor value
/// holds `=` or a line feed, and the value does not end in a carriage return.
pub open spec fn plain_setting(key: Seq<char>, value: Seq<char>) -> bool {
    &&& !key.contains('=')
    &&& !key.contains('\n')
    &&& !value.contains('=')
    &&& !value.contains('\n')
    &&& (value.len() > 0 ==> value.last() != '\r')
}

proof fn lemma_lines_shift(p: Seq<char>, q: Seq<char>, i: int, s: int)
    requires
        0 <= s <= i <= q.len(),
    ensures
        lines_from(p + q, p.len() + i, p.len() + s) == lines_from(q, i, s),
    decreases q.len() - i,
{
    let t = p + q;
    if i >= q.len() {
        if s < q.len() {
            assert(t.subrange(p.len() + s, t.len() as int) =~= q.subrange(s, q.len() as int));
        }
    } else {
        assert(t[p.len() + i] == q[i]);
        if q[i] == '\n' {
            lemma_lines_shift(p, q, i + 1, i + 1);
            assert(t.subrange(p.len() + s, p.len() + i) =~= q.subrange(s, i));
        } else {
            lemma_lines_shift(p, q, i + 1, s);
        }
    }
}

proof fn lemma_lines_concat(p: Seq<char>, q: Seq<char>, i: int, s: int)
    requires
        (0 <= s <= i < p.len()) || (s == i && i == p.len()),
        p.len() > 0 ==> p.last() == '\n',
    ensures
        lines_from(p + q, i, s) == lines_from(p, i, s) + lines_from(q, 0, 0),
    decreases p.len() - i,
{
    let t = p + q;
    if i == p.len() {
        lemma_lines_shift(p, q, 0, 0);
        assert(lines_from(p, i, s) =~= Seq::<Seq<char>>::empty());
        assert(lines_from(p, i, s) + lines_from(q, 0, 0) =~= lines_from(q, 0, 0));
    } else {
        assert(t[i] == p[i]);
        if p[i] == '\n' {
            lemma_lines_concat(p, q, i + 1, i + 1);
            assert(t.subrange(s, i) =~= p.subrange(s, i));
            let a = seq![strip_cr(p.subrange(s, i))];
            assert(a + (lines_from(p, i + 1, i + 1) + lines_from(q, 0, 0)) =~= (a + lines_from(
                p,
                i + 1,
                i + 1,
            )) + lines_from(q, 0, 0));
        } else {
            lemma_lines_concat(p, q, i + 1, s);
        }
    }
}

proof fn lemma_entry_line_lines(key: Seq<char>, value: Seq<char>, i: int)
    requires
        plain_setting(key, value),
        0 <= i <= key.len() + 1 + value.len(),
    ensures
        lines_from(entry_line(key, value), i, 0) == seq![key + seq!['='] + value],
    decreases key.len() + 1 + value.len() - i,
{
    let body = key + seq!['='] + value;
    let x = entry_line(key, value);
    assert(x =~= body + seq!['\n']);
    if i == body.len() {
        assert(x[i] == '\n');
        assert(x.subrange(0, i) =~= body);
        if value.len() > 0 {
            assert(body.last() == value.last());
        }
        assert(lines_from(x, i + 1, i + 1) =~= Seq::<Seq<char>>::empty());
        assert(lines_from(x, i, 0) =~= seq![body]);
    } else {
        assert(x[i] == body[i]);
        if i < key.len() {
            assert(body[i] == key[i]);
            assert(key[i] != '\n');
        } else if i > key.len() {
            assert(body[i] == value[i - key.len() - 1]);
            assert(value[i - key.len() - 1] != '\n');
        }
        lemma_entry_line_lines(key, value, i + 1);
    }
}

proof fn lemma_apply_concat(m: Map<Seq<char>, Seq<char>>, a: Seq<Seq<char>>, b: Seq<Seq<char>>)
    ensures
        apply_lines(m, a + b) == apply_lines(apply_lines(m, a), b),
    decreases a.len(),
{
    if a.len() == 0 {
        assert(a + b =~= b);
    } else {
        assert((a + b)[0] == a[0]);
        assert((a + b).drop_first() =~= a.drop_first() + b);
        let next = match line_entry(a[0]) {
            Some(e) => m.insert(e.0, e.1),
            None => m,
        };
        lemma_apply_concat(next, a.drop_first(), b);
    }
}

proof fn lemma_line_entry(key: Seq<char>, value: Seq<char>)
    requires
        plain_setting(key, value),
    ensures
        line_entry(key + seq!['='] + value) == Some((key, value)),
{
    let l = key + seq!['='] + value;
    assert forall|k: int| 0 <= k < key.len() implies l[k] != '=' by {
        assert(l[k] == key[k]);
    }
    lemma_find_char_is(l, '=', 0, key.len() as int);
    assert forall|k: int| key.len() + 1 <= k < l.len() implies l[k] != '=' by {
        assert(l[k] == value[k - key.len() - 1]);
    }
    lemma_find_char_is(l, '=', key.len() as int + 1, l.len() as int);
    assert(l.take(key.len() as int) =~= key);
    assert(l.subrange(key.len() as int + 1, l.len() as int) =~= value);
}

/// Settings written as a config text are read back unchanged, provided that
/// every key and value survives the `key=value` line format.
pub proof fn lemma_config_round_trip(es: Seq<(String, String)>)
    requires
        forall|i: int| 0 <= i < es.len() ==> plain_setting((#[trigger] es[i]).0@, es[i].1@),
    ensures
        parse_config(render_entries(es)) == entries_map(es),
    decreases es.len(),
{
    if es.len() > 0 {
        let prev = es.drop_last();
        assert forall|i: int| 0 <= i < prev.len() implies plain_setting(
            (#[trigger] prev[i]).0@,
            prev[i].1@,
        ) by {
            assert(prev[i] == es[i]);
        }
        lemma_config_round_trip(prev);
        let p = render_entries(prev);
        let (k, v) = (es.last().0@, es.last().1@);
        assert(plain_setting(k, v)) by {
            assert(es[es.len() - 1] == es.last());
        }
        let line = entry_line(k, v);
        if prev.len() > 0 {
            assert(p.last() == '\n');
            lemma_lines_concat(p, line, 0, 0);
        } else {
            assert(p =~= Seq::<char>::empty());
            lemma_lines_concat(p, line, 0, 0);
        }
        lemma_entry_line_lines(k, v, 0);
        lemma_apply_concat(Map::empty(), text_lines(p), text_lines(line));
        lemma_line_entry(k, v);
        let ls = seq![k + seq!['='] + v];
        assert(ls.drop_first() =~= Seq::<Seq<char>>::empty());
        assert(render_entries(es) == p + line);
        assert(text_lines(p + line) == text_lines(p) + ls);
        let m = entries_map(prev);
        assert(apply_lines(Map::empty(), text_lines(p)) == m);
        assert(apply_lines(m, ls) == apply_lines(m.insert(k, v), ls.drop_first()));
        assert(apply_lines(m, ls) == m.insert(k, v));
    }
}

/// What a store holds after a `store` call: the stored value under its key,
/// and every other key as before; so a `load` of the key gives the value back.
pub proof fn lemma_load_after_store(
    before: Map<Seq<char>, Seq<char>>,
    key: Seq<char>,
    value: Seq<char>,
    other: Seq<char>,
)
    ensures
        before.insert(key, value).contains_key(key),
        before.insert(key, value)[key] == value,
        other != key ==> (before.insert(key, value).contains_key(other) == before.contains_key(
            other,
        ) && before.insert(key, value)[other] == before[other]),
{
}

/// Settings held in memory only.
pub struct MemStore {
    values: ConfigValues,
}

impl MemStore {
    /// A store without settings.
    pub fn new() -> (store: Self)
        ensures
            store.values() == Map::<Seq<char>, Seq<char>>::empty(),
    {
        MemStore { values: ConfigValues::new() }
    }
}

impl Default for MemStore {
    fn default() -> (store: Self)
        ensures
            store.values() == Map::<Seq<char>, Seq<char>>::empty(),
    {
        MemStore::new()
    }
}

impl Store for MemStore {
    closed spec fn values(&self) -> Map<Seq<char>, Seq<char>> {
        self.values@
    }

    fn load<'a>(&'a self, key: &'static str) -> (value: Option<&'a str>) {
        self.values.get(key)
    }

    fn store(&mut self, key: &'static str, value: &str) {
        self.values.set(key, value);
    }
}

/// Settings kept in a config file: those read from it, and the text to
/// write back to it once a setting has changed.
pub struct FileStore {
    values: ConfigValues,
    unsaved: Option<String>,
}

impl FileStore {
    /// The config text waiting to be written, if any.
    pub closed spec fn unsaved_text(&self) -> Option<Seq<char>> {
        match self.unsaved {
            Some(t) => Some(t@),
            None => None,
        }
    }

    /// The settings as entries, in the order their keys were first stored.
    pub closed spec fn entries(&self) -> Seq<(String, String)> {
        self.values.entry_seq()
    }

    /// The settings of a config file's text; none where the file could not
    /// be read. Nothing is waiting to be written.
    pub fn from_config(config: Option<&str>) -> (store: Self)
        ensures
            store.values() == match config {
                Some(text) => parse_config(text@),
                None => Map::<Seq<char>, Seq<char>>::empty(),
            },
            store.unsaved_text() is None,
    {
        let values = match config {
            Some(text) => ConfigValues::parse(text),
            None => ConfigValues::new(),
        };
        FileStore { values, unsaved: None }
    }

    /// Hands over the config text waiting to be written, if any; afterwards
    /// none is waiting.
    pub fn take_unsaved(&mut self) -> (text: Option<String>)
        ensures
            match text {
                Some(t) => old(self).unsaved_text() == Some(t@),
                None => old(self).unsaved_text() is None,
            },
            final(self).unsaved_text() is None,
            final(self).values() == old(self).values(),
            final(self).entries() == old(self).entries(),
    {
        let mut text: Option<String> = None;
        std::mem::swap(&mut text, &mut self.unsaved);
        text
    }
}

impl Store for FileStore {
    closed spec fn values(&self) -> Map<Seq<char>, Seq<char>> {
        self.values@
    }

    fn load<'a>(&'a self, key: &'static str) -> (value: Option<&'a str>) {
        self.values.get(key)
    }

    /// Stores the value, and makes the config text of all settings wait to
    /// be written.
    fn store(&mut self, key: &'static str, value: &str)
        ensures
            final(self).unsaved_text() == Some(render_entries(final(self).entries())),
            final(self).values() == entries_map(final(self).entries()),
    {
        self.values.set(key, value);
        let text = self.values.render();
        self.unsaved = Some(text);
    }
}

/// The config text a file store writes after a change reads back as its
/// settings, provided that every key and value survives the `key=value`
/// line format.
pub proof fn lemma_unsaved_config_reloads(store: FileStore)
    requires
        store.unsaved_text() == Some(render_entries(store.entries())),
        forall|i: int|
            0 <= i < store.entries().len() ==> plain_setting(
                (#[trigger] store.entries()[i]).0@,
                store.entries()[i].1@,
            ),
    ensures
        parse_config(store.unsaved_text()->0) == store.values(),
{
    lemma_config_round_trip(store.entries());
}

} // verus!
