//! The text of an avatar key: values and parameter names, separated by `|`.

use vstd::prelude::*;
use crate::chars::{string_of, to_chars};
use crate::number::{parse_u32_range, parse_u32_spec};

verus! {

/// `c`, with the comma taken for a decimal point.
pub open spec fn normalized_char(c: char) -> char {
    if c == ',' {
        '.'
    } else {
        c
    }
}

/// `text` with every comma replaced by a dot.
pub open spec fn normalized(text: Seq<char>) -> Seq<char> {
    Seq::new(text.len(), |i: int| normalized_char(text[i]))
}

/// The fields of `text` between separators. There is always one field at
/// least: each separator ends a field and starts the next, and every other
/// character extends the last field.
pub open spec fn split(text: Seq<char>, sep: char) -> Seq<Seq<char>>
    decreases text.len(),
{
    if text.len() == 0 {
        seq![Seq::empty()]
    } else {
        let before = split(text.drop_last(), sep);
        if text.last() == sep {
            before.push(Seq::empty())
        } else {
            before.drop_last().push(before.last().push(text.last()))
        }
    }
}

/// A split never comes out empty.
pub proof fn lemma_split_nonempty(text: Seq<char>, sep: char)
    ensures
        split(text, sep).len() >= 1,
    decreases text.len(),
{
    if text.len() > 0 {
        lemma_split_nonempty(text.drop_last(), sep);
    }
}

/// The views of a list of fields.
pub open spec fn field_views(fields: Seq<Vec<char>>) -> Seq<Seq<char>> {
    Seq::new(fields.len(), |i: int| fields[i]@)
}

/// `text` with every comma replaced by a dot.
pub fn normalize(text: &Vec<char>) -> (out: Vec<char>)
    ensures
        out@ == normalized(text@),
{
    let mut out: Vec<char> = Vec::new();
    let mut i: usize = 0;
    while i < text.len()
        invariant
            i <= text.len(),
            out@.len() == i,
            forall|k: int| 0 <= k < i ==> #[trigger] out@[k] == normalized_char(text@[k]),
        decreases text.len() - i,
    {
        let c = text[i];
        if c == ',' {
            out.push('.');
        } else {
            out.push(c);
        }
        i += 1;
    }
    proof {
        assert(out@ =~= normalized(text@));
    }
    out
}

/// The fields of `text` between the separators `sep`.
pub fn split_fields(text: &Vec<char>, sep: char) -> (fields: Vec<Vec<char>>)
    ensures
        field_views(fields@) == split(text@, sep),
        fields@.len() >= 1,
{
    let mut done: Vec<Vec<char>> = Vec::new();
    let mut current: Vec<char> = Vec::new();
    let mut i: usize = 0;
    proof {
        assert(text@.take(0) =~= Seq::<char>::empty());
        assert(field_views(done@).push(current@) =~= split(text@.take(0), sep));
    }
    while i < text.len()
        invariant
            i <= text.len(),
            field_views(done@).push(current@) == split(text@.take(i as int), sep),
        decreases text.len() - i,
    {
        let c = text[i];
        let ghost before = split(text@.take(i as int), sep);
        let ghost done_before = field_views(done@);
        let ghost current_before = current@;
        proof {
            let next = text@.take(i + 1);
            assert(next.drop_last() =~= text@.take(i as int));
            assert(next.last() == c);
            assert(before.drop_last() =~= done_before);
            assert(before.last() == current_before);
        }
        if c == sep {
            done.push(current);
            current = Vec::new();
            proof {
                assert(field_views(done@) =~= before);
                assert(field_views(done@).push(current@) =~= split(text@.take(i + 1), sep));
            }
        } else {
            current.push(c);
            proof {
                assert(field_views(done@).push(current@) =~= split(text@.take(i + 1), sep));
            }
        }
        i += 1;
    }
    proof {
        assert(text@.take(text@.len() as int) =~= text@);
    }
    done.push(current);
    proof {
        assert(field_views(done@) =~= split(text@, sep));
    }
    done
}

/// A value of a key: a whole part and, after a decimal point, a fraction given
/// as a number and the count of characters that wrote it. The value stands for
/// `whole + part / 10^part_digits`.
#[derive(Clone, Copy, Debug, PartialEq, Eq, Structural)]
pub struct Decimal {
    pub whole: u32,
    pub part: u32,
    pub part_digits: usize,
}

/// Why a value of a key could not be read.
#[derive(Clone, Copy, Debug, PartialEq, Eq, Structural)]
pub enum ValueError {
    /// The text before the decimal point, or all of it where there is no
    /// point, writes no unsigned 32-bit number.
    Whole,
    /// The text after the decimal point writes no unsigned 32-bit number.
    Fraction,
}

/// The place of the first `c` in `s`, or the length of `s` where it has none.
pub open spec fn first_index(s: Seq<char>, c: char) -> int
    decreases s.len(),
{
    if s.len() == 0 {
        0
    } else if s[0] == c {
        0
    } else {
        1 + first_index(s.drop_first(), c)
    }
}

/// `first_index` is the least place that holds `c`.
pub proof fn lemma_first_index(s: Seq<char>, c: char)
    ensures
        0 <= first_index(s, c) <= s.len(),
        first_index(s, c) < s.len() ==> s[first_index(s, c)] == c,
        forall|k: int| 0 <= k < first_index(s, c) ==> s[k] != c,
    decreases s.len(),
{
    if s.len() > 0 && s[0] != c {
        let rest = s.drop_first();
        lemma_first_index(rest, c);
        assert forall|k: int| 0 <= k < first_index(s, c) implies s[k] != c by {
            if k > 0 {
                assert(s[k] == rest[k - 1]);
            }
        }
    }
}

/// A place that holds `c` and has none before it is the first.
pub proof fn lemma_first_index_is(s: Seq<char>, c: char, at: int)
    requires
        0 <= at <= s.len(),
        at < s.len() ==> s[at] == c,
        forall|k: int| 0 <= k < at ==> s[k] != c,
    ensures
        first_index(s, c) == at,
{
    lemma_first_index(s, c);
    let f = first_index(s, c);
    if f < at {
        assert(s[f] == c);
    } else if f > at {
        assert(s[at] == c);
    }
}

/// The value that `field` writes: the text up to the first dot is the whole
/// part, the text after it the fraction; without a dot the fraction is zero
/// with no digits.
pub open spec fn value_of(field: Seq<char>) -> Result<Decimal, ValueError> {
    let dot = first_index(field, '.');
    if dot < field.len() {
        match parse_u32_spec(field.subrange(0, dot)) {
            None => Err(ValueError::Whole),
            Some(whole) => match parse_u32_spec(field.subrange(dot + 1, field.len() as int)) {
                None => Err(ValueError::Fraction),
                Some(part) => Ok(Decimal { whole, part, part_digits: (field.len() - dot - 1) as usize }),
            },
        }
    } else {
        match parse_u32_spec(field) {
            None => Err(ValueError::Whole),
            Some(whole) => Ok(Decimal { whole, part: 0, part_digits: 0 }),
        }
    }
}

/// The value that `field` writes.
pub fn parse_value(field: &Vec<char>) -> (value: Result<Decimal, ValueError>)
    ensures
        value == value_of(field@),
{
    let mut dot: usize = 0;
    while dot < field.len() && field[dot] != '.'
        invariant
            dot <= field.len(),
            forall|k: int| 0 <= k < dot ==> field@[k] != '.',
        decreases field.len() - dot,
    {
        dot += 1;
    }
    proof {
        lemma_first_index_is(field@, '.', dot as int);
    }
    if dot < field.len() {
        match parse_u32_range(field, 0, dot) {
            None => Err(ValueError::Whole),
            Some(whole) => match parse_u32_range(field, dot + 1, field.len()) {
                None => Err(ValueError::Fraction),
                Some(part) => Ok(Decimal { whole, part, part_digits: field.len() - dot - 1 }),
            },
        }
    } else {
        proof {
            assert(field@.subrange(0, field@.len() as int) =~= field@);
        }
        match parse_u32_range(field, 0, field.len()) {
            None => Err(ValueError::Whole),
            Some(whole) => Ok(Decimal { whole, part: 0, part_digits: 0 }),
        }
    }
}

/// One write of a key: the value that the parameter `name` is to take.
#[derive(Clone, Debug)]
pub struct KeyEntry {
    pub name: String,
    pub value: Decimal,
}

/// What a key entry holds.
pub struct EntryModel {
    pub name: Seq<char>,
    pub value: Decimal,
}

impl View for KeyEntry {
    type V = EntryModel;

    open spec fn view(&self) -> EntryModel {
        EntryModel { name: self.name@, value: self.value }
    }
}

/// What each of `entries` holds, in order.
pub open spec fn entry_models(entries: Seq<KeyEntry>) -> Seq<EntryModel> {
    Seq::new(entries.len(), |i: int| entries[i]@)
}

/// The entry, counted from zero, whose value could not be read, and why.
#[derive(Clone, Copy, Debug, PartialEq, Eq, Structural)]
pub struct KeyError {
    pub entry: usize,
    pub cause: ValueError,
}

/// A key as read: its entries in the order of the text, and whether a last
/// field without a partner was left out.
#[derive(Clone, Debug)]
pub struct ParsedKey {
    pub entries: Vec<KeyEntry>,
    pub orphan: bool,
}

/// The first `count` entries of a key with the fields `fields`, which come in
/// pairs of a value and a name. The first value that cannot be read fails the
/// whole key.
pub open spec fn entries_upto(fields: Seq<Seq<char>>, count: nat) -> Result<Seq<EntryModel>, KeyError>
    recommends
        2 * count <= fields.len(),
    decreases count,
{
    if count == 0 {
        Ok(Seq::empty())
    } else {
        match entries_upto(fields, (count - 1) as nat) {
            Err(e) => Err(e),
            Ok(before) => match value_of(fields[2 * (count - 1)]) {
                Err(cause) => Err(KeyError { entry: (count - 1) as usize, cause }),
                Ok(value) => Ok(before.push(EntryModel { name: fields[2 * (count - 1) + 1], value })),
            },
        }
    }
}

/// The fields of a key text: commas count as dots, and `|` separates.
pub open spec fn key_fields(text: Seq<char>) -> Seq<Seq<char>> {
    split(normalized(text), '|')
}

/// The entries that a key text gives: one for every full pair of fields.
pub open spec fn key_entries(text: Seq<char>) -> Result<Seq<EntryModel>, KeyError> {
    entries_upto(key_fields(text), key_fields(text).len() / 2)
}

/// Whether a key text ends in a field without a partner.
pub open spec fn key_has_orphan(text: Seq<char>) -> bool {
    key_fields(text).len() % 2 == 1
}

/// Reads a key text. Every value must be readable, or none of the key is used.
pub fn parse_key(text: &str) -> (key: Result<ParsedKey, KeyError>)
    ensures
        match key {
            Ok(k) => key_entries(text@) == Ok::<Seq<EntryModel>, KeyError>(entry_models(k.entries@))
                && k.orphan == key_has_orphan(text@),
            Err(e) => key_entries(text@) == Err::<Seq<EntryModel>, KeyError>(e),
        },
{
    let chars = to_chars(text);
    let clean = normalize(&chars);
    let fields = split_fields(&clean, '|');
    let ghost views = field_views(fields@);
    let count = fields.len() / 2;
    let mut entries: Vec<KeyEntry> = Vec::new();
    let mut k: usize = 0;
    proof {
        assert(entry_models(entries@) =~= Seq::<EntryModel>::empty());
    }
    while k < count
        invariant
            k <= count,
            count == fields@.len() / 2,
            views == field_views(fields@),
            views == key_fields(text@),
            entries_upto(views, k as nat) == Ok::<Seq<EntryModel>, KeyError>(entry_models(entries@)),
        decreases count - k,
    {
        assert(2 * k + 1 < fields.len());
        proof {
            assert(views[2 * k] == fields@[2 * k]@);
            assert(views[2 * k + 1] == fields@[2 * k + 1]@);
        }
        match parse_value(&fields[2 * k]) {
            Err(cause) => {
                proof {
                    assert(entries_upto(views, (k + 1) as nat) == Err::<Seq<EntryModel>, KeyError>(
                        KeyError { entry: k, cause },
                    ));
                    lemma_entries_error_stays(views, (k + 1) as nat, count as nat);
                }
                return Err(KeyError { entry: k, cause });
            },
            Ok(value) => {
                let name = string_of(&fields[2 * k + 1]);
                let ghost before = entry_models(entries@);
                entries.push(KeyEntry { name, value });
                proof {
                    assert(entry_models(entries@) =~= before.push(EntryModel { name: views[2 * k + 1], value }));
                }
            },
        }
        k += 1;
    }
    Ok(ParsedKey { entries, orphan: fields.len() % 2 == 1 })
}

/// A key that fails within its first `n` entries fails in the same way within
/// any more of them.
pub proof fn lemma_entries_error_stays(fields: Seq<Seq<char>>, n: nat, m: nat)
    requires
        n <= m,
        entries_upto(fields, n) is Err,
    ensures
        entries_upto(fields, m) == entries_upto(fields, n),
    decreases m - n,
{
    if m > n {
        lemma_entries_error_stays(fields, n, (m - 1) as nat);
    }
}

/// A key that reads has one entry for each pair of fields.
pub proof fn lemma_entries_len(fields: Seq<Seq<char>>, count: nat)
    ensures
        entries_upto(fields, count) is Ok ==> entries_upto(fields, count)->Ok_0.len() == count,
    decreases count,
{
    if count > 0 {
        lemma_entries_len(fields, (count - 1) as nat);
    }
}

} // verus!
