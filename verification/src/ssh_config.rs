//! The line-oriented configuration parser: lines are grouped into per-host
//! sections, each holding the last-seen value of every recognised field.
//!
//! Blank lines, comment lines, malformed lines and unrecognised keys are
//! skipped; a later occurrence of a field inside one section overwrites the
//! earlier value; fields that appear before any `Host` declaration are
//! discarded.

use vstd::prelude::*;

use crate::fields::{Field, spec_field_rank, spec_lookup, field_rank, lookup};
use crate::text::{spec_is_space, spec_trim, is_space, trim};

verus! {

/// One parsed host section: the declared host identifier and the mapping
/// from recognised fields to their last-seen values, kept in the fields'
/// canonical order.
#[derive(Clone, Debug, PartialEq)]
pub struct SshConfig {
    pub host: String,
    pub fields: Vec<(Field, String)>,
}

/// The mathematical image of a host section.
pub ghost struct SectionModel {
    pub host: Seq<char>,
    pub fields: Seq<(Field, Seq<char>)>,
}

/// The field map of a section, as a sequence of pairs over views.
pub open spec fn spec_fields_of(fields: Seq<(Field, String)>) -> Seq<(Field, Seq<char>)> {
    fields.map_values(|p: (Field, String)| (p.0, p.1@))
}

impl View for SshConfig {
    type V = SectionModel;

    open spec fn view(&self) -> SectionModel {
        SectionModel { host: self.host@, fields: spec_fields_of(self.fields@) }
    }
}

/// The field map keeps its entries in strictly increasing canonical order;
/// in particular every field occurs at most once.
pub open spec fn spec_fields_sorted(fields: Seq<(Field, Seq<char>)>) -> bool {
    forall|i: int, j: int|
        0 <= i < j < fields.len() ==> spec_field_rank(#[trigger] fields[i].0) < spec_field_rank(
            #[trigger] fields[j].0,
        )
}

impl SshConfig {
    /// Well-formedness: the field map is in canonical order.
    pub open spec fn wf(&self) -> bool {
        spec_fields_sorted(self@.fields)
    }

    /// A fresh section, titled with the wildcard pattern and holding no
    /// fields.
    pub fn new() -> (r: SshConfig)
        ensures
            r@.host == "*"@,
            r@.fields.len() == 0,
            r.wf(),
    {
        SshConfig { host: "*".to_owned(), fields: Vec::new() }
    }

    /// Whether the section holds no fields at all.
    pub fn is_empty(&self) -> (r: bool)
        ensures
            r == (self@.fields.len() == 0),
    {
        self.fields.len() == 0
    }
}

/// Insertion into a field map: the new entry lands at its canonical
/// position, and an entry already present for the same field is replaced —
/// the last value wins.
pub open spec fn spec_fields_insert(
    fields: Seq<(Field, Seq<char>)>,
    f: Field,
    v: Seq<char>,
) -> Seq<(Field, Seq<char>)>
    decreases fields.len(),
{
    if fields.len() == 0 {
        seq![(f, v)]
    } else if spec_field_rank(fields[0].0) < spec_field_rank(f) {
        seq![fields[0]] + spec_fields_insert(fields.drop_first(), f, v)
    } else if fields[0].0 == f {
        seq![(f, v)] + fields.drop_first()
    } else {
        seq![(f, v)] + fields
    }
}

proof fn lemma_fields_of_push(v: Seq<(Field, String)>, p: (Field, String))
    ensures
        spec_fields_of(v.push(p)) == spec_fields_of(v).push((p.0, p.1@)),
{
    assert(spec_fields_of(v.push(p)) =~= spec_fields_of(v).push((p.0, p.1@)));
}

pub(crate) proof fn lemma_sections_of_push(v: Seq<SshConfig>, c: SshConfig)
    ensures
        spec_sections_of(v.push(c)) == spec_sections_of(v).push(c@),
{
    assert(spec_sections_of(v.push(c)) =~= spec_sections_of(v).push(c@));
}

proof fn lemma_lines_of_push(v: Seq<String>, x: String)
    ensures
        spec_lines_of(v.push(x)) == spec_lines_of(v).push(x@),
{
    assert(spec_lines_of(v.push(x)) =~= spec_lines_of(v).push(x@));
}

fn fields_insert(fields: Vec<(Field, String)>, f: Field, value: String) -> (r: Vec<
    (Field, String),
>)
    ensures
        spec_fields_of(r@) == spec_fields_insert(spec_fields_of(fields@), f, value@),
{
    let ghost all = spec_fields_of(fields@);
    let n = fields.len();
    let rank_f = field_rank(f);
    let mut out: Vec<(Field, String)> = Vec::new();
    let mut i: usize = 0;
    assert(all.skip(0) =~= all);
    while i < n && field_rank(fields[i].0) < rank_f
        invariant
            n == fields@.len(),
            all == spec_fields_of(fields@),
            rank_f == spec_field_rank(f),
            i <= n,
            spec_fields_of(out@) == all.take(i as int),
            forall|k: int|
                0 <= k < i ==> spec_field_rank(#[trigger] all[k].0) < spec_field_rank(f),
        decreases n - i,
    {
        let entry_field = fields[i].0;
        let entry_value = fields[i].1.clone();
        proof {
            lemma_fields_of_push(out@, (entry_field, entry_value));
        }
        out.push((entry_field, entry_value));
        assert(spec_fields_of(out@) =~= all.take(i + 1));
        i = i + 1;
    }
    let pos = i;
    assert(pos < n ==> all[pos as int] == (fields@[pos as int].0, fields@[pos as int].1@));
    if i < n && fields[i].0 == f {
        i = i + 1;
    }
    let ghost q: int = if pos < all.len() && all[pos as int].0 == f {
        pos + 1
    } else {
        pos as int
    };
    assert(q == i);
    proof {
        lemma_fields_of_push(out@, (f, value));
    }
    out.push((f, value));
    assert(all.subrange(q, i as int) =~= Seq::<(Field, Seq<char>)>::empty());
    assert(spec_fields_of(out@) =~= all.take(pos as int).push((f, value@)) + all.subrange(
        q,
        i as int,
    ));
    while i < n
        invariant
            n == fields@.len(),
            all == spec_fields_of(fields@),
            pos <= q <= i <= n,
            forall|k: int|
                0 <= k < pos ==> spec_field_rank(#[trigger] all[k].0) < spec_field_rank(f),
            pos < n ==> !(spec_field_rank(all[pos as int].0) < spec_field_rank(f)),
            q == (if pos < all.len() && all[pos as int].0 == f {
                pos + 1
            } else {
                pos as int
            }),
            spec_fields_of(out@) == all.take(pos as int).push((f, value@)) + all.subrange(
                q,
                i as int,
            ),
        decreases n - i,
    {
        let ghost prev = out@;
        let entry_field = fields[i].0;
        let entry_value = fields[i].1.clone();
        assert(all[i as int] == (fields@[i as int].0, fields@[i as int].1@));
        proof {
            lemma_fields_of_push(out@, (entry_field, entry_value));
        }
        out.push((entry_field, entry_value));
        assert(spec_fields_of(out@) == spec_fields_of(prev).push(all[i as int]));
        assert(all.subrange(q, i + 1) =~= all.subrange(q, i as int).push(all[i as int]));
        assert(spec_fields_of(out@) =~= all.take(pos as int).push((f, value@)) + all.subrange(
            q,
            i + 1,
        ));
        i = i + 1;
    }
    proof {
        lemma_fields_insert_splits(all, f, value@, pos as int);
    }
    assert(spec_fields_of(out@) =~= spec_fields_insert(all, f, value@));
    out
}

/// Where the scan stops, the insertion splits the map: everything before
/// keeps its place, an entry for the same field is dropped, and the rest
/// follows the new entry.
proof fn lemma_fields_insert_splits(all: Seq<(Field, Seq<char>)>, f: Field, v: Seq<char>, i: int)
    requires
        0 <= i <= all.len(),
        forall|k: int| 0 <= k < i ==> spec_field_rank(#[trigger] all[k].0) < spec_field_rank(f),
        i < all.len() ==> !(spec_field_rank(all[i].0) < spec_field_rank(f)),
    ensures
        spec_fields_insert(all, f, v) == all.take(i).push((f, v)) + all.subrange(
            ({
                if i < all.len() && all[i].0 == f {
                    i + 1
                } else {
                    i
                }
            }),
            all.len() as int,
        ),
    decreases all.len(),
{
    if all.len() == 0 {
        assert(spec_fields_insert(all, f, v) =~= all.take(0).push((f, v)) + all.subrange(0, 0));
    } else if i == 0 {
        if all[0].0 == f {
            assert(spec_fields_insert(all, f, v) =~= all.take(0).push((f, v)) + all.subrange(
                1,
                all.len() as int,
            ));
        } else {
            assert(spec_fields_insert(all, f, v) =~= all.take(0).push((f, v)) + all.subrange(
                0,
                all.len() as int,
            ));
        }
    } else {
        let rest = all.drop_first();
        lemma_fields_insert_splits(rest, f, v, i - 1);
        assert(rest.take(i - 1) =~= all.take(i).drop_first());
        if i < all.len() && all[i].0 == f {
            assert(rest.subrange(i, rest.len() as int) =~= all.subrange(i + 1, all.len() as int));
        } else {
            assert(rest.subrange(i - 1, rest.len() as int) =~= all.subrange(i, all.len() as int));
        }
        assert(spec_fields_insert(all, f, v) =~= seq![all[0]] + spec_fields_insert(rest, f, v));
        assert(seq![all[0]] + (rest.take(i - 1).push((f, v)) + rest.subrange(
            ({
                if i - 1 < rest.len() && rest[i - 1].0 == f {
                    i
                } else {
                    i - 1
                }
            }),
            rest.len() as int,
        )) =~= all.take(i).push((f, v)) + all.subrange(
            ({
                if i < all.len() && all[i].0 == f {
                    i + 1
                } else {
                    i
                }
            }),
            all.len() as int,
        ));
    }
}

/// The value a field map holds for a field: the last entry for it, if any.
pub open spec fn spec_fields_get(fields: Seq<(Field, Seq<char>)>, f: Field) -> Option<Seq<char>>
    decreases fields.len(),
{
    if fields.len() == 0 {
        None
    } else if fields.last().0 == f {
        Some(fields.last().1)
    } else {
        spec_fields_get(fields.drop_last(), f)
    }
}

/// A duplicate field inside one section keeps only its last value:
/// inserting a field twice leaves exactly what inserting the last value
/// alone would.
pub proof fn lemma_duplicate_field_last_wins(
    fields: Seq<(Field, Seq<char>)>,
    f: Field,
    v1: Seq<char>,
    v2: Seq<char>,
)
    ensures
        spec_fields_insert(spec_fields_insert(fields, f, v1), f, v2) == spec_fields_insert(
            fields,
            f,
            v2,
        ),
    decreases fields.len(),
{
    if fields.len() == 0 {
        assert(spec_fields_insert(spec_fields_insert(fields, f, v1), f, v2)
            =~= spec_fields_insert(fields, f, v2));
    } else if spec_field_rank(fields[0].0) < spec_field_rank(f) {
        let once = spec_fields_insert(fields, f, v1);
        assert(once == seq![fields[0]] + spec_fields_insert(fields.drop_first(), f, v1));
        assert(once[0] == fields[0]);
        assert(once.drop_first() =~= spec_fields_insert(fields.drop_first(), f, v1));
        lemma_duplicate_field_last_wins(fields.drop_first(), f, v1, v2);
        assert(spec_fields_insert(once, f, v2) =~= seq![fields[0]] + spec_fields_insert(
            fields.drop_first(),
            f,
            v2,
        ));
    } else if fields[0].0 == f {
        let once = spec_fields_insert(fields, f, v1);
        assert(once == seq![(f, v1)] + fields.drop_first());
        assert(once[0] == (f, v1));
        assert(once.drop_first() =~= fields.drop_first());
        assert(spec_fields_insert(once, f, v2) =~= seq![(f, v2)] + fields.drop_first());
    } else {
        let once = spec_fields_insert(fields, f, v1);
        assert(once == seq![(f, v1)] + fields);
        assert(once[0] == (f, v1));
        assert(once.drop_first() =~= fields);
        assert(spec_fields_insert(once, f, v2) =~= seq![(f, v2)] + fields);
    }
}

proof fn lemma_fields_get_prepend(x: (Field, Seq<char>), fields: Seq<(Field, Seq<char>)>, f: Field)
    ensures
        spec_fields_get(seq![x] + fields, f) == (if spec_fields_get(fields, f) is Some {
            spec_fields_get(fields, f)
        } else if x.0 == f {
            Some(x.1)
        } else {
            None
        }),
    decreases fields.len(),
{
    let joined = seq![x] + fields;
    if fields.len() == 0 {
        assert(joined.last() == x);
        assert(joined.drop_last() =~= Seq::<(Field, Seq<char>)>::empty());
    } else {
        assert(joined.last() == fields.last());
        assert(joined.drop_last() =~= seq![x] + fields.drop_last());
        lemma_fields_get_prepend(x, fields.drop_last(), f);
    }
}

proof fn lemma_fields_get_absent(fields: Seq<(Field, Seq<char>)>, f: Field)
    requires
        forall|i: int| 0 <= i < fields.len() ==> (#[trigger] fields[i].0) != f,
    ensures
        spec_fields_get(fields, f) is None,
    decreases fields.len(),
{
    if fields.len() > 0 {
        assert(forall|i: int|
            0 <= i < fields.drop_last().len() ==> fields.drop_last()[i] == fields[i]);
        lemma_fields_get_absent(fields.drop_last(), f);
    }
}

/// What a section's map answers after an insertion: the inserted field
/// reads back exactly the inserted value, and every other field reads what
/// it read before.
pub proof fn lemma_fields_insert_get(fields: Seq<(Field, Seq<char>)>, f: Field, v: Seq<char>)
    requires
        spec_fields_sorted(fields),
    ensures
        spec_fields_get(spec_fields_insert(fields, f, v), f) == Some(v),
        forall|g: Field|
            g != f ==> spec_fields_get(spec_fields_insert(fields, f, v), g) == spec_fields_get(
                fields,
                g,
            ),
    decreases fields.len(),
{
    crate::fields::lemma_field_rank_inverse();
    let r = spec_fields_insert(fields, f, v);
    if fields.len() == 0 {
        assert(r =~= seq![(f, v)]);
        assert(r.last() == (f, v));
        assert(r.drop_last() =~= Seq::<(Field, Seq<char>)>::empty());
        assert forall|g: Field| g != f implies spec_fields_get(r, g) == spec_fields_get(
            fields,
            g,
        ) by {
            assert(spec_fields_get(r.drop_last(), g) is None);
            assert(spec_fields_get(r, g) is None);
        }
    } else if spec_field_rank(fields[0].0) < spec_field_rank(f) {
        let rest = fields.drop_first();
        assert(spec_fields_sorted(rest)) by {
            assert(forall|i: int, j: int|
                0 <= i < j < rest.len() ==> rest[i] == fields[i + 1] && rest[j] == fields[j + 1]);
        }
        lemma_fields_insert_get(rest, f, v);
        assert(r == seq![fields[0]] + spec_fields_insert(rest, f, v));
        lemma_fields_get_prepend(fields[0], spec_fields_insert(rest, f, v), f);
        assert(fields =~= seq![fields[0]] + rest);
        assert forall|g: Field| g != f implies spec_fields_get(r, g) == spec_fields_get(
            fields,
            g,
        ) by {
            lemma_fields_get_prepend(fields[0], spec_fields_insert(rest, f, v), g);
            lemma_fields_get_prepend(fields[0], rest, g);
        }
    } else if fields[0].0 == f {
        let rest = fields.drop_first();
        assert(r == seq![(f, v)] + rest);
        assert(forall|i: int| 0 <= i < rest.len() ==> rest[i] == fields[i + 1]);
        assert(forall|i: int| 0 <= i < rest.len() ==> (#[trigger] rest[i].0) != f) by {
            assert(forall|i: int|
                0 <= i < rest.len() ==> spec_field_rank(fields[0].0) < spec_field_rank(
                    #[trigger] rest[i].0,
                ));
        }
        lemma_fields_get_absent(rest, f);
        lemma_fields_get_prepend((f, v), rest, f);
        assert(fields =~= seq![fields[0]] + rest);
        assert forall|g: Field| g != f implies spec_fields_get(r, g) == spec_fields_get(
            fields,
            g,
        ) by {
            lemma_fields_get_prepend((f, v), rest, g);
            lemma_fields_get_prepend(fields[0], rest, g);
        }
    } else {
        assert(spec_field_rank(f) < spec_field_rank(fields[0].0));
        assert(r == seq![(f, v)] + fields);
        assert(forall|i: int| 0 <= i < fields.len() ==> (#[trigger] fields[i].0) != f) by {
            assert(forall|i: int|
                1 <= i < fields.len() ==> spec_field_rank(fields[0].0) <= spec_field_rank(
                    #[trigger] fields[i].0,
                ));
        }
        lemma_fields_get_absent(fields, f);
        lemma_fields_get_prepend((f, v), fields, f);
        assert forall|g: Field| g != f implies spec_fields_get(r, g) == spec_fields_get(
            fields,
            g,
        ) by {
            lemma_fields_get_prepend((f, v), fields, g);
        }
    }
}

/// Insertion keeps a field map canonically ordered, and every entry it
/// leaves is either the inserted pair or one the map already had.
pub proof fn lemma_fields_insert_props(fields: Seq<(Field, Seq<char>)>, f: Field, v: Seq<char>)
    requires
        spec_fields_sorted(fields),
    ensures
        spec_fields_sorted(spec_fields_insert(fields, f, v)),
        forall|j: int|
            0 <= j < spec_fields_insert(fields, f, v).len() ==> (#[trigger] spec_fields_insert(
                fields,
                f,
                v,
            )[j] == (f, v) || fields.contains(spec_fields_insert(fields, f, v)[j])),
    decreases fields.len(),
{
    crate::fields::lemma_field_rank_inverse();
    let r = spec_fields_insert(fields, f, v);
    if fields.len() == 0 {
        assert(r =~= seq![(f, v)]);
    } else if spec_field_rank(fields[0].0) < spec_field_rank(f) {
        let rest = fields.drop_first();
        assert(spec_fields_sorted(rest)) by {
            assert(forall|i: int, j: int|
                0 <= i < j < rest.len() ==> rest[i] == fields[i + 1] && rest[j] == fields[j + 1]);
        }
        lemma_fields_insert_props(rest, f, v);
        let rr = spec_fields_insert(rest, f, v);
        assert(r == seq![fields[0]] + rr);
        assert(r[0] == fields[0]);
        assert(forall|j: int| 1 <= j < r.len() ==> r[j] == rr[j - 1]);
        assert forall|j: int| 0 <= j < r.len() implies (r[j] == (f, v) || fields.contains(
            r[j],
        )) by {
            if j == 0 {
                assert(fields[0] == r[0]);
                assert(fields.contains(r[j]));
            } else {
                if rr[j - 1] == (f, v) {
                } else {
                    let idx = choose|idx: int| 0 <= idx < rest.len() && rest[idx] == rr[j - 1];
                    assert(fields[idx + 1] == rr[j - 1]);
                    assert(fields.contains(r[j]));
                }
            }
        }
        assert forall|i: int, j: int| 0 <= i < j < r.len() implies spec_field_rank(
            #[trigger] r[i].0,
        ) < spec_field_rank(#[trigger] r[j].0) by {
            if i == 0 {
                if r[j] == (f, v) {
                } else {
                    let idx = choose|idx: int| 0 <= idx < rest.len() && rest[idx] == r[j];
                    assert(fields[idx + 1] == r[j]);
                }
            }
        }
    } else if fields[0].0 == f {
        let rest = fields.drop_first();
        assert(r == seq![(f, v)] + rest);
        assert(r[0] == (f, v));
        assert(forall|j: int| 1 <= j < r.len() ==> r[j] == rest[j - 1] && rest[j - 1] == fields[j]);
        assert forall|i: int, j: int| 0 <= i < j < r.len() implies spec_field_rank(
            #[trigger] r[i].0,
        ) < spec_field_rank(#[trigger] r[j].0) by {
            if i == 0 {
                assert(r[j] == fields[j]);
                assert(spec_field_rank(fields[0].0) < spec_field_rank(fields[j].0));
            }
        }
        assert(forall|j: int| 1 <= j < r.len() ==> fields.contains(#[trigger] r[j]));
    } else {
        assert(spec_field_rank(f) != spec_field_rank(fields[0].0));
        assert(spec_field_rank(f) < spec_field_rank(fields[0].0));
        assert(r == seq![(f, v)] + fields);
        assert(r[0] == (f, v));
        assert(forall|j: int| 1 <= j < r.len() ==> r[j] == fields[j - 1]);
        assert forall|i: int, j: int| 0 <= i < j < r.len() implies spec_field_rank(
            #[trigger] r[i].0,
        ) < spec_field_rank(#[trigger] r[j].0) by {
            if i == 0 && j > 1 {
                assert(spec_field_rank(fields[0].0) <= spec_field_rank(fields[j - 1].0));
            }
        }
        assert(forall|j: int| 1 <= j < r.len() ==> fields.contains(#[trigger] r[j]));
    }
}

/// First index holding whitespace, or the length if there is none.
pub open spec fn spec_find_space(s: Seq<char>) -> int
    decreases s.len(),
{
    if s.len() == 0 {
        0
    } else if spec_is_space(s[0]) {
        0
    } else {
        1 + spec_find_space(s.drop_first())
    }
}

pub proof fn lemma_find_space_bounds(s: Seq<char>)
    ensures
        0 <= spec_find_space(s) <= s.len(),
    decreases s.len(),
{
    if s.len() > 0 && !spec_is_space(s[0]) {
        lemma_find_space_bounds(s.drop_first());
    }
}

fn find_space(s: &str) -> (r: usize)
    ensures
        r == spec_find_space(s@),
        r <= s@.len(),
{
    let n = s.unicode_len();
    let mut i: usize = 0;
    assert(s@.skip(0) =~= s@);
    while i < n && !is_space(s.get_char(i))
        invariant
            n == s@.len(),
            i <= n,
            spec_find_space(s@) == i + spec_find_space(s@.skip(i as int)),
        decreases n - i,
    {
        assert(s@.skip(i as int)[0] == s@[i as int]);
        assert(s@.skip(i as int).drop_first() =~= s@.skip(i + 1));
        i = i + 1;
    }
    proof {
        if i < n {
            assert(s@.skip(i as int)[0] == s@[i as int]);
        }
        assert(spec_find_space(s@.skip(i as int)) == 0);
    }
    i
}

/// Splitting a text into its lines: a line break ends the line being
/// gathered, and the text's end always yields one final (possibly empty)
/// line.
pub open spec fn spec_lines_acc(s: Seq<char>, cur: Seq<char>) -> Seq<Seq<char>>
    decreases s.len(),
{
    if s.len() == 0 {
        seq![cur]
    } else if s[0] == '\n' {
        seq![cur] + spec_lines_acc(s.drop_first(), Seq::empty())
    } else {
        spec_lines_acc(s.drop_first(), cur.push(s[0]))
    }
}

pub open spec fn spec_lines(s: Seq<char>) -> Seq<Seq<char>> {
    spec_lines_acc(s, Seq::empty())
}

pub open spec fn spec_lines_of(v: Seq<String>) -> Seq<Seq<char>> {
    v.map_values(|x: String| x@)
}

fn split_lines(s: &str) -> (r: Vec<String>)
    ensures
        spec_lines_of(r@) == spec_lines(s@),
{
    let n = s.unicode_len();
    let mut out: Vec<String> = Vec::new();
    let mut start: usize = 0;
    let mut i: usize = 0;
    assert(s@.skip(0) =~= s@);
    assert(s@.subrange(0, 0) =~= Seq::<char>::empty());
    while i < n
        invariant
            n == s@.len(),
            start <= i <= n,
            spec_lines(s@) == spec_lines_of(out@) + spec_lines_acc(
                s@.skip(i as int),
                s@.subrange(start as int, i as int),
            ),
        decreases n - i,
    {
        let c = s.get_char(i);
        assert(s@.skip(i as int)[0] == s@[i as int]);
        assert(s@.skip(i as int).drop_first() =~= s@.skip(i + 1));
        if c == '\n' {
            let line = s.substring_char(start, i);
            assert(line@ =~= s@.subrange(start as int, i as int));
            let line_string = line.to_owned();
            proof {
                lemma_lines_of_push(out@, line_string);
            }
            out.push(line_string);
            start = i + 1;
            assert(s@.subrange(start as int, start as int) =~= Seq::<char>::empty());
        } else {
            assert(s@.subrange(start as int, i as int).push(s@[i as int]) =~= s@.subrange(
                start as int,
                i + 1,
            ));
        }
        i = i + 1;
    }
    let last = s.substring_char(start, n);
    assert(last@ =~= s@.subrange(start as int, n as int));
    let last_string = last.to_owned();
    proof {
        lemma_lines_of_push(out@, last_string);
    }
    out.push(last_string);
    assert(spec_lines_of(out@) =~= spec_lines(s@));
    out
}

/// The image of the current accumulator.
pub open spec fn spec_cur_of(cur: Option<SshConfig>) -> Option<SectionModel> {
    match cur {
        Some(c) => Some(c@),
        None => None,
    }
}

/// The image of a list of sections.
pub open spec fn spec_sections_of(v: Seq<SshConfig>) -> Seq<SectionModel> {
    v.map_values(|c: SshConfig| c@)
}

/// The effect of one input line on the parser: the new accumulator and the
/// sections emitted (at most one).
pub open spec fn spec_step(cur: Option<SectionModel>, line: Seq<char>) -> (
    Option<SectionModel>,
    Seq<SectionModel>,
) {
    let t = spec_trim(line);
    if t.len() == 0 || t[0] == '#' {
        (cur, Seq::empty())
    } else {
        let k = spec_find_space(t);
        if k == t.len() {
            // the line does not split into a key and a value
            (cur, Seq::empty())
        } else {
            let key = t.take(k);
            let value = spec_trim(t.skip(k));
            match spec_lookup(key) {
                Option::None => (cur, Seq::empty()),
                Option::Some(f) => {
                    if f == Field::Host {
                        match cur {
                            Option::Some(m) => {
                                if m.fields.len() > 0 {
                                    (
                                        Some(SectionModel { host: value, fields: Seq::empty() }),
                                        seq![m],
                                    )
                                } else {
                                    (Some(SectionModel { host: value, fields: m.fields }), Seq::empty())
                                }
                            },
                            Option::None => (
                                Some(SectionModel { host: value, fields: Seq::empty() }),
                                Seq::empty(),
                            ),
                        }
                    } else {
                        match cur {
                            Option::Some(m) => (
                                Some(
                                    SectionModel {
                                        host: m.host,
                                        fields: spec_fields_insert(m.fields, f, value),
                                    },
                                ),
                                Seq::empty(),
                            ),
                            Option::None => (None, Seq::empty()),
                        }
                    }
                },
            }
        }
    }
}

/// What the end of the input contributes: a non-empty accumulator is
/// finalised, an untitled or empty one is dropped.
pub open spec fn spec_flush(cur: Option<SectionModel>) -> Seq<SectionModel> {
    match cur {
        Some(m) => {
            if m.fields.len() > 0 {
                seq![m]
            } else {
                Seq::empty()
            }
        },
        None => Seq::empty(),
    }
}

pub open spec fn spec_parse_lines(lines: Seq<Seq<char>>, cur: Option<SectionModel>) -> Seq<
    SectionModel,
>
    decreases lines.len(),
{
    if lines.len() == 0 {
        spec_flush(cur)
    } else {
        let r = spec_step(cur, lines[0]);
        r.1 + spec_parse_lines(lines.drop_first(), r.0)
    }
}

/// The whole parse: the input's lines, run through the step function with
/// no section open at the start.
pub open spec fn spec_parse(text: Seq<char>) -> Seq<SectionModel> {
    spec_parse_lines(spec_lines(text), None)
}

impl SshConfig {
    /// Parse a whole configuration text into its host sections, in order of
    /// appearance.
    pub fn parse(input: &str) -> (r: Vec<SshConfig>)
        ensures
            spec_sections_of(r@) == spec_parse(input@),
    {
        let lines = split_lines(input);
        let n = lines.len();
        let mut out: Vec<SshConfig> = Vec::new();
        let mut cur: Option<SshConfig> = None;
        let mut i: usize = 0;
        assert(spec_lines_of(lines@).skip(0) =~= spec_lines_of(lines@));
        while i < n
            invariant
                n == lines@.len(),
                spec_lines_of(lines@) == spec_lines(input@),
                i <= n,
                spec_parse(input@) == spec_sections_of(out@) + spec_parse_lines(
                    spec_lines_of(lines@).skip(i as int),
                    spec_cur_of(cur),
                ),
            decreases n - i,
        {
            let ghost lines_model = spec_lines_of(lines@);
            let ghost step = spec_step(spec_cur_of(cur), lines_model[i as int]);
            proof {
                assert(lines_model.skip(i as int)[0] == lines_model[i as int]);
                assert(lines_model.skip(i as int).drop_first() =~= lines_model.skip(i + 1));
            }
            let t = trim(lines[i].as_str());
            let tn = t.unicode_len();
            if tn == 0 || t.get_char(0) == '#' {
                // blank line or comment: no effect
            } else {
                let k = find_space(t);
                if k == tn {
                    // malformed line: skipped
                } else {
                    let key = t.substring_char(0, k);
                    assert(key@ =~= t@.take(k as int));
                    let after = t.substring_char(k, tn);
                    assert(after@ =~= t@.skip(k as int));
                    let value = trim(after);
                    match lookup(key) {
                        Some(f) => {
                            if f == Field::Host {
                                let taken = cur;
                                cur = None;
                                match taken {
                                    Some(c) => {
                                        if c.fields.len() > 0 {
                                            proof {
                                                lemma_sections_of_push(out@, c);
                                            }
                                            out.push(c);
                                            let empty_fields: Vec<(Field, String)> = Vec::new();
                                            assert(spec_fields_of(empty_fields@) =~= Seq::<
                                                (Field, Seq<char>),
                                            >::empty());
                                            cur = Some(
                                                SshConfig {
                                                    host: value.to_owned(),
                                                    fields: empty_fields,
                                                },
                                            );
                                        } else {
                                            let SshConfig { host: _, fields } = c;
                                            cur = Some(SshConfig { host: value.to_owned(), fields });
                                        }
                                    },
                                    None => {
                                        let empty_fields: Vec<(Field, String)> = Vec::new();
                                        assert(spec_fields_of(empty_fields@) =~= Seq::<
                                            (Field, Seq<char>),
                                        >::empty());
                                        cur = Some(
                                            SshConfig { host: value.to_owned(), fields: empty_fields },
                                        );
                                    },
                                }
                            } else {
                                let taken = cur;
                                cur = None;
                                match taken {
                                    Some(c) => {
                                        let SshConfig { host, fields } = c;
                                        let fields2 = fields_insert(fields, f, value.to_owned());
                                        cur = Some(SshConfig { host, fields: fields2 });
                                    },
                                    None => {
                                        // a field outside any host section: discarded
                                    },
                                }
                            }
                        },
                        None => {
                            // unrecognised key: skipped
                        },
                    }
                }
            }
            proof {
                assert(spec_cur_of(cur) == step.0);
                assert(spec_sections_of(out@) + spec_parse_lines(
                    spec_lines_of(lines@).skip(i + 1),
                    spec_cur_of(cur),
                ) =~= spec_parse(input@));
            }
            i = i + 1;
        }
        assert(spec_lines_of(lines@).skip(n as int) =~= Seq::<Seq<char>>::empty());
        match cur {
            Some(c) => {
                if c.fields.len() > 0 {
                    proof {
                        lemma_sections_of_push(out@, c);
                    }
                    out.push(c);
                } else {
                }
            },
            None => {},
        }
        assert(spec_sections_of(out@) =~= spec_parse(input@));
        out
    }
}

/// Whether a line, once trimmed and split, declares a new host section.
pub open spec fn spec_is_host_decl(line: Seq<char>) -> bool {
    let t = spec_trim(line);
    &&& t.len() > 0
    &&& t[0] != '#'
    &&& spec_find_space(t) < t.len()
    &&& spec_lookup(t.take(spec_find_space(t))) == Some(Field::Host)
}

proof fn lemma_no_host_lines(lines: Seq<Seq<char>>)
    requires
        forall|i: int| 0 <= i < lines.len() ==> !spec_is_host_decl(#[trigger] lines[i]),
    ensures
        spec_parse_lines(lines, None) == Seq::<SectionModel>::empty(),
    decreases lines.len(),
{
    if lines.len() > 0 {
        let st = spec_step(None, lines[0]);
        assert(!spec_is_host_decl(lines[0]));
        assert(st.0 is None && st.1.len() == 0) by {
            let t = spec_trim(lines[0]);
            if t.len() > 0 && t[0] != '#' {
                let k = spec_find_space(t);
                lemma_find_space_bounds(t);
                if k != t.len() {
                    match spec_lookup(t.take(k)) {
                        Some(f) => {
                            assert(f != Field::Host);
                        },
                        None => {},
                    }
                }
            }
        }
        assert(st.1 =~= Seq::<SectionModel>::empty());
        assert(forall|i: int|
            0 <= i < lines.drop_first().len() ==> lines.drop_first()[i] == lines[i + 1]);
        lemma_no_host_lines(lines.drop_first());
        assert(spec_parse_lines(lines, None) =~= Seq::<SectionModel>::empty());
    }
}

/// Given no host declaration anywhere in the input, the parser yields no
/// sections, whatever other lines appear: fields outside any host section
/// are discarded.
pub proof fn lemma_no_host_no_sections(text: Seq<char>)
    requires
        forall|i: int|
            0 <= i < spec_lines(text).len() ==> !spec_is_host_decl(#[trigger] spec_lines(text)[i]),
    ensures
        spec_parse(text) == Seq::<SectionModel>::empty(),
{
    lemma_no_host_lines(spec_lines(text));
}

proof fn lemma_parse_lines_sorted(lines: Seq<Seq<char>>, cur: Option<SectionModel>)
    requires
        match cur {
            Some(m) => spec_fields_sorted(m.fields),
            None => true,
        },
    ensures
        forall|i: int|
            0 <= i < spec_parse_lines(lines, cur).len() ==> spec_fields_sorted(
                #[trigger] spec_parse_lines(lines, cur)[i].fields,
            ),
    decreases lines.len(),
{
    if lines.len() == 0 {
    } else {
        let st = spec_step(cur, lines[0]);
        assert(match st.0 {
            Some(m2) => spec_fields_sorted(m2.fields),
            None => true,
        }) by {
            let t = spec_trim(lines[0]);
            if t.len() > 0 && t[0] != '#' {
                let k = spec_find_space(t);
                if k != t.len() {
                    match spec_lookup(t.take(k)) {
                        Some(f) => {
                            if f != Field::Host {
                                match cur {
                                    Some(m) => {
                                        lemma_fields_insert_props(m.fields, f, spec_trim(t.skip(k)));
                                    },
                                    None => {},
                                }
                            }
                        },
                        None => {},
                    }
                }
            }
        }
        lemma_parse_lines_sorted(lines.drop_first(), st.0);
        assert(spec_parse_lines(lines, cur) == st.1 + spec_parse_lines(lines.drop_first(), st.0));
        assert forall|i: int| 0 <= i < spec_parse_lines(lines, cur).len() implies spec_fields_sorted(
            #[trigger] spec_parse_lines(lines, cur)[i].fields,
        ) by {
            if i < st.1.len() {
                assert(spec_parse_lines(lines, cur)[i] == st.1[i]);
            } else {
                assert(spec_parse_lines(lines, cur)[i] == spec_parse_lines(
                    lines.drop_first(),
                    st.0,
                )[i - st.1.len()]);
            }
        }
    }
}

/// Every section the parser yields keeps its field map canonically
/// ordered.
pub proof fn lemma_parse_sections_sorted(text: Seq<char>)
    ensures
        forall|i: int|
            0 <= i < spec_parse(text).len() ==> spec_fields_sorted(
                #[trigger] spec_parse(text)[i].fields,
            ),
{
    lemma_parse_lines_sorted(spec_lines(text), None);
}

} // verus!
