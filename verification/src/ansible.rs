//! The inventory mapper: each parsed host section is projected onto the
//! named connection parameters of an inventory host, every remaining field
//! is folded into one `-o Key=Value` argument string, and the hosts are
//! gathered, canonically ordered, under a single named group together with
//! the caller's shared variables.

use vstd::prelude::*;

use crate::fields::{Field, spec_field_name, field_name};
use crate::ssh_config::{SshConfig, SectionModel, spec_fields_of, spec_fields_get, spec_sections_of};
use crate::text::{spec_text_lt, str_lt, str_eq, is_digit};
use crate::variables::{
    ValueType, ValueModel, spec_digits_value, spec_all_digits, lemma_digits_value_prefix,
};

verus! {

/// A value for an `Option<String>`, over views.
pub open spec fn spec_opt_str(o: Option<String>) -> Option<Seq<char>> {
    match o {
        Some(s) => Some(s@),
        None => None,
    }
}

/// The connection port spelled by a field value: a non-empty run of digits
/// whose value fits in sixteen bits.
pub open spec fn spec_port_literal(s: Seq<char>) -> Option<u16> {
    if s.len() > 0 && spec_all_digits(s) && spec_digits_value(s) <= 0xffff {
        Some(spec_digits_value(s) as u16)
    } else {
        None
    }
}

fn parse_port(s: &str) -> (r: Option<u16>)
    ensures
        r == spec_port_literal(s@),
{
    let n = s.unicode_len();
    if n == 0 {
        return None;
    }
    let mut acc: u32 = 0;
    let mut i: usize = 0;
    assert(s@.take(0) =~= Seq::<char>::empty());
    while i < n
        invariant
            n == s@.len(),
            i <= n,
            forall|k: int| 0 <= k < i ==> crate::text::spec_is_digit(#[trigger] s@[k]),
            acc == spec_digits_value(s@.take(i as int)),
            acc <= 0xffff,
        decreases n - i,
    {
        let c = s.get_char(i);
        if !is_digit(c) {
            return None;
        }
        let dv: u32 = (c as u32) - 48;
        assert(dv == crate::text::spec_digit_value(c)) by {
            assert('0' <= c && c <= '9');
        }
        let new_acc: u32 = acc * 10 + dv;
        assert(s@.take(i + 1).drop_last() =~= s@.take(i as int));
        assert(s@.take(i + 1).last() == s@[i as int]);
        assert(new_acc == spec_digits_value(s@.take(i + 1)));
        if new_acc > 0xffff {
            proof {
                if spec_all_digits(s@) {
                    lemma_digits_value_prefix(s@, i + 1);
                }
            }
            return None;
        }
        acc = new_acc;
        i = i + 1;
    }
    assert(s@.take(n as int) =~= s@);
    Some(acc as u16)
}

/// Whether a field is claimed by one of the named inventory parameters.
pub open spec fn spec_named_field(f: Field) -> bool {
    f == Field::HostName || f == Field::Port || f == Field::User || f == Field::IdentityFile
        || f == Field::ProxyCommand
}

/// The fields left over once the named parameters took theirs, in their
/// canonical order.
pub open spec fn spec_extra_fields(fields: Seq<(Field, Seq<char>)>) -> Seq<(Field, Seq<char>)>
    decreases fields.len(),
{
    if fields.len() == 0 {
        Seq::empty()
    } else if spec_named_field(fields.last().0) {
        spec_extra_fields(fields.drop_last())
    } else {
        spec_extra_fields(fields.drop_last()).push(fields.last())
    }
}

/// Fields not claimed by a named parameter, and only those, fold into the
/// extra arguments: the leftover list holds no named field, every entry it
/// holds comes from the map, and every unnamed entry of the map is in it.
pub proof fn lemma_extra_fields_exact(fields: Seq<(Field, Seq<char>)>)
    ensures
        forall|j: int|
            0 <= j < spec_extra_fields(fields).len() ==> !spec_named_field(
                #[trigger] spec_extra_fields(fields)[j].0,
            ),
        forall|j: int|
            0 <= j < spec_extra_fields(fields).len() ==> fields.contains(
                #[trigger] spec_extra_fields(fields)[j],
            ),
        forall|i: int|
            0 <= i < fields.len() && !spec_named_field(#[trigger] fields[i].0)
                ==> spec_extra_fields(fields).contains(fields[i]),
    decreases fields.len(),
{
    if fields.len() > 0 {
        let prior = fields.drop_last();
        lemma_extra_fields_exact(prior);
        let r = spec_extra_fields(fields);
        let rr = spec_extra_fields(prior);
        assert(forall|i: int| 0 <= i < prior.len() ==> prior[i] == fields[i]);
        if spec_named_field(fields.last().0) {
            assert(r == rr);
            assert forall|j: int| 0 <= j < r.len() implies fields.contains(#[trigger] r[j]) by {
                let idx = choose|idx: int| 0 <= idx < prior.len() && prior[idx] == r[j];
                assert(fields[idx] == r[j]);
            }
            assert forall|i: int|
                0 <= i < fields.len() && !spec_named_field(#[trigger] fields[i].0) implies r.contains(
                fields[i],
            ) by {
                assert(i < prior.len());
                assert(prior.contains(prior[i]));
            }
        } else {
            assert(r == rr.push(fields.last()));
            assert(forall|j: int| 0 <= j < rr.len() ==> r[j] == rr[j]);
            assert(r[rr.len() as int] == fields.last());
            assert forall|j: int| 0 <= j < r.len() implies fields.contains(#[trigger] r[j]) by {
                if j < rr.len() {
                    let idx = choose|idx: int| 0 <= idx < prior.len() && prior[idx] == rr[j];
                    assert(fields[idx] == r[j]);
                } else {
                    assert(r[j] == fields[fields.len() - 1]);
                }
            }
            assert forall|i: int|
                0 <= i < fields.len() && !spec_named_field(#[trigger] fields[i].0) implies r.contains(
                fields[i],
            ) by {
                if i < prior.len() {
                    assert(rr.contains(prior[i]));
                    let idx = choose|idx: int| 0 <= idx < rr.len() && rr[idx] == fields[i];
                    assert(r[idx] == fields[i]);
                } else {
                    assert(r[rr.len() as int] == fields[i]);
                }
            }
        }
    }
}

/// The leftover list keeps the map's canonical order, so the folded string
/// is deterministic.
pub proof fn lemma_extra_fields_sorted(fields: Seq<(Field, Seq<char>)>)
    requires
        crate::ssh_config::spec_fields_sorted(fields),
    ensures
        crate::ssh_config::spec_fields_sorted(spec_extra_fields(fields)),
    decreases fields.len(),
{
    if fields.len() > 0 {
        let prior = fields.drop_last();
        assert(forall|i: int| 0 <= i < prior.len() ==> prior[i] == fields[i]);
        lemma_extra_fields_sorted(prior);
        lemma_extra_fields_exact(prior);
        let rr = spec_extra_fields(prior);
        if !spec_named_field(fields.last().0) {
            let r = rr.push(fields.last());
            assert forall|i: int, j: int|
                0 <= i < j < r.len() implies crate::fields::spec_field_rank(#[trigger] r[i].0)
                < crate::fields::spec_field_rank(#[trigger] r[j].0) by {
                if j == rr.len() {
                    let idx = choose|idx: int| 0 <= idx < prior.len() && prior[idx] == rr[i];
                    assert(fields[idx] == rr[i]);
                    assert(crate::fields::spec_field_rank(fields[idx].0)
                        < crate::fields::spec_field_rank(fields.last().0));
                }
            }
        }
    }
}
pub open spec fn spec_arg_token(f: Field, v: Seq<char>) -> Seq<char> {
    "-o "@ + spec_field_name(f) + "="@ + v
}

/// The remaining tokens of the folded string, each led by a single space.
pub open spec fn spec_join_rest(entries: Seq<(Field, Seq<char>)>) -> Seq<char>
    decreases entries.len(),
{
    if entries.len() == 0 {
        Seq::empty()
    } else {
        " "@ + spec_arg_token(entries[0].0, entries[0].1) + spec_join_rest(entries.drop_first())
    }
}

/// The folded argument string: the tokens in order, joined by single
/// spaces.
pub open spec fn spec_join_args(entries: Seq<(Field, Seq<char>)>) -> Seq<char> {
    if entries.len() == 0 {
        Seq::empty()
    } else {
        spec_arg_token(entries[0].0, entries[0].1) + spec_join_rest(entries.drop_first())
    }
}

fn join_args(entries: &Vec<(Field, String)>) -> (r: String)
    ensures
        r@ == spec_join_args(spec_fields_of(entries@)),
{
    let ghost all = spec_fields_of(entries@);
    let n = entries.len();
    let mut r = String::new();
    let mut i: usize = 0;
    while i < n
        invariant
            n == entries@.len(),
            all == spec_fields_of(entries@),
            i <= n,
            i == 0 ==> r@ == Seq::<char>::empty(),
            i > 0 ==> r@ + spec_join_rest(all.skip(i as int)) == spec_join_args(all),
        decreases n - i,
    {
        let ghost before = r@;
        if i > 0 {
            r.append(" ");
        }
        r.append("-o ");
        r.append(field_name(entries[i].0));
        r.append("=");
        r.append(entries[i].1.as_str());
        proof {
            assert(all[i as int] == (entries@[i as int].0, entries@[i as int].1@));
            if i == 0 {
                assert(r@ =~= spec_arg_token(all[0].0, all[0].1));
                assert(all.skip(0) =~= all);
            } else {
                assert(r@ =~= before + (" "@ + spec_arg_token(all[i as int].0, all[i as int].1)));
                assert(all.skip(i as int)[0] == all[i as int]);
                assert(all.skip(i as int).drop_first() =~= all.skip(i + 1));
                assert(before + (" "@ + spec_arg_token(all[i as int].0, all[i as int].1))
                    + spec_join_rest(all.skip(i + 1)) =~= before + spec_join_rest(
                    all.skip(i as int),
                ));
            }
            assert(all.skip(i + 1).len() == 0 ==> spec_join_rest(all.skip(i + 1)) == Seq::<
                char,
            >::empty());
        }
        i = i + 1;
        assert(i > 0 ==> r@ + spec_join_rest(all.skip(i as int)) =~= spec_join_args(all));
    }
    proof {
        if n > 0 {
            assert(all.skip(n as int).len() == 0);
            assert(r@ + spec_join_rest(all.skip(n as int)) =~= r@);
        }
    }
    r
}

/// The named inventory parameters of one host, each present only when the
/// corresponding field was, and the folded string of everything left over.
#[derive(Clone, Debug, PartialEq)]
pub struct HostParams {
    pub ansible_host: Option<String>,
    pub ansible_port: Option<u16>,
    pub ansible_user: Option<String>,
    pub ansible_ssh_private_key_file: Option<String>,
    pub ansible_ssh_common_args: Option<String>,
    pub ansible_ssh_extra_args: Option<String>,
}

/// The mathematical image of a host's parameters.
pub ghost struct HostParamsModel {
    pub ansible_host: Option<Seq<char>>,
    pub ansible_port: Option<u16>,
    pub ansible_user: Option<Seq<char>>,
    pub ansible_ssh_private_key_file: Option<Seq<char>>,
    pub ansible_ssh_common_args: Option<Seq<char>>,
    pub ansible_ssh_extra_args: Option<Seq<char>>,
}

impl View for HostParams {
    type V = HostParamsModel;

    open spec fn view(&self) -> HostParamsModel {
        HostParamsModel {
            ansible_host: spec_opt_str(self.ansible_host),
            ansible_port: self.ansible_port,
            ansible_user: spec_opt_str(self.ansible_user),
            ansible_ssh_private_key_file: spec_opt_str(self.ansible_ssh_private_key_file),
            ansible_ssh_common_args: spec_opt_str(self.ansible_ssh_common_args),
            ansible_ssh_extra_args: spec_opt_str(self.ansible_ssh_extra_args),
        }
    }
}

/// The mapping failure: the named field of the named host holds a value no
/// connection port can be read from.
#[derive(Clone, Debug, PartialEq)]
pub struct MappingError {
    pub host: String,
    pub field: Field,
    pub value: String,
}

pub ghost struct MappingErrorModel {
    pub host: Seq<char>,
    pub field: Field,
    pub value: Seq<char>,
}

impl View for MappingError {
    type V = MappingErrorModel;

    open spec fn view(&self) -> MappingErrorModel {
        MappingErrorModel { host: self.host@, field: self.field, value: self.value@ }
    }
}

/// Whether the section's port field, if any, spells a valid port.
pub open spec fn spec_port_ok(m: SectionModel) -> bool {
    match spec_fields_get(m.fields, Field::Port) {
        Some(p) => spec_port_literal(p) is Some,
        None => true,
    }
}

/// The parameters a section maps to, assuming its port field is valid.
pub open spec fn spec_host_params(m: SectionModel) -> HostParamsModel {
    let extras = spec_extra_fields(m.fields);
    HostParamsModel {
        ansible_host: spec_fields_get(m.fields, Field::HostName),
        ansible_port: match spec_fields_get(m.fields, Field::Port) {
            Some(p) => spec_port_literal(p),
            None => None,
        },
        ansible_user: spec_fields_get(m.fields, Field::User),
        ansible_ssh_private_key_file: spec_fields_get(m.fields, Field::IdentityFile),
        ansible_ssh_common_args: spec_fields_get(m.fields, Field::ProxyCommand),
        ansible_ssh_extra_args: if extras.len() == 0 {
            None
        } else {
            Some(spec_join_args(extras))
        },
    }
}

impl HostParams {
    /// Project one host section onto its inventory parameters.  The one
    /// fatal condition is a port field whose value is not a valid port;
    /// the error names the host, the field and the offending value.
    pub fn new(ssh_config: &SshConfig) -> (r: Result<HostParams, MappingError>)
        ensures
            match r {
                Ok(hp) => spec_port_ok(ssh_config@) && hp@ == spec_host_params(ssh_config@),
                Err(e) => {
                    &&& !spec_port_ok(ssh_config@)
                    &&& e@.host == ssh_config@.host
                    &&& e@.field == Field::Port
                    &&& Some(e@.value) == spec_fields_get(ssh_config@.fields, Field::Port)
                },
            },
    {
        let ghost all = ssh_config@.fields;
        let n = ssh_config.fields.len();
        let mut host: Option<String> = None;
        let mut port_value: Option<String> = None;
        let mut user: Option<String> = None;
        let mut key_file: Option<String> = None;
        let mut common_args: Option<String> = None;
        let mut extras: Vec<(Field, String)> = Vec::new();
        let mut i: usize = 0;
        assert(all.take(0) =~= Seq::<(Field, Seq<char>)>::empty());
        while i < n
            invariant
                n == ssh_config.fields@.len(),
                all == ssh_config@.fields,
                i <= n,
                spec_opt_str(host) == spec_fields_get(all.take(i as int), Field::HostName),
                spec_opt_str(port_value) == spec_fields_get(all.take(i as int), Field::Port),
                spec_opt_str(user) == spec_fields_get(all.take(i as int), Field::User),
                spec_opt_str(key_file) == spec_fields_get(all.take(i as int), Field::IdentityFile),
                spec_opt_str(common_args) == spec_fields_get(
                    all.take(i as int),
                    Field::ProxyCommand,
                ),
                spec_fields_of(extras@) == spec_extra_fields(all.take(i as int)),
            decreases n - i,
        {
            let f = ssh_config.fields[i].0;
            let v = ssh_config.fields[i].1.clone();
            proof {
                assert(all[i as int] == (ssh_config.fields@[i as int].0, ssh_config.fields@[
                    i as int
                ].1@));
                assert(all.take(i + 1).drop_last() =~= all.take(i as int));
                assert(all.take(i + 1).last() == all[i as int]);
            }
            if f == Field::HostName {
                host = Some(v);
            } else if f == Field::Port {
                port_value = Some(v);
            } else if f == Field::User {
                user = Some(v);
            } else if f == Field::IdentityFile {
                key_file = Some(v);
            } else if f == Field::ProxyCommand {
                common_args = Some(v);
            } else {
                let ghost prev = extras@;
                extras.push((f, v));
                assert(spec_fields_of(extras@) =~= spec_fields_of(prev).push(all[i as int]));
            }
            i = i + 1;
        }
        assert(all.take(n as int) =~= all);
        let port: Option<u16> = match port_value {
            Some(pv) => {
                match parse_port(pv.as_str()) {
                    Some(p) => Some(p),
                    None => {
                        return Err(
                            MappingError {
                                host: ssh_config.host.clone(),
                                field: Field::Port,
                                value: pv,
                            },
                        );
                    },
                }
            },
            None => None,
        };
        let extra_args: Option<String> = if extras.len() == 0 {
            None
        } else {
            Some(join_args(&extras))
        };
        Ok(
            HostParams {
                ansible_host: host,
                ansible_port: port,
                ansible_user: user,
                ansible_ssh_private_key_file: key_file,
                ansible_ssh_common_args: common_args,
                ansible_ssh_extra_args: extra_args,
            },
        )
    }
}

/// Name-keyed entries over views.
pub open spec fn spec_kv_of<V: View>(entries: Seq<(String, V)>) -> Seq<
    (Seq<char>, <V as View>::V),
> {
    entries.map_values(|p: (String, V)| (p.0@, p.1@))
}

/// Insertion into a name-keyed map kept in lexicographic order; an entry
/// already present under the same name is replaced — the last value wins.
pub open spec fn spec_sorted_insert<M>(
    entries: Seq<(Seq<char>, M)>,
    k: Seq<char>,
    v: M,
) -> Seq<(Seq<char>, M)>
    decreases entries.len(),
{
    if entries.len() == 0 {
        seq![(k, v)]
    } else if spec_text_lt(entries[0].0, k) {
        seq![entries[0]] + spec_sorted_insert(entries.drop_first(), k, v)
    } else if entries[0].0 == k {
        seq![(k, v)] + entries.drop_first()
    } else {
        seq![(k, v)] + entries
    }
}

/// Where the scan stops, the insertion splits the map: everything before
/// keeps its place, an entry under the same name is dropped, and the rest
/// follows the new entry.
proof fn lemma_sorted_insert_splits<M>(es: Seq<(Seq<char>, M)>, k: Seq<char>, v: M, i: int)
    requires
        0 <= i <= es.len(),
        forall|j: int| 0 <= j < i ==> spec_text_lt(#[trigger] es[j].0, k),
        i < es.len() ==> !spec_text_lt(es[i].0, k),
    ensures
        spec_sorted_insert(es, k, v) == es.take(i).push((k, v)) + es.subrange(
            ({
                if i < es.len() && es[i].0 == k {
                    i + 1
                } else {
                    i
                }
            }),
            es.len() as int,
        ),
    decreases es.len(),
{
    if es.len() == 0 {
        assert(spec_sorted_insert(es, k, v) =~= es.take(0).push((k, v)) + es.subrange(0, 0));
    } else if i == 0 {
        if es[0].0 == k {
            assert(spec_sorted_insert(es, k, v) =~= es.take(0).push((k, v)) + es.subrange(
                1,
                es.len() as int,
            ));
        } else {
            assert(spec_sorted_insert(es, k, v) =~= es.take(0).push((k, v)) + es.subrange(
                0,
                es.len() as int,
            ));
        }
    } else {
        let rest = es.drop_first();
        lemma_sorted_insert_splits(rest, k, v, i - 1);
        assert(rest.take(i - 1) =~= es.take(i).drop_first());
        if i < es.len() && es[i].0 == k {
            assert(rest.subrange(i, rest.len() as int) =~= es.subrange(i + 1, es.len() as int));
        } else {
            assert(rest.subrange(i - 1, rest.len() as int) =~= es.subrange(i, es.len() as int));
        }
        assert(spec_sorted_insert(es, k, v) =~= seq![es[0]] + spec_sorted_insert(rest, k, v));
        assert(seq![es[0]] + (rest.take(i - 1).push((k, v)) + rest.subrange(
            ({
                if i - 1 < rest.len() && rest[i - 1].0 == k {
                    i
                } else {
                    i - 1
                }
            }),
            rest.len() as int,
        )) =~= es.take(i).push((k, v)) + es.subrange(
            ({
                if i < es.len() && es[i].0 == k {
                    i + 1
                } else {
                    i
                }
            }),
            es.len() as int,
        ));
    }
}

fn sorted_insert<V: View>(entries: &mut Vec<(String, V)>, key: String, value: V)
    ensures
        spec_kv_of(final(entries)@) == spec_sorted_insert(
            spec_kv_of(old(entries)@),
            key@,
            value@,
        ),
{
    let ghost all = spec_kv_of(entries@);
    let n = entries.len();
    let mut i: usize = 0;
    while i < n && str_lt(entries[i].0.as_str(), key.as_str())
        invariant
            entries@ == old(entries)@,
            n == entries@.len(),
            all == spec_kv_of(entries@),
            i <= n,
            forall|j: int| 0 <= j < i ==> spec_text_lt(#[trigger] all[j].0, key@),
        decreases n - i,
    {
        assert(all[i as int] == (entries@[i as int].0@, entries@[i as int].1@));
        i = i + 1;
    }
    assert(i < n ==> all[i as int] == (entries@[i as int].0@, entries@[i as int].1@));
    let pos = i;
    let ghost q: int = if pos < all.len() && all[pos as int].0 == key@ {
        pos + 1
    } else {
        pos as int
    };
    proof {
        lemma_sorted_insert_splits(all, key@, value@, pos as int);
    }
    if i < n && str_eq(entries[i].0.as_str(), key.as_str()) {
        entries.remove(i);
        entries.insert(i, (key, value));
    } else {
        entries.insert(i, (key, value));
    }
    assert(spec_kv_of(entries@) =~= all.take(pos as int).push((key@, value@)) + all.subrange(
        q,
        all.len() as int,
    ));
}

proof fn lemma_sorted_insert_no_key<M>(es: Seq<(Seq<char>, M)>, k: Seq<char>, v: M, bad: Seq<char>)
    requires
        k != bad,
        forall|j: int| 0 <= j < es.len() ==> (#[trigger] es[j].0) != bad,
    ensures
        forall|j: int|
            0 <= j < spec_sorted_insert(es, k, v).len() ==> (#[trigger] spec_sorted_insert(
                es,
                k,
                v,
            )[j].0) != bad,
    decreases es.len(),
{
    let r = spec_sorted_insert(es, k, v);
    if es.len() == 0 {
        assert(r[0] == (k, v));
    } else if spec_text_lt(es[0].0, k) {
        let rest = es.drop_first();
        assert(forall|j: int| 0 <= j < rest.len() ==> rest[j] == es[j + 1]);
        lemma_sorted_insert_no_key(rest, k, v, bad);
        assert(r == seq![es[0]] + spec_sorted_insert(rest, k, v));
        assert(forall|j: int| 1 <= j < r.len() ==> r[j] == spec_sorted_insert(rest, k, v)[j - 1]);
    } else if es[0].0 == k {
        assert(r == seq![(k, v)] + es.drop_first());
        assert(forall|j: int| 1 <= j < r.len() ==> r[j] == es[j]);
    } else {
        assert(r == seq![(k, v)] + es);
        assert(forall|j: int| 1 <= j < r.len() ==> r[j] == es[j - 1]);
    }
}

/// When no section is declared under a given name, the built hosts mapping
/// holds no entry under that name either.
pub proof fn lemma_build_hosts_no_key(sections: Seq<SectionModel>, bad: Seq<char>)
    requires
        forall|i: int| 0 <= i < sections.len() ==> (#[trigger] sections[i].host) != bad,
    ensures
        forall|j: int|
            0 <= j < spec_build_hosts(sections).len() ==> (#[trigger] spec_build_hosts(
                sections,
            )[j].0) != bad,
    decreases sections.len(),
{
    if sections.len() > 0 {
        let prior = sections.drop_last();
        assert(forall|i: int| 0 <= i < prior.len() ==> prior[i] == sections[i]);
        lemma_build_hosts_no_key(prior, bad);
        assert(sections.last() == sections[sections.len() - 1]);
        lemma_sorted_insert_no_key(
            spec_build_hosts(prior),
            sections.last().host,
            spec_host_params(sections.last()),
            bad,
        );
    }
}

/// Strictly ascending keys: the canonical order of a name-keyed map.  In
/// particular every name occurs at most once.
pub open spec fn spec_keys_sorted<M>(es: Seq<(Seq<char>, M)>) -> bool {
    forall|i: int, j: int|
        0 <= i < j < es.len() ==> spec_text_lt(#[trigger] es[i].0, #[trigger] es[j].0)
}

proof fn lemma_sorted_insert_keeps_order<M>(es: Seq<(Seq<char>, M)>, k: Seq<char>, v: M)
    requires
        spec_keys_sorted(es),
    ensures
        spec_keys_sorted(spec_sorted_insert(es, k, v)),
        forall|j: int|
            0 <= j < spec_sorted_insert(es, k, v).len() ==> (#[trigger] spec_sorted_insert(
                es,
                k,
                v,
            )[j] == (k, v) || es.contains(spec_sorted_insert(es, k, v)[j])),
    decreases es.len(),
{
    let r = spec_sorted_insert(es, k, v);
    if es.len() == 0 {
        assert(r =~= seq![(k, v)]);
    } else if spec_text_lt(es[0].0, k) {
        let rest = es.drop_first();
        assert(spec_keys_sorted(rest)) by {
            assert(forall|i: int, j: int|
                0 <= i < j < rest.len() ==> rest[i] == es[i + 1] && rest[j] == es[j + 1]);
        }
        lemma_sorted_insert_keeps_order(rest, k, v);
        let rr = spec_sorted_insert(rest, k, v);
        assert(r == seq![es[0]] + rr);
        assert(r[0] == es[0]);
        assert(forall|j: int| 1 <= j < r.len() ==> r[j] == rr[j - 1]);
        assert forall|j: int| 0 <= j < r.len() implies (r[j] == (k, v) || es.contains(r[j])) by {
            if j == 0 {
                assert(es[0] == r[0]);
                assert(es.contains(r[j]));
            } else if rr[j - 1] != (k, v) {
                let idx = choose|idx: int| 0 <= idx < rest.len() && rest[idx] == rr[j - 1];
                assert(es[idx + 1] == rr[j - 1]);
                assert(es.contains(r[j]));
            }
        }
        assert forall|i: int, j: int| 0 <= i < j < r.len() implies spec_text_lt(
            #[trigger] r[i].0,
            #[trigger] r[j].0,
        ) by {
            if i == 0 {
                if r[j] == (k, v) {
                } else {
                    let idx = choose|idx: int| 0 <= idx < rest.len() && rest[idx] == r[j];
                    assert(es[idx + 1] == r[j]);
                }
            }
        }
    } else if es[0].0 == k {
        let rest = es.drop_first();
        assert(r == seq![(k, v)] + rest);
        assert(r[0] == (k, v));
        assert(forall|j: int| 1 <= j < r.len() ==> r[j] == rest[j - 1] && rest[j - 1] == es[j]);
        assert forall|i: int, j: int| 0 <= i < j < r.len() implies spec_text_lt(
            #[trigger] r[i].0,
            #[trigger] r[j].0,
        ) by {
            if i == 0 {
                assert(r[j] == es[j]);
                assert(spec_text_lt(es[0].0, es[j].0));
            }
        }
        assert(forall|j: int| 1 <= j < r.len() ==> es.contains(#[trigger] r[j]));
    } else {
        crate::text::lemma_text_lt_connex(es[0].0, k);
        assert(spec_text_lt(k, es[0].0));
        assert(r == seq![(k, v)] + es);
        assert(r[0] == (k, v));
        assert(forall|j: int| 1 <= j < r.len() ==> r[j] == es[j - 1]);
        assert forall|i: int, j: int| 0 <= i < j < r.len() implies spec_text_lt(
            #[trigger] r[i].0,
            #[trigger] r[j].0,
        ) by {
            if i == 0 && j > 1 {
                crate::text::lemma_text_lt_trans(k, es[0].0, es[j - 1].0);
            }
        }
        assert(forall|j: int| 1 <= j < r.len() ==> es.contains(#[trigger] r[j]));
    }
}

/// The hosts mapping is canonically ordered by host identifier, whatever
/// sections build it.
pub proof fn lemma_build_hosts_sorted(sections: Seq<SectionModel>)
    ensures
        spec_keys_sorted(spec_build_hosts(sections)),
    decreases sections.len(),
{
    if sections.len() > 0 {
        lemma_build_hosts_sorted(sections.drop_last());
        lemma_sorted_insert_keeps_order(
            spec_build_hosts(sections.drop_last()),
            sections.last().host,
            spec_host_params(sections.last()),
        );
    }
}

/// The shared-variables mapping is canonically ordered by name, whatever
/// pairs the caller supplied.
pub proof fn lemma_build_vars_sorted(pairs: Seq<(Seq<char>, ValueModel)>)
    ensures
        spec_keys_sorted(spec_build_vars(pairs)),
    decreases pairs.len(),
{
    if pairs.len() > 0 {
        lemma_build_vars_sorted(pairs.drop_last());
        lemma_sorted_insert_keeps_order(
            spec_build_vars(pairs.drop_last()),
            pairs.last().0,
            pairs.last().1,
        );
    }
}

/// The hosts of one group, canonically ordered by identifier, and the
/// group's shared variables if the caller supplied any.
#[derive(Debug, PartialEq)]
pub struct Hosts {
    pub hosts: Vec<(String, HostParams)>,
    pub vars: Option<Vec<(String, ValueType)>>,
}

pub ghost struct HostsModel {
    pub hosts: Seq<(Seq<char>, HostParamsModel)>,
    pub vars: Option<Seq<(Seq<char>, ValueModel)>>,
}

impl View for Hosts {
    type V = HostsModel;

    open spec fn view(&self) -> HostsModel {
        HostsModel {
            hosts: spec_kv_of(self.hosts@),
            vars: match &self.vars {
                Some(v) => Some(spec_kv_of(v@)),
                None => None,
            },
        }
    }
}

/// The hosts mapping a list of sections builds up, one section at a time,
/// in order; a later section under the same identifier replaces the
/// earlier one.
pub open spec fn spec_build_hosts(sections: Seq<SectionModel>) -> Seq<
    (Seq<char>, HostParamsModel),
>
    decreases sections.len(),
{
    if sections.len() == 0 {
        Seq::empty()
    } else {
        spec_sorted_insert(
            spec_build_hosts(sections.drop_last()),
            sections.last().host,
            spec_host_params(sections.last()),
        )
    }
}

/// The shared-variables mapping, name-ordered, the last occurrence of a
/// name winning.
pub open spec fn spec_build_vars(pairs: Seq<(Seq<char>, ValueModel)>) -> Seq<
    (Seq<char>, ValueModel),
>
    decreases pairs.len(),
{
    if pairs.len() == 0 {
        Seq::empty()
    } else {
        spec_sorted_insert(spec_build_vars(pairs.drop_last()), pairs.last().0, pairs.last().1)
    }
}

/// The caller's variables over views.
pub open spec fn spec_vars_of(vars: Option<Vec<(String, ValueType)>>) -> Option<
    Seq<(Seq<char>, ValueModel)>,
> {
    match vars {
        Some(v) => Some(spec_kv_of(v@)),
        None => None,
    }
}

/// Every section's port field, if present, spells a valid port.
pub open spec fn spec_sections_ok(sections: Seq<SectionModel>) -> bool {
    forall|i: int| 0 <= i < sections.len() ==> spec_port_ok(#[trigger] sections[i])
}

/// The first section whose port field is invalid.
pub open spec fn spec_first_bad(sections: Seq<SectionModel>) -> int
    decreases sections.len(),
{
    if sections.len() == 0 {
        0
    } else if !spec_port_ok(sections[0]) {
        0
    } else {
        1 + spec_first_bad(sections.drop_first())
    }
}

proof fn lemma_first_bad_at(sections: Seq<SectionModel>, i: int)
    requires
        0 <= i < sections.len(),
        forall|k: int| 0 <= k < i ==> spec_port_ok(#[trigger] sections[k]),
        !spec_port_ok(sections[i]),
    ensures
        spec_first_bad(sections) == i,
        !spec_sections_ok(sections),
    decreases i,
{
    if i > 0 {
        assert(forall|k: int|
            0 <= k < i - 1 ==> sections.drop_first()[k] == sections[k + 1]);
        lemma_first_bad_at(sections.drop_first(), i - 1);
    }
}

/// What the mapping failure reports when a section list has a bad port:
/// the error names the first such section's host, the port field, and its
/// value.
pub open spec fn spec_error_matches(sections: Seq<SectionModel>, e: MappingErrorModel) -> bool {
    let b = spec_first_bad(sections);
    &&& !spec_sections_ok(sections)
    &&& 0 <= b < sections.len()
    &&& e.host == sections[b].host
    &&& e.field == Field::Port
    &&& Some(e.value) == spec_fields_get(sections[b].fields, Field::Port)
}

impl Hosts {
    /// Gather the given (already wildcard-filtered) sections into the
    /// group's hosts mapping and attach the caller's variables, both
    /// canonically ordered with the last occurrence of a name winning.
    pub fn new(ssh_configs: &[SshConfig], vars: Option<Vec<(String, ValueType)>>) -> (r: Result<
        Hosts,
        MappingError,
    >)
        ensures
            match r {
                Ok(h) => {
                    &&& spec_sections_ok(spec_sections_of(ssh_configs@))
                    &&& h@.hosts == spec_build_hosts(spec_sections_of(ssh_configs@))
                    &&& h@.vars == (match spec_vars_of(vars) {
                        Some(ps) => Some(spec_build_vars(ps)),
                        None => None,
                    })
                },
                Err(e) => spec_error_matches(spec_sections_of(ssh_configs@), e@),
            },
    {
        let ghost ss = spec_sections_of(ssh_configs@);
        let n = ssh_configs.len();
        let mut hosts: Vec<(String, HostParams)> = Vec::new();
        let mut i: usize = 0;
        assert(ss.take(0) =~= Seq::<SectionModel>::empty());
        assert(spec_kv_of(hosts@) =~= Seq::<(Seq<char>, HostParamsModel)>::empty());
        while i < n
            invariant
                n == ssh_configs@.len(),
                ss == spec_sections_of(ssh_configs@),
                i <= n,
                forall|k: int| 0 <= k < i ==> spec_port_ok(#[trigger] ss[k]),
                spec_kv_of(hosts@) == spec_build_hosts(ss.take(i as int)),
            decreases n - i,
        {
            let c = &ssh_configs[i];
            assert(ss[i as int] == ssh_configs@[i as int]@);
            match HostParams::new(c) {
                Ok(hp) => {
                    sorted_insert(&mut hosts, c.host.clone(), hp);
                    proof {
                        assert(ss.take(i + 1).drop_last() =~= ss.take(i as int));
                        assert(ss.take(i + 1).last() == ss[i as int]);
                    }
                },
                Err(e) => {
                    proof {
                        lemma_first_bad_at(ss, i as int);
                    }
                    return Err(e);
                },
            }
            i = i + 1;
        }
        assert(ss.take(n as int) =~= ss);
        let built_vars: Option<Vec<(String, ValueType)>> = match vars {
            Some(list) => {
                let ghost ps = spec_kv_of(list@);
                let mut pending = list;
                let mut out: Vec<(String, ValueType)> = Vec::new();
                let ghost total = ps.len();
                assert(spec_kv_of(out@) =~= Seq::<(Seq<char>, ValueModel)>::empty());
                assert(ps.take(0) =~= Seq::<(Seq<char>, ValueModel)>::empty());
                assert(spec_kv_of(pending@) =~= ps.skip(0));
                while pending.len() > 0
                    invariant
                        total == ps.len(),
                        spec_kv_of(pending@) == ps.skip(total - pending@.len()),
                        pending@.len() <= total,
                        spec_kv_of(out@) == spec_build_vars(ps.take(total - pending@.len())),
                    decreases pending@.len(),
                {
                    let ghost j = total - pending@.len();
                    let ghost before = spec_kv_of(pending@);
                    let p = pending.remove(0);
                    proof {
                        assert(before[0] == (p.0@, p.1@));
                        assert(ps[j] == before[0]);
                        assert(spec_kv_of(pending@) =~= before.drop_first());
                        assert(before.drop_first() =~= ps.skip(j + 1));
                    }
                    sorted_insert(&mut out, p.0, p.1);
                    proof {
                        assert(ps.take(j + 1).drop_last() =~= ps.take(j));
                        assert(ps.take(j + 1).last() == ps[j]);
                    }
                }
                assert(ps.take(total - pending@.len()) =~= ps);
                Some(out)
            },
            None => None,
        };
        Ok(Hosts { hosts, vars: built_vars })
    }
}

/// The whole inventory document: a single named group holding the hosts
/// and the optional shared variables.
#[derive(Debug, PartialEq)]
pub struct Inventory {
    pub groups: Vec<(String, Hosts)>,
}

pub ghost struct InventoryModel {
    pub groups: Seq<(Seq<char>, HostsModel)>,
}

impl View for Inventory {
    type V = InventoryModel;

    open spec fn view(&self) -> InventoryModel {
        InventoryModel { groups: spec_kv_of(self.groups@) }
    }
}

/// The document a section list and a variable list assemble into, under
/// the given environment name.
pub open spec fn spec_inventory(
    name: Seq<char>,
    sections: Seq<SectionModel>,
    vars: Option<Seq<(Seq<char>, ValueModel)>>,
) -> InventoryModel {
    InventoryModel {
        groups: seq![
            (
                name,
                HostsModel {
                    hosts: spec_build_hosts(sections),
                    vars: match vars {
                        Some(ps) => Some(spec_build_vars(ps)),
                        None => None,
                    },
                },
            ),
        ],
    }
}

impl Inventory {
    /// Assemble the document: one group, named after the environment,
    /// holding the sections' hosts and the caller's variables.
    pub fn new(name: &str, ssh_configs: &[SshConfig], vars: Option<Vec<(String, ValueType)>>) -> (r:
        Result<Inventory, MappingError>)
        ensures
            match r {
                Ok(inv) => {
                    &&& spec_sections_ok(spec_sections_of(ssh_configs@))
                    &&& inv@ == spec_inventory(
                        name@,
                        spec_sections_of(ssh_configs@),
                        spec_vars_of(vars),
                    )
                },
                Err(e) => spec_error_matches(spec_sections_of(ssh_configs@), e@),
            },
    {
        match Hosts::new(ssh_configs, vars) {
            Ok(h) => {
                let ghost hm = h@;
                let mut groups: Vec<(String, Hosts)> = Vec::new();
                groups.push((name.to_owned(), h));
                let inv = Inventory { groups };
                assert(inv@.groups =~= seq![(name@, hm)]);
                Ok(inv)
            },
            Err(e) => Err(e),
        }
    }
}

} // verus!
