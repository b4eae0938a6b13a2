//! The conversion pipeline: the input text is parsed into host sections,
//! sections declared under the wildcard pattern are filtered out, and the
//! remainder is assembled, together with the caller's variables, into the
//! inventory document that the embedding program serializes.

use vstd::prelude::*;

use crate::ansible::{
    Inventory, InventoryModel, MappingError, lemma_build_hosts_no_key, lemma_build_hosts_sorted,
    lemma_build_vars_sorted, spec_error_matches, spec_inventory, spec_keys_sorted,
    spec_sections_ok, spec_vars_of,
};
use crate::ssh_config::{
    SshConfig, SectionModel, lemma_no_host_no_sections, lemma_parse_sections_sorted,
    lemma_sections_of_push, spec_fields_sorted, spec_is_host_decl, spec_lines, spec_parse,
    spec_sections_of,
};
use crate::text::str_eq;
use crate::variables::{ValueModel, ValueType};

verus! {

/// The sections that become hosts: every section except those declared
/// under the wildcard pattern, in their original order.
pub open spec fn spec_filter_wildcard(sections: Seq<SectionModel>) -> Seq<SectionModel>
    decreases sections.len(),
{
    if sections.len() == 0 {
        Seq::empty()
    } else if sections[0].host == "*"@ {
        spec_filter_wildcard(sections.drop_first())
    } else {
        seq![sections[0]] + spec_filter_wildcard(sections.drop_first())
    }
}

/// Drop every section whose declared identifier is the wildcard pattern.
pub fn filter_wildcard(sections: Vec<SshConfig>) -> (r: Vec<SshConfig>)
    ensures
        spec_sections_of(r@) == spec_filter_wildcard(spec_sections_of(sections@)),
{
    let ghost all = spec_sections_of(sections@);
    let mut pending = sections;
    let mut out: Vec<SshConfig> = Vec::new();
    assert(spec_sections_of(out@) =~= Seq::<SectionModel>::empty());
    assert(spec_sections_of(pending@) =~= all);
    while pending.len() > 0
        invariant
            spec_filter_wildcard(all) == spec_sections_of(out@) + spec_filter_wildcard(
                spec_sections_of(pending@),
            ),
        decreases pending@.len(),
    {
        let ghost before = spec_sections_of(pending@);
        let c = pending.remove(0);
        proof {
            assert(before[0] == c@);
            assert(spec_sections_of(pending@) =~= before.drop_first());
        }
        if str_eq(c.host.as_str(), "*") {
        } else {
            proof {
                lemma_sections_of_push(out@, c);
            }
            let ghost out_before = spec_sections_of(out@);
            out.push(c);
            assert(out_before + (seq![before[0]] + spec_filter_wildcard(before.drop_first()))
                =~= spec_sections_of(out@) + spec_filter_wildcard(before.drop_first()));
        }
    }
    assert(spec_sections_of(pending@).len() == 0);
    assert(spec_sections_of(out@) + spec_filter_wildcard(spec_sections_of(pending@))
        =~= spec_sections_of(out@));
    out
}

/// The sections the mapper receives for a given input text.
pub open spec fn spec_converted(text: Seq<char>) -> Seq<SectionModel> {
    spec_filter_wildcard(spec_parse(text))
}

/// Parse the input text and assemble the inventory document named after
/// the environment, with the caller's variables attached.  The document is
/// a function of the arguments alone; the only failure is a section whose
/// port field holds no valid port, and the error names the first such
/// section.
pub fn parse_to_inventory(
    environment: &str,
    vars: Option<Vec<(String, ValueType)>>,
    input: &str,
) -> (r: Result<Inventory, MappingError>)
    ensures
        match r {
            Ok(inv) => {
                &&& spec_sections_ok(spec_converted(input@))
                &&& inv@ == spec_inventory(environment@, spec_converted(input@), spec_vars_of(vars))
            },
            Err(e) => spec_error_matches(spec_converted(input@), e@),
        },
{
    let sections = SshConfig::parse(input);
    let filtered = filter_wildcard(sections);
    Inventory::new(environment, filtered.as_slice(), vars)
}

/// The conversion is a pure function: two documents assembled from the
/// same input text, environment name and variables are equal, so equal
/// inputs always serialize to identical bytes.
pub proof fn lemma_conversion_deterministic(
    r1: InventoryModel,
    r2: InventoryModel,
    text: Seq<char>,
    env: Seq<char>,
    vars: Option<Seq<(Seq<char>, ValueModel)>>,
)
    requires
        r1 == spec_inventory(env, spec_converted(text), vars),
        r2 == spec_inventory(env, spec_converted(text), vars),
    ensures
        r1 == r2,
{
}

proof fn lemma_filter_no_wildcard(sections: Seq<SectionModel>)
    ensures
        forall|i: int|
            0 <= i < spec_filter_wildcard(sections).len() ==> (#[trigger] spec_filter_wildcard(
                sections,
            )[i].host) != "*"@,
    decreases sections.len(),
{
    if sections.len() > 0 {
        let rest = sections.drop_first();
        lemma_filter_no_wildcard(rest);
        if sections[0].host != "*"@ {
            let r = spec_filter_wildcard(sections);
            assert(r == seq![sections[0]] + spec_filter_wildcard(rest));
            assert(forall|i: int| 1 <= i < r.len() ==> r[i] == spec_filter_wildcard(rest)[i - 1]);
        }
    }
}

/// A section declared under the wildcard pattern is never a host of the
/// document, even if it carries fields: no entry of the hosts mapping is
/// keyed by the wildcard.
pub proof fn lemma_wildcard_never_a_host(
    text: Seq<char>,
    env: Seq<char>,
    vars: Option<Seq<(Seq<char>, ValueModel)>>,
)
    ensures
        forall|j: int|
            0 <= j < spec_inventory(env, spec_converted(text), vars).groups[0].1.hosts.len()
                ==> (#[trigger] spec_inventory(
                env,
                spec_converted(text),
                vars,
            ).groups[0].1.hosts[j].0) != "*"@,
{
    lemma_filter_no_wildcard(spec_parse(text));
    lemma_build_hosts_no_key(spec_converted(text), "*"@);
}

/// Given no host declaration in the input, the parser yields no sections
/// at all, and the document's hosts mapping is empty.
pub proof fn lemma_no_hosts_empty_document(
    text: Seq<char>,
    env: Seq<char>,
    vars: Option<Seq<(Seq<char>, ValueModel)>>,
)
    requires
        forall|i: int|
            0 <= i < spec_lines(text).len() ==> !spec_is_host_decl(#[trigger] spec_lines(text)[i]),
    ensures
        spec_parse(text) == Seq::<SectionModel>::empty(),
        spec_inventory(env, spec_converted(text), vars).groups[0].1.hosts == Seq::<
            (Seq<char>, crate::ansible::HostParamsModel),
        >::empty(),
{
    lemma_no_host_no_sections(text);
}

/// The document's key order is deterministic and reproducible: the hosts
/// mapping is canonically sorted by identifier and the shared-variables
/// mapping by name.
pub proof fn lemma_document_ordering(
    text: Seq<char>,
    env: Seq<char>,
    vars: Option<Seq<(Seq<char>, ValueModel)>>,
)
    ensures
        spec_keys_sorted(spec_inventory(env, spec_converted(text), vars).groups[0].1.hosts),
        match spec_inventory(env, spec_converted(text), vars).groups[0].1.vars {
            Some(vs) => spec_keys_sorted(vs),
            None => true,
        },
{
    lemma_build_hosts_sorted(spec_converted(text));
    match vars {
        Some(ps) => {
            lemma_build_vars_sorted(ps);
        },
        None => {},
    }
}

proof fn lemma_filter_preserves_sorted(sections: Seq<SectionModel>)
    requires
        forall|i: int|
            0 <= i < sections.len() ==> spec_fields_sorted(#[trigger] sections[i].fields),
    ensures
        forall|i: int|
            0 <= i < spec_filter_wildcard(sections).len() ==> spec_fields_sorted(
                #[trigger] spec_filter_wildcard(sections)[i].fields,
            ),
    decreases sections.len(),
{
    if sections.len() > 0 {
        let rest = sections.drop_first();
        assert(forall|i: int| 0 <= i < rest.len() ==> rest[i] == sections[i + 1]);
        lemma_filter_preserves_sorted(rest);
        if sections[0].host != "*"@ {
            let r = spec_filter_wildcard(sections);
            assert(r == seq![sections[0]] + spec_filter_wildcard(rest));
            assert(forall|i: int| 1 <= i < r.len() ==> r[i] == spec_filter_wildcard(rest)[i - 1]);
        }
    }
}

/// Every section the mapper receives keeps its field map in canonical
/// order, so the folded extra-arguments string of every host is
/// deterministic.
pub proof fn lemma_converted_sections_sorted(text: Seq<char>)
    ensures
        forall|i: int|
            0 <= i < spec_converted(text).len() ==> spec_fields_sorted(
                #[trigger] spec_converted(text)[i].fields,
            ),
{
    lemma_parse_sections_sorted(text);
    lemma_filter_preserves_sorted(spec_parse(text));
}

} // verus!
