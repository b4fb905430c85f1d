//! The command executors: given the fetched index metadata, they pick or
//! enumerate sources, flatten parameters, sort every table's rows, and
//! assemble the titled tables of the final output text.

use vstd::prelude::*;
use vstd::pervasive::arbitrary;
use vstd::string::StringExecFns;
use crate::command::CliError;
use crate::json::{
    entries_view, flatten_json, flatten_spec, lemma_flatten_all_leaves, JsonValue,
};
use crate::metadata::{IndexMetadata, SourceDescriptor};
use crate::order::str_eq_exec;
use crate::render::{make_table, psql_table, table_records};
use crate::sort::{
    distinct_keys, lemma_sort_distinct, lemma_sort_rows_spec, lemma_sort_view, lemma_sorted_unique,
    rows_view, sort_rows, sort_rows_spec, vsort_spec,
};

verus! {

/// The position of the first source whose identifier is `id`, or -1 when
/// none matches.
pub open spec fn find_source_index(sources: Seq<SourceDescriptor>, id: Seq<char>) -> int
    decreases sources.len(),
{
    if sources.len() == 0 {
        -1
    } else if sources.first().source_id@ == id {
        0
    } else {
        let rest = find_source_index(sources.drop_first(), id);
        if rest < 0 {
            -1
        } else {
            1 + rest
        }
    }
}

/// A scan that saw no match up to `i` fixes what the first match is: the
/// match at `i` if any, and none at all once `i` passes the end.
proof fn lemma_find_source_index(sources: Seq<SourceDescriptor>, id: Seq<char>, i: int)
    requires
        0 <= i <= sources.len(),
        forall|j: int| 0 <= j < i ==> sources[j].source_id@ != id,
    ensures
        (i < sources.len() && sources[i].source_id@ == id) ==> find_source_index(sources, id)
            == i,
        i == sources.len() ==> find_source_index(sources, id) == -1,
    decreases i,
{
    if i == 0 {
    } else {
        assert(sources[0].source_id@ != id);
        assert forall|j: int| 0 <= j < i - 1 implies sources.drop_first()[j].source_id@ != id by {
            assert(sources.drop_first()[j] == sources[j + 1]);
        }
        lemma_find_source_index(sources.drop_first(), id, i - 1);
        if i < sources.len() {
            assert(sources.drop_first()[i - 1] == sources[i]);
        }
    }
}

/// The text shown for a leaf: what it carries. Only leaves ever reach a
/// parameters row.
pub open spec fn vleaf_text(v: JsonValue) -> Seq<char> {
    match v {
        JsonValue::Leaf(t) => t@,
        JsonValue::Object(_) => arbitrary(),
    }
}

/// The parameter rows of a flattening: each entry's dotted path beside its
/// leaf's text.
pub open spec fn vparam_rows_spec(entries: Seq<(Seq<char>, JsonValue)>) -> Seq<
    (Seq<char>, Seq<char>),
> {
    entries.map_values(|e: (Seq<char>, JsonValue)| (e.0, vleaf_text(e.1)))
}

/// The unsorted source rows: each source's identifier and type, in the
/// order the metastore returned them.
pub open spec fn source_rows_spec(sources: Seq<SourceDescriptor>) -> Seq<(String, String)> {
    sources.map_values(|d: SourceDescriptor| (d.source_id, d.source_type))
}

/// Turns flattened entries into display rows.
fn param_rows(entries: Vec<(String, JsonValue)>) -> (rows: Vec<(String, String)>)
    requires
        forall|k: int| 0 <= k < entries@.len() ==> entries@[k].1 is Leaf,
    ensures
        rows_view(rows@) == vparam_rows_spec(entries_view(entries@)),
{
    let ghost original = entries@;
    let mut entries = entries;
    let mut rows: Vec<(String, String)> = Vec::new();
    proof {
        assert(original.skip(0) =~= original);
        assert(rows_view(rows@) =~= vparam_rows_spec(entries_view(original)).subrange(0, 0));
    }
    while entries.len() > 0
        invariant
            entries@.len() <= original.len(),
            entries@ =~= original.skip(original.len() - entries@.len()),
            forall|k: int| 0 <= k < original.len() ==> original[k].1 is Leaf,
            rows_view(rows@) =~= vparam_rows_spec(entries_view(original)).subrange(
                0,
                original.len() - entries@.len(),
            ),
        decreases entries@.len(),
    {
        let ghost j = original.len() - entries@.len();
        let ghost rows0 = rows@;
        let entry = entries.remove(0);
        proof {
            assert(original.skip(j)[0] == entry);
            assert(original[j] == entry);
            assert(entries@ =~= original.skip(j + 1));
        }
        match entry {
            (path, JsonValue::Leaf(text)) => {
                rows.push((path, text));
                proof {
                    assert(vparam_rows_spec(entries_view(original))[j] == (
                        original[j].0@,
                        vleaf_text(original[j].1),
                    ));
                    assert(vleaf_text(original[j].1) == text@);
                    assert(rows_view(rows@) =~= rows_view(rows0).push((path@, text@)));
                    assert(rows_view(rows@) =~= vparam_rows_spec(entries_view(original)).subrange(
                        0,
                        j + 1,
                    ));
                }
            },
            (_path, JsonValue::Object(_)) => {
                proof {
                    assert(original[j].1 is Leaf);
                    assert(false);
                }
            },
        }
    }
    proof {
        assert(rows_view(rows@) =~= vparam_rows_spec(entries_view(original)));
    }
    rows
}

/// The three row groups of a "describe" invocation, each already in the
/// order its table shows.
#[derive(Debug, PartialEq, Eq)]
pub struct DescribeReport {
    pub source_rows: Vec<(String, String)>,
    pub params_rows: Vec<(String, String)>,
    pub checkpoint_rows: Vec<(String, String)>,
}

/// Picks the source named `source_id` and builds the three row groups: one
/// source row, the flattened parameters sorted by dotted path, and the
/// checkpoint sorted by partition identifier. Fails, naming the identifier,
/// exactly when no source matches.
pub fn describe_source_rows(metadata: IndexMetadata, source_id: &str) -> (r: Result<
    DescribeReport,
    CliError,
>)
    ensures
        r is Ok <==> find_source_index(metadata.sources@, source_id@) >= 0,
        r matches Ok(rep) ==> ({
            let i = find_source_index(metadata.sources@, source_id@);
            &&& rep.source_rows@ == seq![
                (metadata.sources@[i].source_id, metadata.sources@[i].source_type),
            ]
            &&& rows_view(rep.params_rows@) == vsort_spec(
                vparam_rows_spec(
                    flatten_spec(Seq::<char>::empty(), metadata.sources@[i].params),
                ),
            )
            &&& rep.checkpoint_rows@ == sort_rows_spec(metadata.checkpoint@)
        }),
        r matches Err(e) ==> (e matches CliError::SourceNotFound(m) && m@ == source_id@),
{
    let ghost sources0 = metadata.sources@;
    let IndexMetadata { sources, checkpoint } = metadata;
    let mut sources = sources;
    let mut idx: usize = 0;
    loop
        invariant
            metadata.sources@ == sources0,
            sources@ == sources0,
            0 <= idx <= sources@.len(),
            forall|j: int| 0 <= j < idx ==> sources@[j].source_id@ != source_id@,
        ensures
            sources@ == sources0,
            idx < sources0.len(),
            sources0[idx as int].source_id@ == source_id@,
            find_source_index(sources0, source_id@) == idx as int,
        decreases sources@.len() - idx,
    {
        if idx == sources.len() {
            proof {
                assert(idx as int == sources0.len() as int);
                lemma_find_source_index(sources0, source_id@, idx as int);
                assert(find_source_index(sources0, source_id@) == -1);
            }
            return Err(CliError::SourceNotFound(source_id.to_owned()));
        }
        if str_eq_exec(sources[idx].source_id.as_str(), source_id) {
            proof {
                lemma_find_source_index(sources0, source_id@, idx as int);
            }
            break ;
        }
        idx = idx + 1;
    }
    let source = sources.remove(idx);
    proof {
        assert(source == sources0[idx as int]);
        assert(find_source_index(sources0, source_id@) == idx as int);
    }
    let SourceDescriptor { source_id: matched_id, source_type: matched_type, params } = source;
    let mut source_rows: Vec<(String, String)> = Vec::new();
    source_rows.push((matched_id, matched_type));
    proof {
        assert(source_rows@ =~= seq![
            (sources0[idx as int].source_id, sources0[idx as int].source_type),
        ]);
    }
    let entries = flatten_json(params);
    proof {
        lemma_flatten_all_leaves(Seq::<char>::empty(), sources0[idx as int].params);
        assert forall|k: int| 0 <= k < entries@.len() implies entries@[k].1 is Leaf by {
            assert(entries_view(entries@)[k] == (entries@[k].0@, entries@[k].1));
        }
    }
    let unsorted_params = param_rows(entries);
    let params_rows = sort_rows(unsorted_params);
    proof {
        lemma_sort_view(unsorted_params@);
    }
    let checkpoint_rows = sort_rows(checkpoint);
    Ok(DescribeReport { source_rows, params_rows, checkpoint_rows })
}

/// The full output text of a "describe" invocation on metadata in which
/// the source exists: the Source, Parameters and Checkpoint tables, blank
/// lines between them.
pub open spec fn describe_text_spec(meta: IndexMetadata, id: Seq<char>) -> Seq<char> {
    let i = find_source_index(meta.sources@, id);
    let src = meta.sources@[i];
    psql_table(
        "Source"@,
        table_records("ID"@, "Type"@, rows_view(seq![(src.source_id, src.source_type)])),
    ) + "\n\n"@ + psql_table(
        "Parameters"@,
        table_records(
            "Key"@,
            "Value"@,
            vsort_spec(vparam_rows_spec(flatten_spec(Seq::<char>::empty(), src.params))),
        ),
    ) + "\n\n"@ + psql_table(
        "Checkpoint"@,
        table_records("Partition ID"@, "Offset"@, rows_view(sort_rows_spec(meta.checkpoint@))),
    )
}

/// Runs a "describe" invocation on fetched metadata: renders the three
/// titled tables, or fails, naming the identifier, exactly when no source
/// matches.
pub fn describe_source_cli(metadata: IndexMetadata, source_id: &str) -> (r: Result<
    String,
    CliError,
>)
    ensures
        r is Ok <==> find_source_index(metadata.sources@, source_id@) >= 0,
        r matches Ok(text) ==> text@ == describe_text_spec(metadata, source_id@),
        r matches Err(e) ==> (e matches CliError::SourceNotFound(m) && m@ == source_id@),
{
    let report = match describe_source_rows(metadata, source_id) {
        Ok(report) => report,
        Err(err) => {
            return Err(err);
        },
    };
    let source_table = make_table("Source", "ID", "Type", report.source_rows);
    let params_table = make_table("Parameters", "Key", "Value", report.params_rows);
    let checkpoint_table = make_table("Checkpoint", "Partition ID", "Offset",
        report.checkpoint_rows);
    let mut text = source_table;
    text.append("\n\n");
    text.append(params_table.as_str());
    text.append("\n\n");
    text.append(checkpoint_table.as_str());
    Ok(text)
}

/// Enumerates every source of the index as an (identifier, type) row,
/// sorted ascending by identifier whatever order the metastore returned.
pub fn list_sources_rows(metadata: IndexMetadata) -> (rows: Vec<(String, String)>)
    ensures
        rows@ == sort_rows_spec(source_rows_spec(metadata.sources@)),
{
    let ghost sources0 = metadata.sources@;
    let IndexMetadata { sources, checkpoint: _ } = metadata;
    let mut sources = sources;
    let mut unsorted: Vec<(String, String)> = Vec::new();
    proof {
        assert(sources0.skip(0) =~= sources0);
        assert(unsorted@ =~= source_rows_spec(sources0).subrange(0, 0));
    }
    while sources.len() > 0
        invariant
            sources@.len() <= sources0.len(),
            sources@ =~= sources0.skip(sources0.len() - sources@.len()),
            unsorted@ =~= source_rows_spec(sources0).subrange(
                0,
                sources0.len() - sources@.len(),
            ),
        decreases sources@.len(),
    {
        let ghost j = sources0.len() - sources@.len();
        let descriptor = sources.remove(0);
        proof {
            assert(sources0.skip(j)[0] == descriptor);
            assert(sources0[j] == descriptor);
            assert(sources@ =~= sources0.skip(j + 1));
        }
        let SourceDescriptor { source_id, source_type, params: _ } = descriptor;
        unsorted.push((source_id, source_type));
        proof {
            assert(source_rows_spec(sources0)[j] == (
                sources0[j].source_id,
                sources0[j].source_type,
            ));
            assert(unsorted@ =~= source_rows_spec(sources0).subrange(0, j + 1));
        }
    }
    proof {
        assert(unsorted@ =~= source_rows_spec(sources0));
    }
    sort_rows(unsorted)
}

/// The full output text of a "list" invocation: one Sources table, rows
/// sorted by source identifier.
pub open spec fn list_text_spec(meta: IndexMetadata) -> Seq<char> {
    psql_table(
        "Sources"@,
        table_records(
            "ID"@,
            "Type"@,
            rows_view(sort_rows_spec(source_rows_spec(meta.sources@))),
        ),
    )
}

/// The listed table does not depend on the order the metastore returned
/// the sources in: two fetches whose sources form the same rows as a
/// multiset, with pairwise distinct identifiers, sort to the same rows and
/// render the same Sources table.
pub proof fn lemma_list_order_insensitive(a: IndexMetadata, b: IndexMetadata)
    requires
        source_rows_spec(a.sources@).to_multiset() == source_rows_spec(b.sources@).to_multiset(),
        distinct_keys(source_rows_spec(a.sources@)),
    ensures
        sort_rows_spec(source_rows_spec(a.sources@)) == sort_rows_spec(
            source_rows_spec(b.sources@),
        ),
        list_text_spec(a) == list_text_spec(b),
{
    let ra = source_rows_spec(a.sources@);
    let rb = source_rows_spec(b.sources@);
    lemma_sort_rows_spec(ra);
    lemma_sort_rows_spec(rb);
    lemma_sort_distinct(ra);
    lemma_sorted_unique(sort_rows_spec(ra), sort_rows_spec(rb));
}

/// Runs a "list" invocation on fetched metadata: renders the Sources
/// table, every source one row, sorted by identifier.
pub fn list_sources_cli(metadata: IndexMetadata) -> (text: String)
    ensures
        text@ == list_text_spec(metadata),
{
    let rows = list_sources_rows(metadata);
    make_table("Sources", "ID", "Type", rows)
}

} // verus!
