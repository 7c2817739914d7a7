//! Parsing the build tool's output.
//!
//! The target listing is plain text, one label per line, parsed here with
//! an exact character-level contract.  The detail query and the cell
//! table are JSON; serde_json does the decoding behind two trusted
//! wrappers whose results carry names (`query_entry_of`, `cells_of`), so
//! the verified functions around them pin every decision that is the
//! library's own: which lines survive, which defaults fill missing
//! fields, which error comes when, and that parsing fails exactly when
//! the named extraction does.

use vstd::prelude::*;

use serde_json::Value;

use crate::buck::BuckTarget;
use crate::buck::CoreError;
use crate::buck::DetailOutcome;
use crate::buck::LoadOutcome;
use crate::buck::TargetDetails;
use crate::buck::TargetModel;
use crate::strutil::split_char_spec;
use crate::strutil::str_split_char;
use crate::strutil::str_trim;
use crate::strutil::trim_spec;

verus! {

/// What the detail query's JSON holds for one target, as a function of
/// the document and the keys alone: nothing when the document is
/// malformed or has no entry under the label; otherwise the string under
/// the type key (nothing when absent or not a string) and, for each
/// element of the array under the deps key (none when absent or not an
/// array), its string value (nothing for a non-string element).
pub uninterp spec fn query_entry_of(
    out: Seq<char>,
    label: Seq<char>,
    type_key: Seq<char>,
    deps_key: Seq<char>,
) -> Option<(Option<Seq<char>>, Seq<Option<Seq<char>>>)>;

/// Relies on serde_json::from_str, serde_json::Value::get,
/// serde_json::Value::as_str and serde_json::Value::as_array: one
/// extraction from the decoded document, a deterministic function of the
/// four arguments, named by `query_entry_of`.
#[verifier::external_body]
fn query_extract(out: &str, label: &str, type_key: &str, deps_key: &str) -> (r: Option<
    (Option<String>, Vec<Option<String>>),
>)
    ensures
        match r {
            Some(p) => match query_entry_of(out@, label@, type_key@, deps_key@) {
                Some(q) => p.0.deep_view() == q.0 && p.1.deep_view() == q.1,
                None => false,
            },
            None => query_entry_of(out@, label@, type_key@, deps_key@) is None,
        },
{
    let root: Value = serde_json::from_str(out).ok()?;
    let entry = root.get(label)?;
    let rule = entry.get(type_key).and_then(|v| v.as_str()).map(|s| s.to_owned());
    let mut deps: Vec<Option<String>> = Vec::new();
    if let Some(items) = entry.get(deps_key).and_then(|v| v.as_array()) {
        for item in items {
            deps.push(item.as_str().map(|s| s.to_owned()));
        }
    }
    Some((rule, deps))
}

/// The cell table a JSON document holds, as a function of the document
/// alone: nothing when it does not decode as an object of string keys and
/// string values, and the set of its key-value pairs otherwise.  A JSON
/// object's keys are unique, so the set determines the table.
pub uninterp spec fn cells_of(s: Seq<char>) -> Option<Set<(Seq<char>, Seq<char>)>>;

/// Relies on serde_json::from_str into a map of string keys and string
/// values: the pairs are exactly the named set's members, in an order
/// that follows a hash map's iteration and is not promised.
#[verifier::external_body]
pub(crate) fn parse_string_map(s: &str) -> (r: Option<Vec<(String, String)>>)
    ensures
        match r {
            Some(v) => match cells_of(s@) {
                Some(cs) => {
                    &&& v@.len() == cs.len()
                    &&& (forall|i: int|
                        0 <= i < v@.len() ==> cs.contains(
                            ((#[trigger] v@[i]).0@, v@[i].1@),
                        ))
                    &&& (forall|p: (Seq<char>, Seq<char>)|
                        cs.contains(p) ==> exists|i: int|
                            0 <= i < v@.len() && (#[trigger] v@[i]).0@ == p.0 && v@[i].1@
                                == p.1)
                },
                None => false,
            },
            None => cells_of(s@) is None,
        },
{
    let m: std::collections::HashMap<String, String> = match serde_json::from_str(s) {
        Ok(m) => m,
        Err(_) => return None,
    };
    Some(m.into_iter().collect())
}

/// The trimmed, non-empty lines, in order.
pub open spec fn kept_lines(lines: Seq<Seq<char>>) -> Seq<Seq<char>>
    decreases lines.len(),
{
    if lines.len() == 0 {
        Seq::<Seq<char>>::empty()
    } else {
        let rest = kept_lines(lines.drop_last());
        let t = trim_spec(lines.last());
        if t.len() > 0 {
            rest.push(t)
        } else {
            rest
        }
    }
}

/// The target a listing line stands for: the label alone, with the
/// placeholder rule type, no dependencies, and details not yet loaded.
pub open spec fn target_from_line(line: Seq<char>, dir: Seq<char>) -> TargetModel {
    TargetModel {
        name: line,
        rule_type: "unknown"@,
        path: dir,
        deps: Seq::<Seq<char>>::empty(),
        details_loaded: false,
    }
}

/// What a target listing parses to: one target per trimmed, non-empty
/// line.
pub open spec fn parsed_targets_spec(out: Seq<char>, dir: Seq<char>) -> Seq<TargetModel> {
    kept_lines(split_char_spec(out, '\n')).map_values(|l: Seq<char>| target_from_line(l, dir))
}

/// Parse the target listing: each line is trimmed, empty lines are
/// dropped, and each surviving line names one target under `dir_path`.
pub fn parse_buck2_targets_output(output: &str, dir_path: &String) -> (r: Vec<BuckTarget>)
    ensures
        r.deep_view() == parsed_targets_spec(output@, dir_path@),
{
    proof {
        reveal_strlit("unknown");
    }
    let lines = str_split_char(output, '\n');
    let mut r: Vec<BuckTarget> = Vec::new();
    let ghost pieces = split_char_spec(output@, '\n');
    let mut i: usize = 0;
    proof {
        assert(pieces.subrange(0, 0) =~= Seq::<Seq<char>>::empty());
        assert(r.deep_view() =~~= kept_lines(pieces.subrange(0, 0)).map_values(
            |l: Seq<char>| target_from_line(l, dir_path@),
        ));
    }
    while i < lines.len()
        invariant
            0 <= i <= lines@.len(),
            lines@.len() == pieces.len(),
            forall|k: int| 0 <= k < lines@.len() ==> (#[trigger] lines@[k])@ == pieces[k],
            r.deep_view() == kept_lines(pieces.subrange(0, i as int)).map_values(
                |l: Seq<char>| target_from_line(l, dir_path@),
            ),
        decreases lines@.len() - i,
    {
        let ghost pre = pieces.subrange(0, i as int);
        let ghost cur = pieces.subrange(0, i + 1);
        proof {
            assert(cur.drop_last() =~= pre);
            assert(cur.last() == pieces[i as int]);
        }
        let trimmed = str_trim(lines[i].as_str());
        let ghost r0 = r.deep_view();
        let ghost new_model = target_from_line(trim_spec(pieces[i as int]), dir_path@);
        if trimmed.as_str().unicode_len() > 0 {
            r.push(
                BuckTarget {
                    name: trimmed,
                    rule_type: String::from_str("unknown"),
                    path: dir_path.clone(),
                    deps: Vec::new(),
                    details_loaded: false,
                },
            );
            proof {
                reveal_strlit("unknown");
                assert(r@.last()@ =~~= new_model);
                assert(r.deep_view() =~~= r0.push(new_model));
                assert(kept_lines(cur) == kept_lines(pre).push(trim_spec(pieces[i as int])));
                assert(kept_lines(cur).map_values(|l: Seq<char>| target_from_line(l, dir_path@))
                    =~~= r0.push(new_model));
                assert(r.deep_view() == kept_lines(cur).map_values(
                    |l: Seq<char>| target_from_line(l, dir_path@),
                ));
            }
        } else {
            proof {
                assert(kept_lines(cur) == kept_lines(pre));
                assert(r.deep_view() == kept_lines(cur).map_values(
                    |l: Seq<char>| target_from_line(l, dir_path@),
                ));
            }
        }
        i = i + 1;
    }
    proof {
        assert(pieces.subrange(0, pieces.len() as int) =~= pieces);
    }
    r
}

/// What a finished target-listing command means: a successful exit is
/// parsed; a failing one is an empty listing for a directory without a
/// manifest, and a command failure for a directory with one.
pub fn classify_targets_output(
    exit_ok: bool,
    stdout: &str,
    dir_path: &String,
    has_buck_file: bool,
) -> (r: LoadOutcome)
    ensures
        exit_ok ==> (match r {
            LoadOutcome::Loaded(ts) => ts.deep_view() == parsed_targets_spec(stdout@, dir_path@),
            LoadOutcome::Failed(_) => false,
        }),
        (!exit_ok && !has_buck_file) ==> (match r {
            LoadOutcome::Loaded(ts) => ts@.len() == 0,
            LoadOutcome::Failed(_) => false,
        }),
        (!exit_ok && has_buck_file) ==> (match r {
            LoadOutcome::Loaded(_) => false,
            LoadOutcome::Failed(e) => e == CoreError::ExternalCommandFailure,
        }),
{
    if exit_ok {
        LoadOutcome::Loaded(parse_buck2_targets_output(stdout, dir_path))
    } else if !has_buck_file {
        LoadOutcome::Loaded(Vec::new())
    } else {
        LoadOutcome::Failed(CoreError::ExternalCommandFailure)
    }
}

/// The values of the `Some` entries, in order.
pub open spec fn somes_of(s: Seq<Option<Seq<char>>>) -> Seq<Seq<char>>
    decreases s.len(),
{
    if s.len() == 0 {
        Seq::<Seq<char>>::empty()
    } else {
        let rest = somes_of(s.drop_last());
        match s.last() {
            Some(x) => rest.push(x),
            None => rest,
        }
    }
}

/// Keep the dependency labels that decoded as strings, in order.
pub fn collect_dep_strings(items: Vec<Option<String>>) -> (r: Vec<String>)
    ensures
        r.deep_view() == somes_of(items.deep_view()),
{
    let mut r: Vec<String> = Vec::new();
    let mut i: usize = 0;
    proof {
        assert(items.deep_view().subrange(0, 0) =~= Seq::<Option<Seq<char>>>::empty());
        assert(r.deep_view() =~~= somes_of(items.deep_view().subrange(0, 0)));
    }
    while i < items.len()
        invariant
            0 <= i <= items@.len(),
            r.deep_view() == somes_of(items.deep_view().subrange(0, i as int)),
        decreases items@.len() - i,
    {
        let ghost pre = items.deep_view().subrange(0, i as int);
        let ghost cur = items.deep_view().subrange(0, i + 1);
        proof {
            assert(cur.drop_last() =~= pre);
            assert(cur.last() == items@[i as int].deep_view());
        }
        match &items[i] {
            Some(s) => {
                r.push(s.clone());
            },
            None => {},
        }
        proof {
            assert(r.deep_view() =~~= somes_of(cur));
        }
        i = i + 1;
    }
    proof {
        assert(items.deep_view().subrange(0, items@.len() as int) =~= items.deep_view());
    }
    r
}

/// Build the details record: a missing or non-string rule type falls back
/// to the placeholder.
pub fn details_from_parts(rule: Option<String>, deps: Vec<String>) -> (r: TargetDetails)
    ensures
        r.rule_type@ == (match rule {
            Some(s) => s@,
            None => "unknown"@,
        }),
        r.deps@ == deps@,
{
    proof {
        reveal_strlit("unknown");
    }
    let rule_type = match rule {
        Some(s) => s,
        None => String::from_str("unknown"),
    };
    TargetDetails { rule_type, deps }
}

/// Parse the detail query's JSON: the entry under the target's label
/// supplies the rule type and the dependency labels; a missing or
/// non-string rule falls back to the placeholder, and the dependency
/// list keeps exactly the elements that decoded as strings, in order.
/// The call fails, with a parse failure, exactly when the document is
/// malformed or holds no entry under the label.
pub fn parse_target_query_output(output: &str, target_label: &str) -> (r: Result<
    TargetDetails,
    CoreError,
>)
    ensures
        (r is Err) == (query_entry_of(output@, target_label@, "buck.type"@, "buck.deps"@)
            is None),
        r matches Err(e) ==> e == CoreError::ParseFailure,
        r matches Ok(d) ==> (match query_entry_of(
            output@,
            target_label@,
            "buck.type"@,
            "buck.deps"@,
        ) {
            Some(q) => {
                &&& d.rule_type@ == (match q.0 {
                    Some(rt) => rt,
                    None => "unknown"@,
                })
                &&& d.deps.deep_view() == somes_of(q.1)
            },
            None => false,
        }),
{
    match query_extract(output, target_label, "buck.type", "buck.deps") {
        None => Err(CoreError::ParseFailure),
        Some((rule, dep_items)) => {
            let deps = collect_dep_strings(dep_items);
            Ok(details_from_parts(rule, deps))
        },
    }
}

/// What a finished detail query means: a failed or unspawnable command is
/// a command failure; a successful exit is parsed, failing exactly on a
/// malformed document or a missing label, and otherwise carrying the
/// entry's rule type and string dependencies.
pub fn classify_query_output(exit_ok: bool, stdout: &str, target_label: &str) -> (r: DetailOutcome)
    ensures
        !exit_ok ==> (match r {
            DetailOutcome::Loaded(_) => false,
            DetailOutcome::Failed(e) => e == CoreError::ExternalCommandFailure,
        }),
        exit_ok ==> (match r {
            DetailOutcome::Loaded(d) => (match query_entry_of(
                stdout@,
                target_label@,
                "buck.type"@,
                "buck.deps"@,
            ) {
                Some(q) => {
                    &&& d.rule_type@ == (match q.0 {
                        Some(rt) => rt,
                        None => "unknown"@,
                    })
                    &&& d.deps.deep_view() == somes_of(q.1)
                },
                None => false,
            }),
            DetailOutcome::Failed(e) => e == CoreError::ParseFailure && query_entry_of(
                stdout@,
                target_label@,
                "buck.type"@,
                "buck.deps"@,
            ) is None,
        }),
{
    if !exit_ok {
        return DetailOutcome::Failed(CoreError::ExternalCommandFailure);
    }
    match parse_target_query_output(stdout, target_label) {
        Ok(details) => DetailOutcome::Loaded(details),
        Err(e) => DetailOutcome::Failed(e),
    }
}

} // verus!
