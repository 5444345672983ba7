use vstd::prelude::*;

use crate::config::{ab_type_name, AbType, Cli, SignalType};
use crate::error::LoadError;
use crate::record::{is_record, record_key, record_value, tuple2_from_split};
use crate::store::{
    decimal, indexed, indexed_entries, set_fields, write_views, StoreWrite, WriteView,
    AB_PARAMS_MAP, DEFAULT_CHOICE_MAP, SCORES_NAMESPACE, TARGET_CTR_MAP,
};

verus! {

/// The character between key and value in every record.
pub const DELIM: char = '=';

/// The field of an A/B parameter: the record's key, a colon and the kind.
pub open spec fn ab_field(key: Seq<char>, kind: AbType) -> Seq<char> {
    key + ":"@ + ab_type_name(kind)
}

/// The writes of the A/B-parameter loader: one per record, in order; lines that
/// are no record are skipped.
pub open spec fn ab_writes(lines: Seq<Seq<char>>, kind: AbType) -> Seq<WriteView>
    decreases lines.len(),
{
    if lines.len() == 0 {
        seq![]
    } else {
        let prev = ab_writes(lines.drop_last(), kind);
        let l = lines.last();
        if is_record(l, DELIM) {
            prev.push(
                WriteView::Field(
                    AB_PARAMS_MAP@,
                    ab_field(record_key(l, DELIM), kind),
                    record_value(l, DELIM),
                ),
            )
        } else {
            prev
        }
    }
}

/// Every line is a record.
pub open spec fn all_records(lines: Seq<Seq<char>>) -> bool {
    forall|i: int| 0 <= i < lines.len() ==> is_record(#[trigger] lines[i], DELIM)
}

/// The `(key, value)` entries of records.
pub open spec fn record_entries(lines: Seq<Seq<char>>) -> Seq<(Seq<char>, Seq<char>)> {
    lines.map_values(|l: Seq<char>| (record_key(l, DELIM), record_value(l, DELIM)))
}

/// The map that holds the scores of version `key`.
pub open spec fn scores_map(key: Seq<char>) -> Seq<char> {
    SCORES_NAMESPACE@ + ":"@ + key
}

/// A line of the score file is usable: a record whose value was read as numbers.
pub open spec fn score_line_ok(line: (Seq<char>, Option<Seq<Seq<char>>>)) -> bool {
    is_record(line.0, DELIM) && line.1 is Some
}

/// The writes for the first `n` lines of a score file, all of them usable: one
/// bulk write per line into the map of its key, none for an empty array.
pub open spec fn score_writes(lines: Seq<(Seq<char>, Option<Seq<Seq<char>>>)>, n: nat) -> Seq<
    WriteView,
>
    decreases n,
{
    if n == 0 {
        seq![]
    } else {
        let prev = score_writes(lines, (n - 1) as nat);
        let l = lines[n - 1];
        let values = l.1->0;
        if values.len() == 0 {
            prev
        } else {
            prev.push(WriteView::Fields(scores_map(record_key(l.0, DELIM)), indexed(values)))
        }
    }
}

/// The writes of the target-CTR loader: field `i` gets the `i`th value.
pub open spec fn value_writes(values: Seq<Seq<char>>) -> Seq<WriteView> {
    Seq::new(values.len(), |i: int| WriteView::Field(TARGET_CTR_MAP@, decimal(i as nat), values[i]))
}

/// The writes that load A/B parameters of kind `types` from `lines`: a line
/// that is no record is skipped, every other gives one field write.
pub fn plan_ab_params(lines: &Vec<String>, types: AbType) -> (r: Vec<StoreWrite>)
    ensures
        write_views(r@) == ab_writes(lines.deep_view(), types),
{
    let mut r: Vec<StoreWrite> = Vec::new();
    let mut i: usize = 0;
    while i < lines.len()
        invariant
            i <= lines.len(),
            write_views(r@) == ab_writes(lines.deep_view().take(i as int), types),
        decreases lines.len() - i,
    {
        assert(lines.deep_view().take(i + 1).drop_last() =~= lines.deep_view().take(i as int));
        let ghost old_r = r@;
        match tuple2_from_split(lines[i].as_str(), DELIM) {
            Ok((key, value)) => {
                let field = key.concat(":").concat(types.name().as_str());
                r.push(
                    StoreWrite::SetField { map: String::from_str(AB_PARAMS_MAP), field, value },
                );
                assert(write_views(r@) =~= write_views(old_r).push(r@.last()@));
            },
            Err(_) => {},
        }
        i = i + 1;
    }
    assert(lines.deep_view().take(lines.len() as int) =~= lines.deep_view());
    r
}

/// The one write that loads the default action choices from `lines`: every
/// line must be a record, and the first that is not stops the load before any
/// write. No lines give no write.
pub fn plan_action_choice(lines: &Vec<String>) -> (r: Result<Option<StoreWrite>, LoadError>)
    ensures
        match r {
            Ok(None) => all_records(lines.deep_view()) && lines.len() == 0,
            Ok(Some(w)) => all_records(lines.deep_view()) && lines.len() > 0 && w@
                == WriteView::Fields(DEFAULT_CHOICE_MAP@, record_entries(lines.deep_view())),
            Err(e) => !all_records(lines.deep_view()) && e is MalformedRecord,
        },
{
    let mut items: Vec<(String, String)> = Vec::new();
    let mut i: usize = 0;
    while i < lines.len()
        invariant
            i <= lines.len(),
            all_records(lines.deep_view().take(i as int)),
            items.deep_view() == record_entries(lines.deep_view().take(i as int)),
        decreases lines.len() - i,
    {
        let ghost dv = lines.deep_view();
        match tuple2_from_split(lines[i].as_str(), DELIM) {
            Ok(kv) => {
                assert(dv[i as int] == lines[i as int]@);
                let ghost old_items = items.deep_view();
                let ghost entry = (record_key(dv[i as int], DELIM), record_value(dv[i as int], DELIM));
                assert(kv.deep_view() == entry);
                items.push(kv);
                assert(items.deep_view() =~= old_items.push(entry));
                assert(dv.take(i + 1) =~= dv.take(i as int).push(dv[i as int]));
                assert(items.deep_view() =~= record_entries(dv.take(i + 1)));
            },
            Err(e) => {
                assert(!is_record(dv[i as int], DELIM));
                return Err(e);
            },
        }
        i = i + 1;
    }
    assert(lines.deep_view().take(lines.len() as int) =~= lines.deep_view());
    Ok(set_fields(String::from_str(DEFAULT_CHOICE_MAP), items))
}

/// The writes that load the action scores of each version. Each entry of
/// `lines` is a line of the file with the numbers read from its value (`None`
/// where they could not be read). Each line writes its values, field `i` for
/// the `i`th, into the map of its key; the first line that is no record, or
/// whose numbers could not be read, stops the load after the writes of the
/// lines before it.
pub fn plan_action_score(lines: &Vec<(String, Option<Vec<String>>)>) -> (r: (
    Vec<StoreWrite>,
    Result<(), LoadError>,
))
    ensures
        match r.1 {
            Ok(()) => (forall|i: int|
                0 <= i < lines.len() ==> score_line_ok(#[trigger] lines.deep_view()[i]))
                && write_views(r.0@) == score_writes(lines.deep_view(), lines.len() as nat),
            Err(e) => exists|s: int|
                0 <= s < lines.len() && (forall|j: int|
                    0 <= j < s ==> score_line_ok(#[trigger] lines.deep_view()[j])) && !score_line_ok(
                    lines.deep_view()[s],
                ) && write_views(r.0@) == score_writes(lines.deep_view(), s as nat) && if is_record(
                    lines.deep_view()[s].0,
                    DELIM,
                ) {
                    e is ValueDecode
                } else {
                    e is MalformedRecord
                },
        },
{
    let ghost dv = lines.deep_view();
    let mut writes: Vec<StoreWrite> = Vec::new();
    let mut i: usize = 0;
    while i < lines.len()
        invariant
            i <= lines.len(),
            dv == lines.deep_view(),
            forall|j: int| 0 <= j < i ==> score_line_ok(#[trigger] dv[j]),
            write_views(writes@) == score_writes(dv, i as nat),
        decreases lines.len() - i,
    {
        let key = match tuple2_from_split(lines[i].0.as_str(), DELIM) {
            Ok((key, _)) => key,
            Err(e) => {
                assert(dv[i as int].0 == lines[i as int].0@);
                assert(!score_line_ok(dv[i as int]));
                assert(write_views(writes@) == score_writes(dv, i as nat));
                return (writes, Err(e));
            },
        };
        let values = match &lines[i].1 {
            Some(values) => values,
            None => {
                assert(dv[i as int].0 == lines[i as int].0@);
                assert(dv[i as int].1 is None);
                assert(!score_line_ok(dv[i as int]));
                assert(write_views(writes@) == score_writes(dv, i as nat));
                return (writes, Err(LoadError::ValueDecode));
            },
        };
        let map = String::from_str(SCORES_NAMESPACE).concat(":").concat(key.as_str());
        let ghost old_w = writes@;
        match set_fields(map, indexed_entries(values)) {
            Some(w) => {
                writes.push(w);
                assert(write_views(writes@) =~= write_views(old_w).push(writes@.last()@));
            },
            None => {},
        }
        assert(score_line_ok(dv[i as int]));
        i = i + 1;
    }
    (writes, Ok(()))
}

/// The writes that load the target CTR of each action from the whole file
/// `data`, given the numbers read from its value (`None` where they could not
/// be read): field `i` gets the `i`th number. The file must be one record.
pub fn plan_action_value(data: &str, numbers: &Option<Vec<String>>) -> (r: Result<
    Vec<StoreWrite>,
    LoadError,
>)
    ensures
        match r {
            Ok(ws) => is_record(data@, DELIM) && numbers is Some && write_views(ws@)
                == value_writes(numbers.deep_view()->0),
            Err(e) => if !is_record(data@, DELIM) {
                e is MalformedRecord
            } else {
                numbers is None && e is ValueDecode
            },
        },
{
    match tuple2_from_split(data, DELIM) {
        Ok(_) => {},
        Err(e) => {
            return Err(e);
        },
    }
    let values = match numbers {
        Some(values) => values,
        None => {
            return Err(LoadError::ValueDecode);
        },
    };
    let entries = indexed_entries(values);
    let mut writes: Vec<StoreWrite> = Vec::new();
    let mut i: usize = 0;
    while i < values.len()
        invariant
            i <= values.len(),
            entries.len() == values.len(),
            entries.deep_view() == indexed(values.deep_view()),
            numbers.deep_view()->0 == values.deep_view(),
            write_views(writes@) =~= value_writes(values.deep_view()).take(i as int),
        decreases values.len() - i,
    {
        let ghost old_w = writes@;
        assert(values.deep_view()[i as int] == values[i as int]@);
        writes.push(
            StoreWrite::SetField {
                map: String::from_str(TARGET_CTR_MAP),
                field: entries[i].0.clone(),
                value: values[i].clone(),
            },
        );
        assert(entries.deep_view()[i as int].0 == entries[i as int].0@);
        assert(writes@.last()@ == value_writes(values.deep_view())[i as int]);
        assert(write_views(writes@) =~= write_views(old_w).push(writes@.last()@));
        assert(write_views(writes@) =~= value_writes(values.deep_view()).take(i + 1));
        i = i + 1;
    }
    Ok(writes)
}

/// Range signals have no loader yet: every kind is refused, and nothing is
/// read or written.
pub fn handle_range_signal(_cli: &Cli, _types: SignalType) -> (r: Result<(), LoadError>)
    ensures
        r matches Err(LoadError::NotImplemented),
{
    Err(LoadError::NotImplemented)
}

} // verus!
