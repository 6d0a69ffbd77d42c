//! The per-section rules that turn one raw fixture into an input and an
//! expected output.

use crate::json::{json_parse, json_render, parse_json, render_json, Json};
use crate::section::{text_eq, Section};
use vstd::prelude::*;

verus! {

/// Why a fixture could not be turned into a test.
#[derive(Debug, Clone, Copy, PartialEq, Eq, Structural)]
pub enum EntryError {
    /// No fixture stands at the requested position.
    IndexOutOfBounds,
    /// No fixture carries the requested name.
    NotFound,
    /// The path has no file name to derive a test name from.
    InvalidFileName,
    /// The fixture is not JSON.
    InvalidJson,
    /// The fixture's JSON has the wrong container shape.
    WrongShape,
    /// A member that the rule needs is absent.
    MissingField,
    /// A codec fixture has no raw-bytes sibling.
    MissingBinary,
    /// The scale does not fit the section's scale policy.
    ScaleMismatch,
}

/// The value of the last member named `key`.
pub open spec fn member(members: Seq<(String, Json)>, key: Seq<char>) -> Option<Json>
    decreases members.len(),
{
    if members.len() == 0 {
        None
    } else if members.last().0@ == key {
        Some(members.last().1)
    } else {
        member(members.drop_last(), key)
    }
}

/// The texts of a list of keys.
pub open spec fn key_texts(keys: Seq<&str>) -> Seq<Seq<char>> {
    keys.map_values(|k: &str| k@)
}

/// Whether every key names a member.
pub open spec fn has_members(members: Seq<(String, Json)>, keys: Seq<Seq<char>>) -> bool {
    forall|i: int| 0 <= i < keys.len() ==> (#[trigger] member(members, keys[i])) is Some
}

/// Whether `j` is an object with exactly the members `names`, in that order,
/// where the member at position `i` holds the value that `source` gives to
/// `keys[i]`.
pub open spec fn is_projection(
    j: Json,
    source: Seq<(String, Json)>,
    names: Seq<Seq<char>>,
    keys: Seq<Seq<char>>,
) -> bool {
    match j {
        Json::Object(v) => {
            &&& v@.len() == names.len()
            &&& keys.len() == names.len()
            &&& forall|i: int|
                0 <= i < names.len() ==> {
                    &&& (#[trigger] v@[i]).0@ == names[i]
                    &&& member(source, keys[i]) == Some(v@[i].1)
                }
        },
        _ => false,
    }
}

/// The members of an object, or none for any other value.
pub open spec fn members_of(j: Json) -> Seq<(String, Json)> {
    match j {
        Json::Object(v) => v@,
        _ => Seq::empty(),
    }
}

/// What a rule that reads members `keys` of one object finds wrong with `j`.
pub open spec fn object_problem(j: Json, keys: Seq<Seq<char>>) -> Option<EntryError> {
    match j {
        Json::Object(v) => if has_members(v@, keys) {
            None
        } else {
            Some(EntryError::MissingField)
        },
        _ => Some(EntryError::WrongShape),
    }
}

/// The problem of the first element of `items` that has one.
pub open spec fn first_problem(items: Seq<Json>, keys: Seq<Seq<char>>) -> Option<EntryError>
    decreases items.len(),
{
    if items.len() == 0 {
        None
    } else {
        match object_problem(items[0], keys) {
            Some(e) => Some(e),
            None => first_problem(items.drop_first(), keys),
        }
    }
}

/// The object rule: `doc` is an object; the input takes the members
/// `in_keys` under the names `in_names`, the output the members `out_keys`
/// under the names `out_names`.
pub open spec fn object_rule(
    doc: Json,
    in_names: Seq<Seq<char>>,
    in_keys: Seq<Seq<char>>,
    out_names: Seq<Seq<char>>,
    out_keys: Seq<Seq<char>>,
    r: Result<(Json, Json), EntryError>,
) -> bool {
    match object_problem(doc, in_keys + out_keys) {
        Some(e) => r == Err::<(Json, Json), EntryError>(e),
        None => match r {
            Ok((i, o)) => is_projection(i, members_of(doc), in_names, in_keys) && is_projection(
                o,
                members_of(doc),
                out_names,
                out_keys,
            ),
            Err(_) => false,
        },
    }
}

/// The array rule: `doc` is an array of objects; the input is the array of
/// their `in_keys` projections and the output the array of their `out_keys`
/// projections, element for element.
pub open spec fn array_rule(
    doc: Json,
    in_keys: Seq<Seq<char>>,
    out_keys: Seq<Seq<char>>,
    r: Result<(Json, Json), EntryError>,
) -> bool {
    match doc {
        Json::Array(items) => match first_problem(items@, in_keys + out_keys) {
            Some(e) => r == Err::<(Json, Json), EntryError>(e),
            None => match r {
                Ok((Json::Array(ins), Json::Array(outs))) => {
                    &&& ins@.len() == items@.len()
                    &&& outs@.len() == items@.len()
                    &&& forall|k: int|
                        0 <= k < items@.len() ==> is_projection(
                            #[trigger] ins@[k],
                            members_of(items@[k]),
                            in_keys,
                            in_keys,
                        ) && is_projection(outs@[k], members_of(items@[k]), out_keys, out_keys)
                },
                _ => false,
            },
        },
        _ => r == Err::<(Json, Json), EntryError>(EntryError::WrongShape),
    }
}

/// The position of `k` among `keys`.
fn find_key(keys: &Vec<&str>, k: &String) -> (r: Option<usize>)
    ensures
        match r {
            Some(i) => i < keys@.len() && keys@[i as int]@ == k@,
            None => forall|i: int| 0 <= i < keys@.len() ==> keys@[i]@ != k@,
        },
{
    let mut i: usize = 0;
    while i < keys.len()
        invariant
            i <= keys@.len(),
            forall|j: int| 0 <= j < i ==> keys@[j]@ != k@,
        decreases keys@.len() - i,
    {
        if text_eq(keys[i], k.as_str()) {
            return Some(i);
        }
        i += 1;
    }
    None
}

/// Moves the values of the members named by `keys` out of `members`.
fn pick_members(members: Vec<(String, Json)>, keys: &Vec<&str>) -> (r: Vec<Option<Json>>)
    requires
        key_texts(keys@).no_duplicates(),
    ensures
        r@.len() == keys@.len(),
        forall|i: int| 0 <= i < keys@.len() ==> r@[i] == member(members@, keys@[i]@),
{
    let mut slots: Vec<Option<Json>> = Vec::new();
    let mut j: usize = 0;
    while j < keys.len()
        invariant
            j <= keys@.len(),
            slots@.len() == j,
            forall|i: int| 0 <= i < j ==> slots@[i] is None,
        decreases keys@.len() - j,
    {
        slots.push(None);
        j += 1;
    }
    let mut rest = members;
    while rest.len() > 0
        invariant
            slots@.len() == keys@.len(),
            key_texts(keys@).no_duplicates(),
            forall|i: int|
                0 <= i < keys@.len() ==> member(members@, #[trigger] keys@[i]@) == if slots@[i] is Some {
                    slots@[i]
                } else {
                    member(rest@, keys@[i]@)
                },
        decreases rest@.len(),
    {
        let ghost before = rest@;
        let last = rest.pop();
        match last {
            Some((k, v)) => {
                let pos = find_key(keys, &k);
                match pos {
                    Some(p) => {
                        if slots[p].is_none() {
                            slots[p] = Some(v);
                        }
                        assert forall|i: int| 0 <= i < keys@.len() && i != p implies keys@[i]@
                            != k@ by {
                            assert(key_texts(keys@)[i] == keys@[i]@);
                            assert(key_texts(keys@)[p as int] == keys@[p as int]@);
                        }
                    },
                    None => {},
                }
                assert(rest@ == before.drop_last());
            },
            None => {},
        }
    }
    slots
}

/// Builds the object with members `names` from values that must all be present.
fn assemble(values: Vec<Option<Json>>, names: &Vec<&str>) -> (r: Option<Json>)
    requires
        values@.len() == names@.len(),
    ensures
        r is Some <==> forall|i: int| 0 <= i < values@.len() ==> values@[i] is Some,
        r matches Some(j) ==> j matches Json::Object(v) && v@.len() == names@.len() && forall|
            i: int,
        |
            0 <= i < names@.len() ==> (#[trigger] v@[i]).0@ == names@[i]@ && values@[i] == Some(
                v@[i].1,
            ),
{
    let ghost all = values@;
    let mut rest = values;
    let mut out: Vec<(String, Json)> = Vec::new();
    let mut i: usize = 0;
    while i < names.len()
        invariant
            all == values@,
            all.len() == names@.len(),
            i <= names@.len(),
            rest@ == all.subrange(i as int, all.len() as int),
            out@.len() == i,
            forall|t: int| 0 <= t < i ==> all[t] is Some,
            forall|t: int|
                0 <= t < i ==> (#[trigger] out@[t]).0@ == names@[t]@ && all[t] == Some(out@[t].1),
        decreases names@.len() - i,
    {
        let v = rest.remove(0);
        match v {
            Some(x) => {
                out.push((names[i].to_owned(), x));
            },
            None => {
                assert(all[i as int] is None);
                assert(!(forall|t: int| 0 <= t < all.len() ==> all[t] is Some));
                return None;
            },
        }
        i += 1;
    }
    Some(Json::Object(out))
}

/// Splits an object's members into an input and an output object.
fn split_members(
    members: Vec<(String, Json)>,
    in_names: &Vec<&str>,
    in_keys: &Vec<&str>,
    out_names: &Vec<&str>,
    out_keys: &Vec<&str>,
) -> (r: Option<(Json, Json)>)
    requires
        in_names@.len() == in_keys@.len(),
        out_names@.len() == out_keys@.len(),
        key_texts(in_keys@ + out_keys@).no_duplicates(),
    ensures
        r is Some <==> has_members(members@, key_texts(in_keys@) + key_texts(out_keys@)),
        r matches Some((i, o)) ==> is_projection(
            i,
            members@,
            key_texts(in_names@),
            key_texts(in_keys@),
        ) && is_projection(o, members@, key_texts(out_names@), key_texts(out_keys@)),
{
    let mut keys: Vec<&str> = Vec::new();
    let mut j: usize = 0;
    while j < in_keys.len()
        invariant
            j <= in_keys@.len(),
            keys@ == in_keys@.subrange(0, j as int),
        decreases in_keys@.len() - j,
    {
        keys.push(in_keys[j]);
        j += 1;
    }
    j = 0;
    while j < out_keys.len()
        invariant
            j <= out_keys@.len(),
            keys@ == in_keys@ + out_keys@.subrange(0, j as int),
        decreases out_keys@.len() - j,
    {
        keys.push(out_keys[j]);
        j += 1;
    }
    assert(keys@ =~= in_keys@ + out_keys@);
    let ghost src = members@;
    let mut slots = pick_members(members, &keys);
    let ghost full = slots@;
    let outs = slots.split_off(in_keys.len());
    let ghost all = key_texts(in_keys@) + key_texts(out_keys@);
    assert(all =~= key_texts(keys@));
    let i = assemble(slots, in_names);
    let o = assemble(outs, out_names);
    match (i, o) {
        (Some(i), Some(o)) => {
            assert(has_members(src, all)) by {
                assert forall|t: int| 0 <= t < all.len() implies (#[trigger] member(
                    src,
                    all[t],
                )) is Some by {
                    assert(all[t] == keys@[t]@);
                    let n = in_keys@.len() as int;
                    if t < n {
                        assert(slots@[t] == full[t]);
                    } else {
                        assert(outs@[t - n] == full[t]);
                    }
                }
            }
            Some((i, o))
        },
        _ => {
            assert(!has_members(src, all)) by {
                let n = in_keys@.len() as int;
                if exists|t: int| 0 <= t < n && slots@[t] is None {
                    let t = choose|t: int| 0 <= t < n && slots@[t] is None;
                    assert(all[t] == keys@[t]@);
                } else {
                    let t = choose|t: int| 0 <= t < out_keys@.len() && outs@[t] is None;
                    assert(all[n + t] == keys@[n + t]@);
                }
            }
            None
        },
    }
}

/// Applies the object rule with the given member names and keys.
fn project_object(
    doc: Json,
    in_names: &Vec<&str>,
    in_keys: &Vec<&str>,
    out_names: &Vec<&str>,
    out_keys: &Vec<&str>,
) -> (r: Result<(Json, Json), EntryError>)
    requires
        in_names@.len() == in_keys@.len(),
        out_names@.len() == out_keys@.len(),
        key_texts(in_keys@ + out_keys@).no_duplicates(),
    ensures
        object_rule(
            doc,
            key_texts(in_names@),
            key_texts(in_keys@),
            key_texts(out_names@),
            key_texts(out_keys@),
            r,
        ),
{
    match doc {
        Json::Object(members) => {
            match split_members(members, in_names, in_keys, out_names, out_keys) {
                Some(pair) => Ok(pair),
                None => Err(EntryError::MissingField),
            }
        },
        _ => Err(EntryError::WrongShape),
    }
}

/// Applies the array rule with the given keys.
fn project_array(doc: Json, in_keys: &Vec<&str>, out_keys: &Vec<&str>) -> (r: Result<
    (Json, Json),
    EntryError,
>)
    requires
        key_texts(in_keys@ + out_keys@).no_duplicates(),
    ensures
        array_rule(doc, key_texts(in_keys@), key_texts(out_keys@), r),
{
    let ghost keys = key_texts(in_keys@) + key_texts(out_keys@);
    match doc {
        Json::Array(items) => {
            let ghost all = items@;
            let n = items.len();
            let mut rest = items;
            let mut ins: Vec<Json> = Vec::new();
            let mut outs: Vec<Json> = Vec::new();
            let mut k: usize = 0;
            while k < n
                invariant
                    doc matches Json::Array(v) && v@ == all,
                    n == all.len(),
                    k <= n,
                    rest@ == all.subrange(k as int, n as int),
                    ins@.len() == k,
                    outs@.len() == k,
                    first_problem(all, keys) == first_problem(rest@, keys),
                    key_texts(in_keys@ + out_keys@).no_duplicates(),
                    keys == key_texts(in_keys@) + key_texts(out_keys@),
                    forall|t: int|
                        0 <= t < k ==> is_projection(
                            #[trigger] ins@[t],
                            members_of(all[t]),
                            key_texts(in_keys@),
                            key_texts(in_keys@),
                        ) && is_projection(
                            outs@[t],
                            members_of(all[t]),
                            key_texts(out_keys@),
                            key_texts(out_keys@),
                        ),
                decreases n - k,
            {
                let ghost before = rest@;
                let item = rest.remove(0);
                assert(rest@ =~= before.drop_first());
                let ghost head = item;
                assert(first_problem(before, keys) == match object_problem(head, keys) {
                    Some(e) => Some(e),
                    None => first_problem(rest@, keys),
                });
                match item {
                    Json::Object(members) => {
                        match split_members(members, in_keys, in_keys, out_keys, out_keys) {
                            Some((i, o)) => {
                                ins.push(i);
                                outs.push(o);
                            },
                            None => {
                                return Err(EntryError::MissingField);
                            },
                        }
                    },
                    _ => {
                        return Err(EntryError::WrongShape);
                    },
                }
                k += 1;
            }
            Ok((Json::Array(ins), Json::Array(outs)))
        },
        _ => Err(EntryError::WrongShape),
    }
}

/// The members a general fixture hands to the implementation.
pub open spec fn general_inputs() -> Seq<Seq<char>> {
    seq!["input"@, "pre_state"@]
}

/// The members a general fixture expects back.
pub open spec fn general_outputs() -> Seq<Seq<char>> {
    seq!["output"@, "post_state"@]
}

/// The names of the members of a pvm input.
pub open spec fn pvm_input_names() -> Seq<Seq<char>> {
    seq!["initial-regs"@, "initial-pc"@, "initial-page-map"@, "initial-memory"@, "initial-gas"@, "program"@]
}

/// The members of a pvm fixture that fill the input, name for name.
pub open spec fn pvm_input_keys() -> Seq<Seq<char>> {
    seq!["pre-state"@, "initial-pc"@, "initial-page-map"@, "initial-memory"@, "initial-gas"@, "program"@]
}

/// The members a pvm fixture expects back.
pub open spec fn pvm_outputs() -> Seq<Seq<char>> {
    seq!["expected-status"@, "expected-regs"@, "expected-pc"@, "expected-memory"@, "expected-gas"@]
}

/// The members a trace fixture hands to the implementation.
pub open spec fn trace_inputs() -> Seq<Seq<char>> {
    seq!["block"@, "pre_state"@]
}

/// The members a trace fixture expects back.
pub open spec fn trace_outputs() -> Seq<Seq<char>> {
    seq!["post_state"@]
}

/// The member of each trie vector that the implementation gets.
pub open spec fn trie_inputs() -> Seq<Seq<char>> {
    seq!["input"@]
}

/// The member of each trie vector that is expected back.
pub open spec fn trie_outputs() -> Seq<Seq<char>> {
    seq!["output"@]
}

/// The members of each shuffle vector that the implementation gets.
pub open spec fn shuffle_inputs() -> Seq<Seq<char>> {
    seq!["input"@, "entropy"@]
}

/// The member of each shuffle vector that is expected back.
pub open spec fn shuffle_outputs() -> Seq<Seq<char>> {
    seq!["output"@]
}

/// The member names that the rules read, as far as telling them apart
/// needs: each one's length and a character or two.
proof fn lemma_member_names()
    ensures
        "block"@.len() == 5,
        "block"@[0] == 'b',
        "block"@[1] == 'l',
        "entropy"@.len() == 7,
        "entropy"@[0] == 'e',
        "entropy"@[1] == 'n',
        "expected-gas"@.len() == 12,
        "expected-gas"@[0] == 'e',
        "expected-gas"@[1] == 'x',
        "expected-gas"@[9] == 'g',
        "expected-memory"@.len() == 15,
        "expected-memory"@[0] == 'e',
        "expected-memory"@[1] == 'x',
        "expected-memory"@[9] == 'm',
        "expected-pc"@.len() == 11,
        "expected-pc"@[0] == 'e',
        "expected-pc"@[1] == 'x',
        "expected-pc"@[9] == 'p',
        "expected-regs"@.len() == 13,
        "expected-regs"@[0] == 'e',
        "expected-regs"@[1] == 'x',
        "expected-regs"@[9] == 'r',
        "expected-status"@.len() == 15,
        "expected-status"@[0] == 'e',
        "expected-status"@[1] == 'x',
        "expected-status"@[9] == 's',
        "initial-gas"@.len() == 11,
        "initial-gas"@[0] == 'i',
        "initial-gas"@[1] == 'n',
        "initial-gas"@[9] == 'a',
        "initial-memory"@.len() == 14,
        "initial-memory"@[0] == 'i',
        "initial-memory"@[1] == 'n',
        "initial-memory"@[9] == 'e',
        "initial-page-map"@.len() == 16,
        "initial-page-map"@[0] == 'i',
        "initial-page-map"@[1] == 'n',
        "initial-page-map"@[9] == 'a',
        "initial-pc"@.len() == 10,
        "initial-pc"@[0] == 'i',
        "initial-pc"@[1] == 'n',
        "initial-pc"@[9] == 'c',
        "initial-regs"@.len() == 12,
        "initial-regs"@[0] == 'i',
        "initial-regs"@[1] == 'n',
        "initial-regs"@[9] == 'e',
        "input"@.len() == 5,
        "input"@[0] == 'i',
        "input"@[1] == 'n',
        "output"@.len() == 6,
        "output"@[0] == 'o',
        "output"@[1] == 'u',
        "post_state"@.len() == 10,
        "post_state"@[0] == 'p',
        "post_state"@[1] == 'o',
        "post_state"@[9] == 'e',
        "pre-state"@.len() == 9,
        "pre-state"@[0] == 'p',
        "pre-state"@[1] == 'r',
        "pre_state"@.len() == 9,
        "pre_state"@[0] == 'p',
        "pre_state"@[1] == 'r',
        "program"@.len() == 7,
        "program"@[0] == 'p',
        "program"@[1] == 'r',
{
    reveal_strlit("block");
    reveal_strlit("entropy");
    reveal_strlit("expected-gas");
    reveal_strlit("expected-memory");
    reveal_strlit("expected-pc");
    reveal_strlit("expected-regs");
    reveal_strlit("expected-status");
    reveal_strlit("initial-gas");
    reveal_strlit("initial-memory");
    reveal_strlit("initial-page-map");
    reveal_strlit("initial-pc");
    reveal_strlit("initial-regs");
    reveal_strlit("input");
    reveal_strlit("output");
    reveal_strlit("post_state");
    reveal_strlit("pre-state");
    reveal_strlit("pre_state");
    reveal_strlit("program");
}

/// The general rule: the input is `{input, pre_state}` and the output
/// `{output, post_state}`, taken from the fixture object; nothing else
/// passes.
pub fn project_general(doc: Json) -> (r: Result<(Json, Json), EntryError>)
    ensures
        object_rule(doc, general_inputs(), general_inputs(), general_outputs(), general_outputs(), r),
{
    let in_names: Vec<&str> = vec!["input", "pre_state"];
    let in_keys: Vec<&str> = vec!["input", "pre_state"];
    let out_keys: Vec<&str> = vec!["output", "post_state"];
    proof {
        lemma_member_names();
        assert(key_texts(in_names@) =~= general_inputs());
        assert(key_texts(in_keys@) =~= general_inputs());
        assert(key_texts(out_keys@) =~= general_outputs());
        assert(key_texts(in_keys@ + out_keys@).no_duplicates());
    }
    project_object(doc, &in_names, &in_keys, &out_keys, &out_keys)
}

/// The pvm rule: the input reassembles the initial state and program (the
/// registers from `pre-state`), the output the expected final state.
pub fn project_pvm(doc: Json) -> (r: Result<(Json, Json), EntryError>)
    ensures
        object_rule(doc, pvm_input_names(), pvm_input_keys(), pvm_outputs(), pvm_outputs(), r),
{
    let in_names: Vec<&str> = vec![
        "initial-regs",
        "initial-pc",
        "initial-page-map",
        "initial-memory",
        "initial-gas",
        "program",
    ];
    let in_keys: Vec<&str> = vec![
        "pre-state",
        "initial-pc",
        "initial-page-map",
        "initial-memory",
        "initial-gas",
        "program",
    ];
    let out_keys: Vec<&str> = vec![
        "expected-status",
        "expected-regs",
        "expected-pc",
        "expected-memory",
        "expected-gas",
    ];
    proof {
        lemma_member_names();
        assert(key_texts(in_names@) =~= pvm_input_names());
        assert(key_texts(in_keys@) =~= pvm_input_keys());
        assert(key_texts(out_keys@) =~= pvm_outputs());
        assert(key_texts(in_keys@ + out_keys@).no_duplicates());
    }
    project_object(doc, &in_names, &in_keys, &out_keys, &out_keys)
}

/// The trace rule: the input is `{block, pre_state}` and the output
/// `{post_state}`.
pub fn project_trace(doc: Json) -> (r: Result<(Json, Json), EntryError>)
    ensures
        object_rule(doc, trace_inputs(), trace_inputs(), trace_outputs(), trace_outputs(), r),
{
    let in_names: Vec<&str> = vec!["block", "pre_state"];
    let in_keys: Vec<&str> = vec!["block", "pre_state"];
    let out_keys: Vec<&str> = vec!["post_state"];
    proof {
        lemma_member_names();
        assert(key_texts(in_names@) =~= trace_inputs());
        assert(key_texts(in_keys@) =~= trace_inputs());
        assert(key_texts(out_keys@) =~= trace_outputs());
        assert(key_texts(in_keys@ + out_keys@).no_duplicates());
    }
    project_object(doc, &in_names, &in_keys, &out_keys, &out_keys)
}

/// The trie rule: the fixture is an array; the input is the array of each
/// element's `{input}`, the output that of each element's `{output}`, in
/// the same order.
pub fn project_trie(doc: Json) -> (r: Result<(Json, Json), EntryError>)
    ensures
        array_rule(doc, trie_inputs(), trie_outputs(), r),
{
    let in_keys: Vec<&str> = vec!["input"];
    let out_keys: Vec<&str> = vec!["output"];
    proof {
        lemma_member_names();
        assert(key_texts(in_keys@) =~= trie_inputs());
        assert(key_texts(out_keys@) =~= trie_outputs());
        assert(key_texts(in_keys@ + out_keys@).no_duplicates());
    }
    project_array(doc, &in_keys, &out_keys)
}

/// The shuffle rule: the fixture is an array; the input is the array of
/// each element's `{input, entropy}`, the output that of each element's
/// `{output}`, in the same order.
pub fn project_shuffle(doc: Json) -> (r: Result<(Json, Json), EntryError>)
    ensures
        array_rule(doc, shuffle_inputs(), shuffle_outputs(), r),
{
    let in_keys: Vec<&str> = vec!["input", "entropy"];
    let out_keys: Vec<&str> = vec!["output"];
    proof {
        lemma_member_names();
        assert(key_texts(in_keys@) =~= shuffle_inputs());
        assert(key_texts(out_keys@) =~= shuffle_outputs());
        assert(key_texts(in_keys@ + out_keys@).no_duplicates());
    }
    project_array(doc, &in_keys, &out_keys)
}

/// The rule of a section applied to its fixture's JSON document `doc`; a
/// codec fixture needs its raw bytes besides.
pub open spec fn rule(section: Section, doc: Json, r: Result<(Json, Json), EntryError>) -> bool {
    match section {
        Section::Codec => r == Err::<(Json, Json), EntryError>(EntryError::MissingBinary),
        Section::Pvm => object_rule(
            doc,
            pvm_input_names(),
            pvm_input_keys(),
            pvm_outputs(),
            pvm_outputs(),
            r,
        ),
        Section::Trace(_) => object_rule(
            doc,
            trace_inputs(),
            trace_inputs(),
            trace_outputs(),
            trace_outputs(),
            r,
        ),
        Section::Trie => array_rule(doc, trie_inputs(), trie_outputs(), r),
        Section::Shuffle => array_rule(doc, shuffle_inputs(), shuffle_outputs(), r),
        _ => object_rule(
            doc,
            general_inputs(),
            general_inputs(),
            general_outputs(),
            general_outputs(),
            r,
        ),
    }
}

/// Applies the rule of `section` to a parsed fixture.
pub fn normalize_doc(section: Section, doc: Json) -> (r: Result<(Json, Json), EntryError>)
    ensures
        rule(section, doc, r),
{
    match section {
        Section::Codec => Err(EntryError::MissingBinary),
        Section::Pvm => project_pvm(doc),
        Section::Trace(_) => project_trace(doc),
        Section::Trie => project_trie(doc),
        Section::Shuffle => project_shuffle(doc),
        _ => project_general(doc),
    }
}

/// A hexadecimal digit, in lower case.
pub open spec fn hex_digit(n: int) -> char {
    seq!['0', '1', '2', '3', '4', '5', '6', '7', '8', '9', 'a', 'b', 'c', 'd', 'e', 'f'][n]
}

/// Two lower-case hexadecimal digits per byte, the high half first.
pub open spec fn hex_of(b: Seq<u8>) -> Seq<char>
    decreases b.len(),
{
    if b.len() == 0 {
        Seq::empty()
    } else {
        hex_of(b.drop_last()) + seq![hex_digit(b.last() as int / 16), hex_digit(b.last() as int % 16)]
    }
}

/// Relies on hex::encode: two lower-case digits per byte, high half first.
#[verifier::external_body]
fn hex_encode(b: &[u8]) -> (r: String)
    ensures
        r@ == hex_of(b@),
{
    hex::encode(b)
}

/// The contents of optional bytes.
pub open spec fn bytes_of(bin: Option<&[u8]>) -> Option<Seq<u8>> {
    match bin {
        Some(b) => Some(b@),
        None => None,
    }
}

/// The texts of a normalized pair.
pub open spec fn texts_of(r: Result<(String, String), EntryError>) -> Result<
    (Seq<char>, Seq<char>),
    EntryError,
> {
    match r {
        Ok((i, o)) => Ok((i@, o@)),
        Err(e) => Err(e),
    }
}

/// What normalizing a fixture of `section` with JSON text `text` and raw
/// sibling bytes `bin` gives: the input and output texts, or the error.
///
/// A codec fixture needs its bytes: the input is their hexadecimal form and
/// the output the JSON text as it stands. Any other fixture must parse as
/// JSON; the section's rule then splits the document, and both halves are
/// written as compact JSON.
pub open spec fn normal_form(
    section: Section,
    text: Seq<char>,
    bin: Option<Seq<u8>>,
    r: Result<(Seq<char>, Seq<char>), EntryError>,
) -> bool {
    if section == Section::Codec {
        match bin {
            None => r == Err::<(Seq<char>, Seq<char>), EntryError>(EntryError::MissingBinary),
            Some(b) => r == Ok::<(Seq<char>, Seq<char>), EntryError>((hex_of(b), text)),
        }
    } else {
        match json_parse(text) {
            None => r == Err::<(Seq<char>, Seq<char>), EntryError>(EntryError::InvalidJson),
            Some(doc) => match r {
                Ok((i, o)) => exists|ji: Json, jo: Json|
                    rule(section, doc, Ok((ji, jo))) && i == json_render(ji) && o == json_render(
                        jo,
                    ),
                Err(e) => rule(section, doc, Err(e)),
            },
        }
    }
}

/// Turns one fixture into its input and expected output texts, as
/// `normal_form` describes.
pub fn normalize(section: Section, text: &str, bin: Option<&[u8]>) -> (r: Result<
    (String, String),
    EntryError,
>)
    ensures
        normal_form(section, text@, bytes_of(bin), texts_of(r)),
{
    if section == Section::Codec {
        match bin {
            None => Err(EntryError::MissingBinary),
            Some(b) => Ok((hex_encode(b), text.to_owned())),
        }
    } else {
        match parse_json(text) {
            None => Err(EntryError::InvalidJson),
            Some(doc) => {
                let ghost d = doc;
                match normalize_doc(section, doc) {
                    Ok((ji, jo)) => {
                        let i = render_json(&ji);
                        let o = render_json(&jo);
                        assert(rule(section, d, Ok((ji, jo))));
                        Ok((i, o))
                    },
                    Err(e) => Err(e),
                }
            },
        }
    }
}

} // verus!
