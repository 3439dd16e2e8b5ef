//! Decoding of the cluster's info-protocol responses: `;` separates entries,
//! `:` separates fields within an entry, and the first `=` of a field
//! separates its key from its value.

use vstd::prelude::*;

use crate::text::{field_key, field_value, spec_split, split_field, split_string};

verus! {

/// Statistics of one set, decoded from one entry of a `sets/<namespace>`
/// info response. `size_bytes` is absent in early protocol revisions.
#[derive(Debug, PartialEq, Eq, Clone)]
pub struct SetStats {
    pub set: String,
    pub objects: String,
    pub size_bytes: Option<String>,
}

/// The mathematical shape of a [`SetStats`].
#[verifier::ext_equal]
pub struct SetStatsView {
    pub set: Seq<char>,
    pub objects: Seq<char>,
    pub size_bytes: Option<Seq<char>>,
}

impl View for SetStats {
    type V = SetStatsView;

    open spec fn view(&self) -> SetStatsView {
        SetStatsView {
            set: self.set@,
            objects: self.objects@,
            size_bytes: match self.size_bytes {
                Some(s) => Some(s@),
                None => None,
            },
        }
    }
}

/// Whether the field `f` carries the key `key`: the key stands before the
/// first `=`, and the `=` must be there — a bare word is no `key=value`
/// field.
pub open spec fn field_has_key(f: Seq<char>, key: Seq<char>) -> bool {
    field_key(f) == key && field_key(f).len() < f.len()
}

/// Whether some field of the entry carries the key `key`.
pub open spec fn has_field(fields: Seq<Seq<char>>, key: Seq<char>) -> bool {
    exists|i: int| 0 <= i < fields.len() && field_has_key(fields[i], key)
}

/// The value of the last field carrying the key `key`; a later repetition
/// of a key overwrites an earlier one.
pub open spec fn last_field_value(fields: Seq<Seq<char>>, key: Seq<char>) -> Seq<char>
    decreases fields.len(),
{
    if fields.len() == 0 {
        Seq::empty()
    } else if field_has_key(fields.last(), key) {
        field_value(fields.last())
    } else {
        last_field_value(fields.drop_last(), key)
    }
}

/// The statistics decoded from one `;`-delimited entry: its `:`-delimited
/// fields accumulate into one record, which is kept only when both required
/// keys, `set` and `objects`, are present. Unknown keys are ignored.
pub open spec fn spec_entry_stats(entry: Seq<char>) -> Option<SetStatsView> {
    let fields = spec_split(entry, ':');
    if has_field(fields, "set"@) && has_field(fields, "objects"@) {
        Some(
            SetStatsView {
                set: last_field_value(fields, "set"@),
                objects: last_field_value(fields, "objects"@),
                size_bytes: if has_field(fields, "memory_data_bytes"@) {
                    Some(last_field_value(fields, "memory_data_bytes"@))
                } else {
                    None
                },
            },
        )
    } else {
        None
    }
}

/// One [`SetStats`] per entry that carries both required keys; entries
/// missing either are dropped.
pub open spec fn spec_stats_of(entries: Seq<Seq<char>>) -> Seq<SetStatsView>
    decreases entries.len(),
{
    if entries.len() == 0 {
        Seq::empty()
    } else {
        spec_stats_of(entries.drop_last()) + match spec_entry_stats(entries.last()) {
            Some(st) => seq![st],
            None => Seq::<SetStatsView>::empty(),
        }
    }
}

/// The set statistics of a whole `sets/<namespace>` info response.
pub open spec fn spec_set_stats_list(raw: Seq<char>) -> Seq<SetStatsView> {
    spec_stats_of(spec_split(raw, ';'))
}

/// The namespaces of a `namespaces` info response: the `;`-delimited names,
/// except that an empty response names no namespace at all.
pub open spec fn spec_namespace_list(raw: Seq<char>) -> Seq<Seq<char>> {
    if raw.len() == 0 {
        Seq::empty()
    } else {
        spec_split(raw, ';')
    }
}

/// Law: the decoded statistics are exactly the decodable entries, in order
/// — one record per entry that carries both the `set` and the `objects`
/// key, and none for an entry missing either.
pub proof fn lemma_one_stats_record_per_complete_entry(entries: Seq<Seq<char>>)
    ensures
        spec_stats_of(entries) == entries.filter_map(|e: Seq<char>| spec_entry_stats(e)),
        spec_stats_of(entries).len() == entries.filter(
            |e: Seq<char>| spec_entry_stats(e) is Some,
        ).len(),
    decreases entries.len(),
{
    reveal(Seq::filter);
    if entries.len() > 0 {
        lemma_one_stats_record_per_complete_entry(entries.drop_last());
        assert(spec_stats_of(entries) =~= entries.filter_map(
            |e: Seq<char>| spec_entry_stats(e),
        ));
    }
}

/// Decodes a `namespaces` info response, as [`spec_namespace_list`]
/// describes.
pub fn parse_namespace_list(raw: &str) -> (r: Vec<String>)
    ensures
        r.deep_view() == spec_namespace_list(raw@),
{
    if raw.is_empty() {
        let r: Vec<String> = Vec::new();
        proof {
            assert(r.deep_view() =~= Seq::<Seq<char>>::empty());
        }
        r
    } else {
        split_string(raw, ';')
    }
}

/// Decodes one entry of a set-statistics response, as [`spec_entry_stats`]
/// describes: `None` when a required key is missing, which drops the entry.
pub fn parse_set_stats_entry(entry: &str) -> (r: Option<SetStats>)
    ensures
        match r {
            Some(st) => spec_entry_stats(entry@) == Some(st@),
            None => spec_entry_stats(entry@) is None,
        },
{
    let fields = split_string(entry, ':');
    let key_set = String::from_str("set");
    let key_objects = String::from_str("objects");
    let key_size = String::from_str("memory_data_bytes");
    let mut set_v: Option<String> = None;
    let mut objects_v: Option<String> = None;
    let mut size_v: Option<String> = None;
    let ghost all = fields.deep_view();
    let mut i: usize = 0;
    while i < fields.len()
        invariant
            i <= fields.len(),
            all == fields.deep_view(),
            key_set@ == "set"@,
            key_objects@ == "objects"@,
            key_size@ == "memory_data_bytes"@,
            set_v is Some <==> has_field(all.subrange(0, i as int), "set"@),
            objects_v is Some <==> has_field(all.subrange(0, i as int), "objects"@),
            size_v is Some <==> has_field(all.subrange(0, i as int), "memory_data_bytes"@),
            set_v matches Some(s) ==> s@ == last_field_value(all.subrange(0, i as int), "set"@),
            objects_v matches Some(s) ==> s@ == last_field_value(
                all.subrange(0, i as int),
                "objects"@,
            ),
            size_v matches Some(s) ==> s@ == last_field_value(
                all.subrange(0, i as int),
                "memory_data_bytes"@,
            ),
        decreases fields.len() - i,
    {
        let (k, v) = split_field(fields[i].as_str());
        let has_eq = k.as_str().unicode_len() < fields[i].as_str().unicode_len();
        proof {
            reveal_strlit("set");
            reveal_strlit("objects");
            reveal_strlit("memory_data_bytes");
            assert("set"@.len() == 3);
            assert("objects"@.len() == 7);
            assert("memory_data_bytes"@.len() == 17);
            assert("set"@ != "objects"@);
            assert("set"@ != "memory_data_bytes"@);
            assert("objects"@ != "memory_data_bytes"@);
            assert(all.subrange(0, i + 1).drop_last() =~= all.subrange(0, i as int));
            assert(all.subrange(0, i + 1).last() == all[i as int]);
            assert forall|key: Seq<char>|
                has_field(all.subrange(0, i + 1), key) == (has_field(all.subrange(0, i as int), key)
                    || field_has_key(all[i as int], key)) by {
                let pre = all.subrange(0, i as int);
                let ext = all.subrange(0, i + 1);
                if has_field(pre, key) {
                    let w = choose|j: int| 0 <= j < pre.len() && field_has_key(pre[j], key);
                    assert(0 <= w < ext.len() && field_has_key(ext[w], key));
                }
                if field_has_key(all[i as int], key) {
                    assert(field_has_key(ext[i as int], key));
                }
                if has_field(ext, key) && !field_has_key(all[i as int], key) {
                    let w = choose|j: int| 0 <= j < ext.len() && field_has_key(ext[j], key);
                    assert(0 <= w < pre.len() && field_has_key(pre[w], key));
                }
            }
        }
        if has_eq && k.eq(&key_set) {
            set_v = Some(v);
        } else if has_eq && k.eq(&key_objects) {
            objects_v = Some(v);
        } else if has_eq && k.eq(&key_size) {
            size_v = Some(v);
        }
        i = i + 1;
    }
    proof {
        assert(all.subrange(0, fields.len() as int) =~= all);
    }
    match (set_v, objects_v) {
        (Some(set), Some(objects)) => {
            let st = SetStats { set, objects, size_bytes: size_v };
            proof {
                assert(spec_entry_stats(entry@) == Some(st@)) by {
                    assert(spec_entry_stats(entry@) matches Some(e) && e =~= st@);
                }
            }
            Some(st)
        },
        _ => None,
    }
}

/// Decodes a whole set-statistics response, as [`spec_set_stats_list`]
/// describes: one record per entry that carries both required keys.
pub fn parse_set_stats_list(raw: &str) -> (r: Vec<SetStats>)
    ensures
        r@.map_values(|st: SetStats| st@) == spec_set_stats_list(raw@),
{
    let entries = split_string(raw, ';');
    let ghost all = entries.deep_view();
    let mut r: Vec<SetStats> = Vec::new();
    proof {
        assert(r@.map_values(|st: SetStats| st@) =~= spec_stats_of(all.subrange(0, 0)));
    }
    let mut i: usize = 0;
    while i < entries.len()
        invariant
            i <= entries.len(),
            all == entries.deep_view(),
            r@.map_values(|st: SetStats| st@) == spec_stats_of(all.subrange(0, i as int)),
        decreases entries.len() - i,
    {
        let ghost old_r = r@.map_values(|st: SetStats| st@);
        proof {
            assert(all.subrange(0, i + 1).drop_last() =~= all.subrange(0, i as int));
            assert(all.subrange(0, i + 1).last() == all[i as int]);
        }
        match parse_set_stats_entry(entries[i].as_str()) {
            Some(st) => {
                r.push(st);
                proof {
                    assert(r@.map_values(|st: SetStats| st@) =~= old_r + seq![r@.last()@]);
                }
            },
            None => {
                proof {
                    assert(spec_stats_of(all.subrange(0, i + 1)) =~= old_r);
                }
            },
        }
        i = i + 1;
    }
    proof {
        assert(all.subrange(0, entries.len() as int) =~= all);
    }
    r
}

} // verus!
