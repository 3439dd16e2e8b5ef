//! Normalization of a cluster record's heterogeneous field values into one
//! uniform shape: every field keeps its name and its value becomes the
//! canonical display string of its content, whatever its native type.

use vstd::prelude::*;

verus! {

/// A field value as the cluster hands it back.
#[derive(Debug, PartialEq, Eq)]
pub enum FieldValue {
    Nil,
    Bool(bool),
    Int(i64),
    Str(String),
    Blob(Vec<u8>),
    List(Vec<FieldValue>),
}

/// The character of one base-16 digit; the first ten double as the decimal
/// digits.
pub open spec fn spec_digit(d: int) -> char {
    if d == 0 {
        '0'
    } else if d == 1 {
        '1'
    } else if d == 2 {
        '2'
    } else if d == 3 {
        '3'
    } else if d == 4 {
        '4'
    } else if d == 5 {
        '5'
    } else if d == 6 {
        '6'
    } else if d == 7 {
        '7'
    } else if d == 8 {
        '8'
    } else if d == 9 {
        '9'
    } else if d == 10 {
        'a'
    } else if d == 11 {
        'b'
    } else if d == 12 {
        'c'
    } else if d == 13 {
        'd'
    } else if d == 14 {
        'e'
    } else {
        'f'
    }
}

/// The decimal digits of `n`, most significant first, without leading
/// zeroes (zero itself is one digit).
pub open spec fn spec_nat_digits(n: nat) -> Seq<char>
    decreases n,
{
    if n < 10 {
        seq![spec_digit(n as int)]
    } else {
        spec_nat_digits(n / 10).push(spec_digit((n % 10) as int))
    }
}

/// The canonical display of an integer: its decimal digits, with a leading
/// minus sign when negative.
pub open spec fn spec_int_display(i: int) -> Seq<char> {
    if i < 0 {
        seq!['-'] + spec_nat_digits((-i) as nat)
    } else {
        spec_nat_digits(i as nat)
    }
}

/// The two lowercase base-16 digits of one byte.
pub open spec fn spec_byte_hex(b: u8) -> Seq<char> {
    seq![spec_digit(b as int / 16), spec_digit(b as int % 16)]
}

/// The canonical display of binary content: the bytes' base-16 digits in
/// order.
pub open spec fn spec_blob_display(bytes: Seq<u8>) -> Seq<char>
    decreases bytes.len(),
{
    if bytes.len() == 0 {
        Seq::empty()
    } else {
        spec_blob_display(bytes.drop_last()) + spec_byte_hex(bytes.last())
    }
}

/// The canonical display string of a field value, irrespective of its
/// native type.
pub open spec fn spec_display(v: FieldValue) -> Seq<char>
    decreases v,
{
    match v {
        FieldValue::Nil => "NULL"@,
        FieldValue::Bool(b) => if b {
            "true"@
        } else {
            "false"@
        },
        FieldValue::Int(i) => spec_int_display(i as int),
        FieldValue::Str(s) => s@,
        FieldValue::Blob(bytes) => spec_blob_display(bytes@),
        FieldValue::List(items) => seq!['['] + spec_list_display(items@) + seq![']'],
    }
}

/// The members of a list's display, separated by a comma and a space.
pub open spec fn spec_list_display(items: Seq<FieldValue>) -> Seq<char>
    decreases items,
{
    if items.len() == 0 {
        Seq::empty()
    } else if items.len() == 1 {
        spec_display(items.last())
    } else {
        spec_list_display(items.drop_last()) + seq![',', ' '] + spec_display(items.last())
    }
}

/// Relies on String::push: appends the given character to the end of the
/// string.
#[verifier::external_body]
fn push_char(s: &mut String, c: char)
    ensures
        final (s)@ == old(s)@.push(c),
{
    s.push(c);
}

/// The character of one digit below 16, as [`spec_digit`] gives it.
fn digit_char(d: u8) -> (c: char)
    requires
        d < 16,
    ensures
        c == spec_digit(d as int),
{
    match d {
        0 => '0',
        1 => '1',
        2 => '2',
        3 => '3',
        4 => '4',
        5 => '5',
        6 => '6',
        7 => '7',
        8 => '8',
        9 => '9',
        10 => 'a',
        11 => 'b',
        12 => 'c',
        13 => 'd',
        14 => 'e',
        _ => 'f',
    }
}

/// Renders an unsigned integer in decimal, as [`spec_nat_digits`]
/// describes.
fn format_u64(n: u64) -> (s: String)
    ensures
        s@ == spec_nat_digits(n as nat),
    decreases n,
{
    if n < 10 {
        let mut s = String::new();
        push_char(&mut s, digit_char(n as u8));
        proof {
            assert(s@ =~= seq![spec_digit(n as int)]);
        }
        s
    } else {
        let mut s = format_u64(n / 10);
        push_char(&mut s, digit_char((n % 10) as u8));
        s
    }
}

/// Renders a signed integer in decimal, as [`spec_int_display`] describes.
fn format_i64(i: i64) -> (s: String)
    ensures
        s@ == spec_int_display(i as int),
{
    if i >= 0 {
        format_u64(i as u64)
    } else {
        let mag: u64 = ((-(i + 1)) as u64) + 1;
        let digits = format_u64(mag);
        let mut s = String::from_str("-");
        proof {
            reveal_strlit("-");
            assert(s@ =~= seq!['-']);
        }
        s.append(digits.as_str());
        s
    }
}

/// Renders binary content as base-16 digits, as [`spec_blob_display`]
/// describes.
fn format_blob(bytes: &Vec<u8>) -> (s: String)
    ensures
        s@ == spec_blob_display(bytes@),
{
    let mut s = String::new();
    proof {
        assert(s@ =~= spec_blob_display(bytes@.subrange(0, 0)));
    }
    let mut i: usize = 0;
    while i < bytes.len()
        invariant
            i <= bytes.len(),
            s@ == spec_blob_display(bytes@.subrange(0, i as int)),
        decreases bytes.len() - i,
    {
        proof {
            assert(bytes@.subrange(0, i + 1).drop_last() =~= bytes@.subrange(0, i as int));
            assert(bytes@.subrange(0, i + 1).last() == bytes@[i as int]);
        }
        let b = bytes[i];
        push_char(&mut s, digit_char(b / 16));
        push_char(&mut s, digit_char(b % 16));
        proof {
            assert(s@ =~= spec_blob_display(bytes@.subrange(0, i as int)) + spec_byte_hex(
                bytes@[i as int],
            ));
        }
        i = i + 1;
    }
    proof {
        assert(bytes@.subrange(0, bytes@.len() as int) =~= bytes@);
    }
    s
}

/// Renders one field value into its canonical display string, as
/// [`spec_display`] describes.
pub fn render_value(v: &FieldValue) -> (s: String)
    ensures
        s@ == spec_display(*v),
    decreases *v,
{
    match v {
        FieldValue::Nil => String::from_str("NULL"),
        FieldValue::Bool(b) => if *b {
            String::from_str("true")
        } else {
            String::from_str("false")
        },
        FieldValue::Int(i) => format_i64(*i),
        FieldValue::Str(s) => s.clone(),
        FieldValue::Blob(bytes) => format_blob(bytes),
        FieldValue::List(items) => {
            let mut s = String::from_str("[");
            proof {
                reveal_strlit("[");
                assert(s@ =~= seq!['['] + spec_list_display(items@.subrange(0, 0)));
            }
            let mut j: usize = 0;
            while j < items.len()
                invariant
                    j <= items.len(),
                    s@ == seq!['['] + spec_list_display(items@.subrange(0, j as int)),
                    *v == FieldValue::List(*items),
                decreases items.len() - j,
            {
                proof {
                    assert(items@.subrange(0, j + 1).drop_last() =~= items@.subrange(0, j as int));
                    assert(items@.subrange(0, j + 1).last() == items@[j as int]);
                    assert(decreases_to!(*v => (*v)->List_0));
                    assert((*v)->List_0 == *items);
                    assert(decreases_to!(*items => items@));
                    assert(decreases_to!(items@ => items@[j as int]));
                    assert(decreases_to!(*v => items@[j as int]));
                }
                if j > 0 {
                    s.append(", ");
                    proof {
                        reveal_strlit(", ");
                        assert(", "@ =~= seq![',', ' ']);
                    }
                }
                let e = render_value(&items[j]);
                s.append(e.as_str());
                j = j + 1;
            }
            proof {
                assert(items@.subrange(0, items@.len() as int) =~= items@);
            }
            s.append("]");
            proof {
                reveal_strlit("]");
                assert("]"@ =~= seq![']']);
            }
            s
        },
    }
}

/// The normalized shape of a raw record: every field keeps its name, and
/// its value becomes the canonical display string of its content.
pub open spec fn spec_normalize(raw: Seq<(String, FieldValue)>) -> Seq<(Seq<char>, Seq<char>)> {
    raw.map_values(|p: (String, FieldValue)| (p.0@, spec_display(p.1)))
}

/// Normalizes one raw record, as [`spec_normalize`] describes: the field
/// names are preserved exactly — none renamed, none dropped.
pub fn normalize(raw: &Vec<(String, FieldValue)>) -> (r: Vec<(String, String)>)
    ensures
        r.deep_view() == spec_normalize(raw@),
{
    let mut r: Vec<(String, String)> = Vec::new();
    proof {
        assert(r.deep_view() =~= spec_normalize(raw@.subrange(0, 0)));
    }
    let mut i: usize = 0;
    while i < raw.len()
        invariant
            i <= raw.len(),
            r.deep_view() == spec_normalize(raw@.subrange(0, i as int)),
        decreases raw.len() - i,
    {
        let ghost old_r = r.deep_view();
        let name = raw[i].0.clone();
        let value = render_value(&raw[i].1);
        r.push((name, value));
        proof {
            assert(r.deep_view() =~= old_r.push((raw@[i as int].0@, spec_display(
                raw@[i as int].1,
            ))));
            assert(spec_normalize(raw@.subrange(0, i + 1)) =~= old_r.push((
                raw@[i as int].0@,
                spec_display(raw@[i as int].1),
            )));
        }
        i = i + 1;
    }
    proof {
        assert(raw@.subrange(0, raw@.len() as int) =~= raw@);
    }
    r
}

/// Normalizes every record of a scan or query result, in order.
pub fn normalize_all(raws: &Vec<Vec<(String, FieldValue)>>) -> (r: Vec<Vec<(String, String)>>)
    ensures
        r.deep_view() == raws@.map_values(|raw: Vec<(String, FieldValue)>| spec_normalize(raw@)),
{
    let mut r: Vec<Vec<(String, String)>> = Vec::new();
    proof {
        assert(r.deep_view() =~= raws@.subrange(0, 0).map_values(
            |raw: Vec<(String, FieldValue)>| spec_normalize(raw@),
        ));
    }
    let mut i: usize = 0;
    while i < raws.len()
        invariant
            i <= raws.len(),
            r.deep_view() == raws@.subrange(0, i as int).map_values(
                |raw: Vec<(String, FieldValue)>| spec_normalize(raw@),
            ),
        decreases raws.len() - i,
    {
        let ghost old_r = r.deep_view();
        let rec = normalize(&raws[i]);
        r.push(rec);
        proof {
            assert(r.deep_view() =~= old_r.push(spec_normalize(raws@[i as int]@)));
            assert(raws@.subrange(0, i + 1).map_values(
                |raw: Vec<(String, FieldValue)>| spec_normalize(raw@),
            ) =~= old_r.push(spec_normalize(raws@[i as int]@)));
        }
        i = i + 1;
    }
    proof {
        assert(raws@.subrange(0, raws@.len() as int) =~= raws@);
    }
    r
}

/// The records of a batched point lookup: entries that failed to resolve
/// are omitted — absence, not null, is the "not found" signal.
pub open spec fn spec_batch_records(results: Seq<Option<Vec<(String, FieldValue)>>>) -> Seq<
    Seq<(Seq<char>, Seq<char>)>,
>
    decreases results.len(),
{
    if results.len() == 0 {
        Seq::empty()
    } else {
        spec_batch_records(results.drop_last()) + match results.last() {
            Some(raw) => seq![spec_normalize(raw@)],
            None => Seq::<Seq<(Seq<char>, Seq<char>)>>::empty(),
        }
    }
}

/// Normalizes the outcomes of a batched point lookup, as
/// [`spec_batch_records`] describes: one record per resolved entry,
/// unresolved entries omitted rather than aborting the batch.
pub fn collect_batch_records(results: &Vec<Option<Vec<(String, FieldValue)>>>) -> (r: Vec<
    Vec<(String, String)>,
>)
    ensures
        r.deep_view() == spec_batch_records(results@),
{
    let mut r: Vec<Vec<(String, String)>> = Vec::new();
    proof {
        assert(r.deep_view() =~= spec_batch_records(results@.subrange(0, 0)));
    }
    let mut i: usize = 0;
    while i < results.len()
        invariant
            i <= results.len(),
            r.deep_view() == spec_batch_records(results@.subrange(0, i as int)),
        decreases results.len() - i,
    {
        let ghost old_r = r.deep_view();
        proof {
            assert(results@.subrange(0, i + 1).drop_last() =~= results@.subrange(0, i as int));
            assert(results@.subrange(0, i + 1).last() == results@[i as int]);
        }
        match &results[i] {
            Some(raw) => {
                let rec = normalize(raw);
                r.push(rec);
                proof {
                    assert(r.deep_view() =~= old_r.push(spec_normalize(
                        results@[i as int]->Some_0@,
                    )));
                }
            },
            None => {
                proof {
                    assert(spec_batch_records(results@.subrange(0, i + 1)) =~= old_r);
                }
            },
        }
        i = i + 1;
    }
    proof {
        assert(results@.subrange(0, results@.len() as int) =~= results@);
    }
    r
}

/// Law: normalization is deterministic — two normalizations of the same raw
/// record are field-for-field identical.
pub proof fn lemma_normalize_deterministic(
    raw: Seq<(String, FieldValue)>,
    r1: Seq<(Seq<char>, Seq<char>)>,
    r2: Seq<(Seq<char>, Seq<char>)>,
)
    requires
        r1 == spec_normalize(raw),
        r2 == spec_normalize(raw),
    ensures
        r1.len() == r2.len(),
        forall|i: int| 0 <= i < r1.len() ==> r1[i] == r2[i],
{
}

/// Law: normalization preserves the field-name set exactly — the normalized
/// record has one field per raw field, under the same name, in the same
/// position.
pub proof fn lemma_normalize_preserves_names(raw: Seq<(String, FieldValue)>)
    ensures
        spec_normalize(raw).len() == raw.len(),
        forall|i: int| 0 <= i < raw.len() ==> #[trigger] spec_normalize(raw)[i].0 == raw[i].0@,
{
}

} // verus!
