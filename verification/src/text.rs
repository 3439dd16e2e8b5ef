//! Splitting of the cluster's flat info-protocol text: separator-delimited
//! tokens, and `key=value` fields split on the first `=`.

use vstd::prelude::*;

verus! {

/// The tokens of `s` split on the separator `sep`, in order.
///
/// An empty input has one (empty) token; every occurrence of the separator
/// ends the current token and starts a new one, so `n` separators yield
/// `n + 1` tokens.
pub open spec fn spec_split(s: Seq<char>, sep: char) -> Seq<Seq<char>>
    decreases s.len(),
{
    if s.len() == 0 {
        seq![Seq::<char>::empty()]
    } else {
        let rest = spec_split(s.drop_last(), sep);
        if s.last() == sep {
            rest.push(Seq::<char>::empty())
        } else {
            rest.update(rest.len() - 1, rest.last().push(s.last()))
        }
    }
}

/// Splits `s` on every occurrence of `sep`, as [`spec_split`] describes.
pub fn split_string(s: &str, sep: char) -> (parts: Vec<String>)
    ensures
        parts.deep_view() == spec_split(s@, sep),
{
    let n = s.unicode_len();
    let mut parts: Vec<String> = Vec::new();
    let mut start: usize = 0;
    let mut i: usize = 0;
    proof {
        assert(s@.subrange(0, 0) =~= Seq::<char>::empty());
        assert(parts.deep_view().push(Seq::<char>::empty()) =~= seq![Seq::<char>::empty()]);
    }
    while i < n
        invariant
            start <= i <= n,
            n == s@.len(),
            parts.deep_view().push(s@.subrange(start as int, i as int)) =~= spec_split(
                s@.subrange(0, i as int),
                sep,
            ),
        decreases n - i,
    {
        let c = s.get_char(i);
        proof {
            assert(s@.subrange(0, i + 1).drop_last() =~= s@.subrange(0, i as int));
            assert(s@.subrange(0, i + 1).last() == s@[i as int]);
        }
        if c == sep {
            let ghost old_parts = parts.deep_view();
            let tok = s.substring_char(start, i).to_owned();
            parts.push(tok);
            proof {
                assert(parts.deep_view() =~= old_parts.push(s@.subrange(start as int, i as int)));
                assert(s@.subrange(i + 1, i + 1) =~= Seq::<char>::empty());
            }
            start = i + 1;
        } else {
            proof {
                assert(s@.subrange(start as int, i as int).push(s@[i as int]) =~= s@.subrange(
                    start as int,
                    i + 1,
                ));
                let r = spec_split(s@.subrange(0, i as int), sep);
                assert(r.update(r.len() - 1, r.last().push(s@[i as int])) =~= parts.deep_view().push(
                    s@.subrange(start as int, i + 1),
                ));
            }
        }
        i = i + 1;
    }
    let ghost old_parts = parts.deep_view();
    let tok = s.substring_char(start, n).to_owned();
    parts.push(tok);
    proof {
        assert(s@.subrange(0, n as int) =~= s@);
        assert(parts.deep_view() =~= old_parts.push(s@.subrange(start as int, n as int)));
    }
    parts
}

/// The part of the field `f` before its first `=`; the whole field when it
/// has none.
pub open spec fn field_key(f: Seq<char>) -> Seq<char>
    decreases f.len(),
{
    if f.len() == 0 {
        Seq::empty()
    } else if f[0] == '=' {
        Seq::empty()
    } else {
        seq![f[0]] + field_key(f.drop_first())
    }
}

/// The part of the field `f` after its first `=`; empty when it has none.
pub open spec fn field_value(f: Seq<char>) -> Seq<char>
    decreases f.len(),
{
    if f.len() == 0 {
        Seq::empty()
    } else if f[0] == '=' {
        f.drop_first()
    } else {
        field_value(f.drop_first())
    }
}

/// When the first `=` of `f` stands at `j` (or `f` has none and `j` is its
/// length), the key is everything before `j` and the value everything after.
proof fn lemma_field_split_at(f: Seq<char>, j: int)
    requires
        0 <= j <= f.len(),
        forall|k: int| 0 <= k < j ==> f[k] != '=',
        j < f.len() ==> f[j] == '=',
    ensures
        field_key(f) =~= f.subrange(0, j),
        field_value(f) =~= if j < f.len() {
            f.subrange(j + 1, f.len() as int)
        } else {
            Seq::<char>::empty()
        },
    decreases j,
{
    if j == 0 {
        if f.len() > 0 {
            assert(f[0] == '=');
            assert(field_value(f) =~= f.subrange(1, f.len() as int));
        }
    } else {
        assert(f[0] != '=');
        lemma_field_split_at(f.drop_first(), j - 1);
        assert(f.drop_first().subrange(0, j - 1) =~= f.subrange(1, j));
        assert(field_key(f) =~= seq![f[0]] + f.subrange(1, j));
        if j < f.len() {
            assert(f.drop_first().subrange(j, f.drop_first().len() as int) =~= f.subrange(
                j + 1,
                f.len() as int,
            ));
        }
    }
}

/// Splits one `key=value` field on its first `=`, as [`field_key`] and
/// [`field_value`] describe.
pub fn split_field(f: &str) -> (kv: (String, String))
    ensures
        kv.0@ == field_key(f@),
        kv.1@ == field_value(f@),
{
    let n = f.unicode_len();
    let mut j: usize = 0;
    while j < n
        invariant
            j <= n,
            n == f@.len(),
            forall|k: int| 0 <= k < j ==> f@[k] != '=',
        decreases n - j,
    {
        if f.get_char(j) == '=' {
            proof {
                lemma_field_split_at(f@, j as int);
            }
            let key = f.substring_char(0, j).to_owned();
            let value = f.substring_char(j + 1, n).to_owned();
            return (key, value);
        }
        j = j + 1;
    }
    proof {
        lemma_field_split_at(f@, n as int);
        assert(f@.subrange(0, n as int) =~= f@);
    }
    (f.to_owned(), String::new())
}

} // verus!
