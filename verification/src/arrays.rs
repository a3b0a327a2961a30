use vstd::prelude::*;
use crate::hasher::protein_hash;
use crate::hasher::protein_hash_spec;
use crate::hasher::text_hash;
use crate::hasher::text_hash_spec;
use vstd::string::StringExecFns;
use vstd::utf8::encode_utf8;

verus! {

/// The strings actually present in a sequence of optional strings, in
/// their original order.
pub open spec fn present_of(items: Seq<Option<Seq<char>>>) -> Seq<Seq<char>>
    decreases items.len(),
{
    if items.len() == 0 {
        Seq::empty()
    } else {
        let rest = present_of(items.drop_last());
        match items.last() {
            Option::Some(s) => rest.push(s),
            Option::None => rest,
        }
    }
}

/// The comma-join of a sequence of strings.
pub open spec fn join_comma(parts: Seq<Seq<char>>) -> Seq<char>
    decreases parts.len(),
{
    if parts.len() == 0 {
        Seq::empty()
    } else if parts.len() == 1 {
        parts[0]
    } else {
        join_comma(parts.drop_last()) + seq![','] + parts.last()
    }
}

/// What `hash_array_harmonized` digests: absent entries dropped, the
/// rest comma-joined in order, encoded as UTF-8.
pub open spec fn array_hash_spec(items: Seq<Option<Seq<char>>>, semantic: bool) -> Seq<char> {
    let bytes = encode_utf8(join_comma(present_of(items)));
    if semantic {
        protein_hash_spec(bytes)
    } else {
        text_hash_spec(bytes)
    }
}

/// Hash a list of optional strings: absent entries are dropped, the
/// remaining strings are joined with commas in their original order,
/// and the joined text's bytes are hashed in the requested mode.
pub fn hash_array_harmonized(input: Vec<Option<String>>, semantic: bool) -> (r: String)
    ensures
        r@ == array_hash_spec(input.deep_view(), semantic),
{
    let ghost all = input.deep_view();
    let mut joined = String::new();
    let mut any = false;
    let mut i: usize = 0;
    while i < input.len()
        invariant
            0 <= i <= input@.len(),
            all == input.deep_view(),
            all.len() == input@.len(),
            any == (present_of(all.take(i as int)).len() > 0),
            joined@ == join_comma(present_of(all.take(i as int))),
        decreases input@.len() - i,
    {
        let ghost prev = present_of(all.take(i as int));
        match &input[i] {
            Option::Some(s) => {
                if any {
                    proof {
                        reveal_strlit(",");
                    }
                    joined.append(",");
                }
                joined.append(s.as_str());
                any = true;
                proof {
                    assert(all.take(i + 1).drop_last() =~= all.take(i as int));
                    assert(present_of(all.take(i + 1)) =~= prev.push(s@));
                    if prev.len() == 0 {
                        assert(joined@ =~= join_comma(prev.push(s@)));
                    } else {
                        assert(prev.push(s@).drop_last() =~= prev);
                        assert(joined@ =~= join_comma(prev) + seq![','] + s@);
                        assert(joined@ =~= join_comma(prev.push(s@)));
                    }
                }
            },
            Option::None => {
                proof {
                    assert(all.take(i + 1).drop_last() =~= all.take(i as int));
                    assert(present_of(all.take(i + 1)) =~= prev);
                }
            },
        }
        i += 1;
    }
    proof {
        assert(all.take(input@.len() as int) =~= all);
    }
    let bytes = joined.as_str().as_bytes();
    if semantic {
        protein_hash(bytes)
    } else {
        text_hash(bytes)
    }
}

} // verus!
