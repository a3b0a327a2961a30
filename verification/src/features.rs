use vstd::prelude::*;
use crate::scan::count_matches;
use crate::scan::count_occurrences;

verus! {

// Marker byte strings scanned for during feature extraction, each given
// as the ASCII bytes of one literal marker.
/// "function"
pub open spec fn m_function() -> Seq<u8> {
    seq![102u8, 117u8, 110u8, 99u8, 116u8, 105u8, 111u8, 110u8]
}

/// "=>"
pub open spec fn m_arrow() -> Seq<u8> {
    seq![61u8, 62u8]
}

/// "async"
pub open spec fn m_async() -> Seq<u8> {
    seq![97u8, 115u8, 121u8, 110u8, 99u8]
}

/// "if"
pub open spec fn m_if() -> Seq<u8> {
    seq![105u8, 102u8]
}

/// "for"
pub open spec fn m_for() -> Seq<u8> {
    seq![102u8, 111u8, 114u8]
}

/// "while"
pub open spec fn m_while() -> Seq<u8> {
    seq![119u8, 104u8, 105u8, 108u8, 101u8]
}

/// "switch"
pub open spec fn m_switch() -> Seq<u8> {
    seq![115u8, 119u8, 105u8, 116u8, 99u8, 104u8]
}

/// "map"
pub open spec fn m_map() -> Seq<u8> {
    seq![109u8, 97u8, 112u8]
}

/// "filter"
pub open spec fn m_filter() -> Seq<u8> {
    seq![102u8, 105u8, 108u8, 116u8, 101u8, 114u8]
}

/// "reduce"
pub open spec fn m_reduce() -> Seq<u8> {
    seq![114u8, 101u8, 100u8, 117u8, 99u8, 101u8]
}

/// "forEach"
pub open spec fn m_for_each() -> Seq<u8> {
    seq![102u8, 111u8, 114u8, 69u8, 97u8, 99u8, 104u8]
}

/// "import"
pub open spec fn m_import() -> Seq<u8> {
    seq![105u8, 109u8, 112u8, 111u8, 114u8, 116u8]
}

/// "export"
pub open spec fn m_export() -> Seq<u8> {
    seq![101u8, 120u8, 112u8, 111u8, 114u8, 116u8]
}

/// "require"
pub open spec fn m_require() -> Seq<u8> {
    seq![114u8, 101u8, 113u8, 117u8, 105u8, 114u8, 101u8]
}

/// "class"
pub open spec fn m_class() -> Seq<u8> {
    seq![99u8, 108u8, 97u8, 115u8, 115u8]
}

/// "const"
pub open spec fn m_const() -> Seq<u8> {
    seq![99u8, 111u8, 110u8, 115u8, 116u8]
}

/// Truncation of a count to 32 bits, as the feature serialization keeps
/// only the low 32 bits of each bucket sum.
pub open spec fn to_feature(n: nat) -> nat {
    n % 0x1_0000_0000
}

/// Declarations/closures bucket: function declarations, arrow syntax,
/// asynchronous-function markers.
pub open spec fn decl_feature(c: Seq<u8>) -> nat {
    to_feature(count_matches(c, m_function()) + count_matches(c, m_arrow()) + count_matches(c, m_async()))
}

/// Control-flow bucket: conditionals, loops, multi-way branches.
pub open spec fn ctrl_feature(c: Seq<u8>) -> nat {
    to_feature(
        count_matches(c, m_if()) + count_matches(c, m_for()) + count_matches(c, m_while())
            + count_matches(c, m_switch()),
    )
}

/// Data-transformation bucket: map/filter/reduce/forEach style markers.
pub open spec fn data_feature(c: Seq<u8>) -> nat {
    to_feature(
        count_matches(c, m_map()) + count_matches(c, m_filter()) + count_matches(c, m_reduce())
            + count_matches(c, m_for_each()),
    )
}

/// Module-linkage bucket: import/export/require style markers.
pub open spec fn mod_feature(c: Seq<u8>) -> nat {
    to_feature(count_matches(c, m_import()) + count_matches(c, m_export()) + count_matches(c, m_require()))
}

/// The domain-separation tag fed to the digest before the four feature
/// counts: the ASCII bytes of "PROTEIN:".
pub open spec fn protein_tag() -> Seq<u8> {
    seq![80u8, 82u8, 79u8, 84u8, 69u8, 73u8, 78u8, 58u8]
}

/// A feature count (below 2^32) serialized as four little-endian bytes.
pub open spec fn le4(n: nat) -> Seq<u8> {
    seq![
        (n % 256) as u8,
        (n / 256 % 256) as u8,
        (n / 65536 % 256) as u8,
        (n / 16777216 % 256) as u8,
    ]
}

/// The exact byte sequence digested for the semantic hash of `c`: the
/// domain tag, then the four feature counts in bucket order.
pub open spec fn protein_input(c: Seq<u8>) -> Seq<u8> {
    protein_tag() + le4(decl_feature(c)) + le4(ctrl_feature(c)) + le4(data_feature(c)) + le4(
        mod_feature(c),
    )
}

pub(crate) fn marker_function() -> (v: Vec<u8>)
    ensures
        v@ == m_function(),
{
    let v = vec![102u8, 117u8, 110u8, 99u8, 116u8, 105u8, 111u8, 110u8];
    proof {
        assert(v@ =~= m_function());
    }
    v
}

pub(crate) fn marker_arrow() -> (v: Vec<u8>)
    ensures
        v@ == m_arrow(),
{
    let v = vec![61u8, 62u8];
    proof {
        assert(v@ =~= m_arrow());
    }
    v
}

pub(crate) fn marker_async() -> (v: Vec<u8>)
    ensures
        v@ == m_async(),
{
    let v = vec![97u8, 115u8, 121u8, 110u8, 99u8];
    proof {
        assert(v@ =~= m_async());
    }
    v
}

pub(crate) fn marker_import() -> (v: Vec<u8>)
    ensures
        v@ == m_import(),
{
    let v = vec![105u8, 109u8, 112u8, 111u8, 114u8, 116u8];
    proof {
        assert(v@ =~= m_import());
    }
    v
}

pub(crate) fn marker_class() -> (v: Vec<u8>)
    ensures
        v@ == m_class(),
{
    let v = vec![99u8, 108u8, 97u8, 115u8, 115u8];
    proof {
        assert(v@ =~= m_class());
    }
    v
}

pub(crate) fn marker_const() -> (v: Vec<u8>)
    ensures
        v@ == m_const(),
{
    let v = vec![99u8, 111u8, 110u8, 115u8, 116u8];
    proof {
        assert(v@ =~= m_const());
    }
    v
}

fn sum_feature3(a: usize, b: usize, c: usize) -> (r: u32)
    ensures
        r as nat == to_feature(a as nat + b as nat + c as nat),
{
    let total: u128 = a as u128 + b as u128 + c as u128;
    (total % 0x1_0000_0000) as u32
}

fn sum_feature4(a: usize, b: usize, c: usize, d: usize) -> (r: u32)
    ensures
        r as nat == to_feature(a as nat + b as nat + c as nat + d as nat),
{
    let total: u128 = a as u128 + b as u128 + c as u128 + d as u128;
    (total % 0x1_0000_0000) as u32
}

/// The declarations/closures feature count of `c`.
pub fn decl_feature_of(c: &[u8]) -> (r: u32)
    ensures
        r as nat == decl_feature(c@),
{
    let f = count_occurrences(c, marker_function().as_slice());
    let a = count_occurrences(c, marker_arrow().as_slice());
    let s = count_occurrences(c, marker_async().as_slice());
    sum_feature3(f, a, s)
}

/// The control-flow feature count of `c`.
pub fn ctrl_feature_of(c: &[u8]) -> (r: u32)
    ensures
        r as nat == ctrl_feature(c@),
{
    let p1 = vec![105u8, 102u8];
    let p2 = vec![102u8, 111u8, 114u8];
    let p3 = vec![119u8, 104u8, 105u8, 108u8, 101u8];
    let p4 = vec![115u8, 119u8, 105u8, 116u8, 99u8, 104u8];
    proof {
        assert(p1@ =~= m_if());
        assert(p2@ =~= m_for());
        assert(p3@ =~= m_while());
        assert(p4@ =~= m_switch());
    }
    let c1 = count_occurrences(c, p1.as_slice());
    let c2 = count_occurrences(c, p2.as_slice());
    let c3 = count_occurrences(c, p3.as_slice());
    let c4 = count_occurrences(c, p4.as_slice());
    sum_feature4(c1, c2, c3, c4)
}

/// The data-transformation feature count of `c`.
pub fn data_feature_of(c: &[u8]) -> (r: u32)
    ensures
        r as nat == data_feature(c@),
{
    let p1 = vec![109u8, 97u8, 112u8];
    let p2 = vec![102u8, 105u8, 108u8, 116u8, 101u8, 114u8];
    let p3 = vec![114u8, 101u8, 100u8, 117u8, 99u8, 101u8];
    let p4 = vec![102u8, 111u8, 114u8, 69u8, 97u8, 99u8, 104u8];
    proof {
        assert(p1@ =~= m_map());
        assert(p2@ =~= m_filter());
        assert(p3@ =~= m_reduce());
        assert(p4@ =~= m_for_each());
    }
    let c1 = count_occurrences(c, p1.as_slice());
    let c2 = count_occurrences(c, p2.as_slice());
    let c3 = count_occurrences(c, p3.as_slice());
    let c4 = count_occurrences(c, p4.as_slice());
    sum_feature4(c1, c2, c3, c4)
}

/// The module-linkage feature count of `c`.
pub fn mod_feature_of(c: &[u8]) -> (r: u32)
    ensures
        r as nat == mod_feature(c@),
{
    let p1 = marker_import();
    let p2 = vec![101u8, 120u8, 112u8, 111u8, 114u8, 116u8];
    let p3 = vec![114u8, 101u8, 113u8, 117u8, 105u8, 114u8, 101u8];
    proof {
        assert(p2@ =~= m_export());
        assert(p3@ =~= m_require());
    }
    let c1 = count_occurrences(c, p1.as_slice());
    let c2 = count_occurrences(c, p2.as_slice());
    let c3 = count_occurrences(c, p3.as_slice());
    sum_feature3(c1, c2, c3)
}

fn push_le4(v: &mut Vec<u8>, f: u32)
    ensures
        final(v)@ == old(v)@ + le4(f as nat),
{
    v.push((f % 256) as u8);
    v.push((f / 256 % 256) as u8);
    v.push((f / 65536 % 256) as u8);
    v.push((f / 16777216 % 256) as u8);
    proof {
        assert(v@ =~= old(v)@ + le4(f as nat));
    }
}

/// The byte sequence whose digest is the semantic hash of `c`.
pub fn protein_input_of(c: &[u8]) -> (v: Vec<u8>)
    ensures
        v@ == protein_input(c@),
{
    let mut v: Vec<u8> = Vec::new();
    v.push(80u8);
    v.push(82u8);
    v.push(79u8);
    v.push(84u8);
    v.push(69u8);
    v.push(73u8);
    v.push(78u8);
    v.push(58u8);
    proof {
        assert(v@ =~= protein_tag());
    }
    push_le4(&mut v, decl_feature_of(c));
    push_le4(&mut v, ctrl_feature_of(c));
    push_le4(&mut v, data_feature_of(c));
    push_le4(&mut v, mod_feature_of(c));
    proof {
        assert(v@ =~= protein_input(c@));
    }
    v
}

} // verus!
