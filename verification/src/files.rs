use vstd::prelude::*;
use crate::hasher::protein_hash;
use crate::hasher::protein_hash_spec;
use crate::hasher::text_hash;
use crate::hasher::text_hash_spec;
use vstd::slice::slice_subrange;
use vstd::string::StringSliceAdditionalSpecFns;

verus! {

/// ASCII '/'
pub open spec fn slash() -> u8 {
    47u8
}

/// ASCII '.'
pub open spec fn dot() -> u8 {
    46u8
}

/// The path with any trailing separators removed.
pub open spec fn strip_trailing_slashes(p: Seq<u8>) -> Seq<u8>
    decreases p.len(),
{
    if p.len() > 0 && p.last() == slash() {
        strip_trailing_slashes(p.drop_last())
    } else {
        p
    }
}

/// The part of `p` after the last occurrence of `b`, or all of `p`
/// when `b` does not occur.
pub open spec fn suffix_after_last(p: Seq<u8>, b: u8) -> Seq<u8>
    decreases p.len(),
{
    if p.len() == 0 {
        p
    } else if p.last() == b {
        Seq::empty()
    } else {
        suffix_after_last(p.drop_last(), b).push(p.last())
    }
}

/// The final component of a path: what follows the last separator,
/// trailing separators ignored.
pub open spec fn file_name_of(p: Seq<u8>) -> Seq<u8> {
    suffix_after_last(strip_trailing_slashes(p), slash())
}

/// The extension of a path: what follows the last dot of the file
/// name, provided that dot is not the file name's first byte.
pub open spec fn extension_of(p: Seq<u8>) -> Option<Seq<u8>> {
    let f = file_name_of(p);
    let e = suffix_after_last(f, dot());
    if e.len() + 1 < f.len() {
        Option::Some(e)
    } else {
        Option::None
    }
}

/// "js"
pub open spec fn ext_js() -> Seq<u8> {
    seq![106u8, 115u8]
}

/// "ts"
pub open spec fn ext_ts() -> Seq<u8> {
    seq![116u8, 115u8]
}

/// "jsx"
pub open spec fn ext_jsx() -> Seq<u8> {
    seq![106u8, 115u8, 120u8]
}

/// "tsx"
pub open spec fn ext_tsx() -> Seq<u8> {
    seq![116u8, 115u8, 120u8]
}

/// "rs"
pub open spec fn ext_rs() -> Seq<u8> {
    seq![114u8, 115u8]
}

/// "go"
pub open spec fn ext_go() -> Seq<u8> {
    seq![103u8, 111u8]
}

/// "java"
pub open spec fn ext_java() -> Seq<u8> {
    seq![106u8, 97u8, 118u8, 97u8]
}

/// "py"
pub open spec fn ext_py() -> Seq<u8> {
    seq![112u8, 121u8]
}

/// The fixed allow-list of code-like extensions.
pub open spec fn is_code_extension(e: Seq<u8>) -> bool {
    e == ext_js() || e == ext_ts() || e == ext_jsx() || e == ext_tsx() || e == ext_rs() || e
        == ext_go() || e == ext_java() || e == ext_py()
}

/// A path receives the semantic hash only when its extension is on the
/// code allow-list.
pub open spec fn code_gated(p: Seq<u8>) -> bool {
    match extension_of(p) {
        Option::Some(e) => is_code_extension(e),
        Option::None => false,
    }
}

fn eq_bytes(a: &[u8], b: &[u8]) -> (r: bool)
    ensures
        r == (a@ == b@),
{
    if a.len() != b.len() {
        assert(a@ != b@);
        return false;
    }
    let n = a.len();
    let mut k: usize = 0;
    while k < n
        invariant
            0 <= k <= n,
            n == a@.len() == b@.len(),
            forall|m: int| 0 <= m < k ==> a@[m] == b@[m],
        decreases n - k,
    {
        if a[k] != b[k] {
            assert(a@ != b@);
            return false;
        }
        k += 1;
    }
    proof {
        assert(a@ =~= b@);
    }
    true
}

/// Whether the path's extension is on the code allow-list.
pub fn has_code_extension(path: &str) -> (r: bool)
    ensures
        r == code_gated(path.spec_bytes()),
{
    let bytes = path.as_bytes();
    let ghost p = bytes@;

    // Ignore trailing separators, as the platform's path parsing does.
    let mut n: usize = bytes.len();
    proof {
        assert(p.take(bytes@.len() as int) =~= p);
    }
    while n > 0 && bytes[n - 1] == 47u8
        invariant
            0 <= n <= p.len(),
            p == bytes@,
            strip_trailing_slashes(p) == strip_trailing_slashes(p.take(n as int)),
        decreases n,
    {
        proof {
            assert(p.take(n as int).last() == slash());
            assert(p.take(n as int).drop_last() =~= p.take(n - 1));
        }
        n = n - 1;
    }
    proof {
        assert(strip_trailing_slashes(p) =~= p.take(n as int));
    }

    // The file name starts after the last separator before position n.
    let mut s: usize = n;
    proof {
        assert(suffix_after_last(p.take(n as int), slash()) + p.subrange(n as int, n as int)
            =~= suffix_after_last(p.take(n as int), slash()));
    }
    while s > 0 && bytes[s - 1] != 47u8
        invariant
            0 <= s <= n <= p.len(),
            p == bytes@,
            suffix_after_last(p.take(n as int), slash()) == suffix_after_last(
                p.take(s as int),
                slash(),
            ) + p.subrange(s as int, n as int),
        decreases s,
    {
        proof {
            assert(p.take(s as int).last() == p[s - 1]);
            assert(p.take(s as int).drop_last() =~= p.take(s - 1));
            assert(suffix_after_last(p.take(s - 1), slash()).push(p[s - 1]) + p.subrange(
                s as int,
                n as int,
            ) =~= suffix_after_last(p.take(s - 1), slash()) + p.subrange(s - 1, n as int));
        }
        s = s - 1;
    }
    let ghost fname = file_name_of(p);
    proof {
        if s == 0 {
            assert(suffix_after_last(p.take(0), slash()) =~= Seq::<u8>::empty());
        } else {
            assert(p.take(s as int).last() == slash());
            assert(suffix_after_last(p.take(s as int), slash()) =~= Seq::<u8>::empty());
        }
        assert(fname =~= p.subrange(s as int, n as int));
    }

    // The extension starts after the last dot of the file name.
    let mut d: usize = n;
    proof {
        assert(suffix_after_last(p.subrange(s as int, n as int), dot()) + p.subrange(
            n as int,
            n as int,
        ) =~= suffix_after_last(p.subrange(s as int, n as int), dot()));
    }
    while d > s && bytes[d - 1] != 46u8
        invariant
            s <= d <= n <= p.len(),
            p == bytes@,
            fname == p.subrange(s as int, n as int),
            suffix_after_last(fname, dot()) == suffix_after_last(
                p.subrange(s as int, d as int),
                dot(),
            ) + p.subrange(d as int, n as int),
        decreases d,
    {
        proof {
            assert(p.subrange(s as int, d as int).last() == p[d - 1]);
            assert(p.subrange(s as int, d as int).drop_last() =~= p.subrange(s as int, d - 1));
            assert(suffix_after_last(p.subrange(s as int, d - 1), dot()).push(p[d - 1])
                + p.subrange(d as int, n as int) =~= suffix_after_last(
                p.subrange(s as int, d - 1),
                dot(),
            ) + p.subrange(d - 1, n as int));
        }
        d = d - 1;
    }
    let ghost ext = suffix_after_last(fname, dot());
    proof {
        if d == s {
            assert(suffix_after_last(p.subrange(s as int, s as int), dot())
                =~= Seq::<u8>::empty());
            assert(ext =~= fname);
        } else {
            assert(p.subrange(s as int, d as int).last() == dot());
            assert(suffix_after_last(p.subrange(s as int, d as int), dot())
                =~= Seq::<u8>::empty());
            assert(ext =~= p.subrange(d as int, n as int));
        }
    }

    if d <= s + 1 {
        // No dot, or a dot only at the file name's first byte: no
        // extension.
        proof {
            if d == s {
                assert(ext.len() == fname.len());
            } else {
                assert(ext.len() + 1 == fname.len());
            }
            assert(extension_of(p) is None);
        }
        return false;
    }
    proof {
        assert(ext.len() + 1 < fname.len());
        assert(extension_of(p) == Option::Some(ext));
    }
    let e = slice_subrange(bytes, d, n);
    let js = vec![106u8, 115u8];
    let ts = vec![116u8, 115u8];
    let jsx = vec![106u8, 115u8, 120u8];
    let tsx = vec![116u8, 115u8, 120u8];
    let rs = vec![114u8, 115u8];
    let go = vec![103u8, 111u8];
    let java = vec![106u8, 97u8, 118u8, 97u8];
    let py = vec![112u8, 121u8];
    proof {
        assert(js@ =~= ext_js());
        assert(ts@ =~= ext_ts());
        assert(jsx@ =~= ext_jsx());
        assert(tsx@ =~= ext_tsx());
        assert(rs@ =~= ext_rs());
        assert(go@ =~= ext_go());
        assert(java@ =~= ext_java());
        assert(py@ =~= ext_py());
    }
    let r = eq_bytes(e, js.as_slice()) || eq_bytes(e, ts.as_slice()) || eq_bytes(
        e,
        jsx.as_slice(),
    ) || eq_bytes(e, tsx.as_slice()) || eq_bytes(e, rs.as_slice()) || eq_bytes(e, go.as_slice())
        || eq_bytes(e, java.as_slice()) || eq_bytes(e, py.as_slice());
    r
}

/// What file hashing returns once the file's bytes are in hand: the
/// semantic hash only when it was requested and the path's extension
/// is code-like, the textual hash otherwise.
pub open spec fn file_hash_spec(path_bytes: Seq<u8>, content: Seq<u8>, semantic: bool) -> Seq<
    char,
> {
    if semantic && code_gated(path_bytes) {
        protein_hash_spec(content)
    } else {
        text_hash_spec(content)
    }
}

/// Hash one file's content, read by the caller in a single attempt.
///
/// Semantic hashing is gated by the path's extension: only the fixed
/// allow-list of code-like extensions receives the protein hash; any
/// other path falls back to the textual hash even when `semantic` is
/// requested.
pub fn hash_file_harmonized(path: &str, content: &[u8], semantic: bool) -> (r: String)
    ensures
        r@ == file_hash_spec(path.spec_bytes(), content@, semantic),
{
    if semantic {
        if has_code_extension(path) {
            protein_hash(content)
        } else {
            text_hash(content)
        }
    } else {
        text_hash(content)
    }
}

} // verus!
