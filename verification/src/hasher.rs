use vstd::prelude::*;
use crate::digits::dec_rep;
use crate::digits::hex_rep;
use crate::digits::is_dec_digit;
use crate::digits::is_hex_digit;
use crate::digits::lemma_dec_rep_digits;
use crate::digits::lemma_hex_rep_digits;
use crate::digits::push_char;
use crate::digits::u64_to_decimal;
use crate::digits::u64_to_hex16;
use crate::features::protein_input;
use crate::features::protein_input_of;
use crate::features::m_function;
use crate::features::m_class;
use crate::features::m_import;
use crate::features::m_const;
use crate::features::m_arrow;
use crate::features::m_async;
use crate::features::marker_function;
use crate::features::marker_class;
use crate::features::marker_import;
use crate::features::marker_const;
use crate::features::marker_arrow;
use crate::features::marker_async;
use crate::scan::contains_match;
use crate::scan::occurs_in;
use vstd::string::StringExecFns;

verus! {

/// The 64-bit XXH3 digest of a byte sequence.
pub uninterp spec fn xxh3_of(bytes: Seq<u8>) -> u64;

/// Relies on `xxhash_rust::xxh3::xxh3_64`: the seedless 64-bit XXH3
/// digest, a pure function of the input bytes alone.
#[verifier::external_body]
fn xxh3_digest(content: &[u8]) -> (r: u64)
    ensures
        r == xxh3_of(content@),
{
    xxhash_rust::xxh3::xxh3_64(content)
}

/// The textual hash of `c`: the decimal numeral of the XXH3 digest of
/// the bytes themselves.
pub open spec fn text_hash_spec(c: Seq<u8>) -> Seq<char> {
    dec_rep(xxh3_of(c) as nat)
}

/// The semantic ("protein") hash of `c`: a `p` marker, then the XXH3
/// digest of the tagged feature serialization as 16 lowercase hex
/// digits.
pub open spec fn protein_hash_spec(c: Seq<u8>) -> Seq<char> {
    seq!['p'] + hex_rep(xxh3_of(protein_input(c)))
}

/// Generate the textual hash: fast byte-exact identity.
///
/// Total and deterministic: the result is a function of the content
/// bytes alone, is never empty, consists of decimal digits only, and
/// never starts with the semantic-hash marker `p`.
pub fn text_hash(content: &[u8]) -> (r: String)
    ensures
        r@ == text_hash_spec(content@),
        r@.len() >= 1,
        forall|i: int| 0 <= i < r@.len() ==> is_dec_digit(#[trigger] r@[i]),
        r@[0] != 'p',
{
    proof {
        lemma_dec_rep_digits(xxh3_of(content@) as nat);
    }
    u64_to_decimal(xxh3_digest(content))
}

/// Generate the semantic ("protein") hash: a digest of counted
/// semantic features, not of the raw bytes.
///
/// Total and deterministic: the result is a function of the content
/// bytes alone and is always `p` followed by exactly 16 lowercase
/// hexadecimal digits.
pub fn protein_hash(content: &[u8]) -> (r: String)
    ensures
        r@ == protein_hash_spec(content@),
        r@.len() == 17,
        r@[0] == 'p',
        forall|i: int| 1 <= i < 17 ==> is_hex_digit(#[trigger] r@[i]),
{
    let input = protein_input_of(content);
    let h = xxh3_digest(input.as_slice());
    let mut r = String::new();
    push_char(&mut r, 'p');
    let digits = u64_to_hex16(h);
    r.append(digits.as_str());
    proof {
        lemma_hex_rep_digits(h);
        assert(r@ =~= protein_hash_spec(content@));
    }
    r
}

/// The three ways one content can be identified.
pub enum HashMode {
    /// Protein hash: groups contents whose meaning is similar.
    Semantic,
    /// XXH3 text hash: byte-exact identity.
    Text,
    /// Both hashes joined as `<semantic>:<textual>`.
    Dual,
}

/// A pair of both identities of one content, semantic and textual
/// always populated together.
pub struct DualHash {
    pub semantic: String,
    pub textual: String,
}

/// The result of hashing one buffer in both modes at once.
pub struct DualHashResult {
    pub semantic: String,
    pub textual: String,
}

/// What `hash` returns for each mode.
pub open spec fn hash_spec(c: Seq<u8>, mode: HashMode) -> Seq<char> {
    match mode {
        HashMode::Semantic => protein_hash_spec(c),
        HashMode::Text => text_hash_spec(c),
        HashMode::Dual => protein_hash_spec(c) + seq![':'] + text_hash_spec(c),
    }
}

/// Law: a dual hash is exactly the semantic hash, one colon, then the
/// textual hash, in that order.
pub proof fn lemma_dual_composition(c: Seq<u8>)
    ensures
        hash_spec(c, HashMode::Dual) == protein_hash_spec(c) + seq![':'] + text_hash_spec(c),
{
}

/// Hash `content` in the chosen mode.
pub fn hash(content: &[u8], mode: HashMode) -> (r: String)
    ensures
        r@ == hash_spec(content@, mode),
{
    match mode {
        HashMode::Semantic => protein_hash(content),
        HashMode::Text => text_hash(content),
        HashMode::Dual => {
            let mut r = protein_hash(content);
            let t = text_hash(content);
            proof {
                reveal_strlit(":");
            }
            r.append(":");
            r.append(t.as_str());
            proof {
                assert(r@ =~= hash_spec(content@, HashMode::Dual));
            }
            r
        },
    }
}

/// Both identities of one buffer, computed from the same bytes.
pub fn dual_hash_content(content: &[u8]) -> (r: DualHashResult)
    ensures
        r.semantic@ == protein_hash_spec(content@),
        r.textual@ == text_hash_spec(content@),
{
    DualHashResult { semantic: protein_hash(content), textual: text_hash(content) }
}

/// Content is treated as code when any code-indicative marker occurs
/// in it.
pub open spec fn looks_like_code(c: Seq<u8>) -> bool {
    contains_match(c, m_function()) || contains_match(c, m_class()) || contains_match(c, m_import())
        || contains_match(c, m_const()) || contains_match(c, m_arrow()) || contains_match(
        c,
        m_async(),
    )
}

/// Hash with automatic mode detection: code-looking content gets the
/// semantic hash, everything else the textual hash.
pub fn auto_hash(content: &[u8]) -> (r: String)
    ensures
        r@ == (if looks_like_code(content@) {
            protein_hash_spec(content@)
        } else {
            text_hash_spec(content@)
        }),
{
    let is_code = occurs_in(content, marker_function().as_slice()) || occurs_in(
        content,
        marker_class().as_slice(),
    ) || occurs_in(content, marker_import().as_slice()) || occurs_in(
        content,
        marker_const().as_slice(),
    ) || occurs_in(content, marker_arrow().as_slice()) || occurs_in(
        content,
        marker_async().as_slice(),
    );
    if is_code {
        protein_hash(content)
    } else {
        text_hash(content)
    }
}

} // verus!
