use soul_hash::auto_hash;
use soul_hash::dual_hash_content;
use soul_hash::hash;
use soul_hash::hash_array_harmonized;
use soul_hash::hash_file_harmonized;
use soul_hash::protein_hash;
use soul_hash::text_hash;
use soul_hash::HashMode;

/// Builds the semantic digest independently, straight from its
/// definition: count the marker substrings in the lossily decoded
/// text, then feed the domain tag and the four bucket counts,
/// little-endian, to a streaming XXH3 hasher.
fn expected_protein(content: &[u8]) -> String {
    let text = String::from_utf8_lossy(content);
    let functions =
        text.matches("function").count() + text.matches("=>").count() + text.matches("async").count();
    let control = text.matches("if").count()
        + text.matches("for").count()
        + text.matches("while").count()
        + text.matches("switch").count();
    let data = text.matches("map").count()
        + text.matches("filter").count()
        + text.matches("reduce").count()
        + text.matches("forEach").count();
    let modules = text.matches("import").count()
        + text.matches("export").count()
        + text.matches("require").count();
    let mut hasher = xxhash_rust::xxh3::Xxh3::new();
    hasher.update(b"PROTEIN:");
    for feature in [functions as u32, control as u32, data as u32, modules as u32] {
        hasher.update(&feature.to_le_bytes());
    }
    format!("p{:016x}", hasher.digest())
}

#[test]
fn test_protein_hash_recognizes_similar_code() {
    let code1 = b"function add(a, b) { return a + b; }";
    let code2 = b"const add = (a, b) => a + b;";
    let code3 = b"function sum(x, y) { return x + y; }";

    let p1 = protein_hash(code1);
    let p2 = protein_hash(code2);
    let p3 = protein_hash(code3);

    println!("p1: {}, p2: {}, p3: {}", p1, p2, p3);
}

#[test]
fn test_dual_hash_preserves_both_identities() {
    let content = b"const map = (arr, fn) => arr.map(fn);";

    let dual = hash(content, HashMode::Dual);
    assert!(dual.contains(':'));

    let parts: Vec<&str> = dual.split(':').collect();
    assert_eq!(parts.len(), 2);
    assert!(parts[0].starts_with('p'));
}

#[test]
fn text_hash_is_deterministic() {
    let content = b"some arbitrary bytes \x00\x01\x02";
    assert_eq!(text_hash(content), text_hash(content));
}

#[test]
fn protein_hash_is_deterministic() {
    let content = b"function f() { return 1; }";
    assert_eq!(protein_hash(content), protein_hash(content));
}

#[test]
fn text_hash_matches_xxh3_decimal() {
    for content in [&b"hello world"[..], b"", b"function f()", b"\xff\xfe\x00"] {
        assert_eq!(
            text_hash(content),
            xxhash_rust::xxh3::xxh3_64(content).to_string()
        );
    }
}

#[test]
fn protein_hash_matches_reference_construction() {
    let cases: [&[u8]; 7] = [
        b"",
        b"function add(a, b) { return a + b; }",
        b"for forEach format if iffy mapmap switcheroo",
        b"import x; export y; require('z'); async () => await p;",
        b"xs.filter(f).reduce(g); while (true) { switch (x) {} }",
        b"\xfffunction\xfe if while\x80",
        // A marker that can overlap itself: occurrences are counted
        // non-overlapping, leftmost first.
        b"requirequirequire",
    ];
    for content in cases {
        assert_eq!(protein_hash(content), expected_protein(content));
    }
}

#[test]
fn protein_hash_format_is_p_and_16_hex() {
    for content in [&b""[..], b"abc", b"function", b"\x00\xff"] {
        let p = protein_hash(content);
        assert_eq!(p.len(), 17);
        assert!(p.starts_with('p'));
        assert!(p[1..].chars().all(|c| c.is_ascii_hexdigit() && !c.is_ascii_uppercase()));
    }
}

#[test]
fn text_hash_never_starts_with_p() {
    for content in [&b""[..], b"abc", b"p", b"function f()"] {
        let t = text_hash(content);
        assert!(!t.is_empty());
        assert!(!t.starts_with('p'));
        assert!(t.chars().all(|c| c.is_ascii_digit()));
    }
}

#[test]
fn dual_mode_composes_both_hashes() {
    let content = b"const x = [1, 2].map(v => v * 2);";
    let dual = hash(content, HashMode::Dual);
    assert_eq!(
        dual,
        format!("{}:{}", protein_hash(content), text_hash(content))
    );
}

#[test]
fn single_modes_match_their_hashers() {
    let content = b"plain old data";
    assert_eq!(hash(content, HashMode::Text), text_hash(content));
    assert_eq!(hash(content, HashMode::Semantic), protein_hash(content));
}

#[test]
fn text_hash_is_sensitive_to_one_byte() {
    assert_ne!(text_hash(b"abc"), text_hash(b"abd"));
}

#[test]
fn empty_input_has_fixed_hashes() {
    let t = text_hash(b"");
    let p = protein_hash(b"");
    assert_eq!(t, xxhash_rust::xxh3::xxh3_64(b"").to_string());
    assert_eq!(p, expected_protein(b""));
    assert_eq!(text_hash(b""), t);
    assert_eq!(protein_hash(b""), p);
}

#[test]
fn dual_hash_content_pairs_both_identities() {
    let content = b"export function f() {}";
    let d = dual_hash_content(content);
    assert_eq!(d.semantic, protein_hash(content));
    assert_eq!(d.textual, text_hash(content));
}

#[test]
fn auto_hash_routes_code_to_protein() {
    let content = b"const f = () => 1;";
    assert_eq!(auto_hash(content), protein_hash(content));
}

#[test]
fn auto_hash_routes_prose_to_text() {
    let content = b"plain prose text";
    assert_eq!(auto_hash(content), text_hash(content));
}

#[test]
fn hash_array_joins_present_items_with_commas() {
    let input = vec![Some("a".to_string()), None, Some("b".to_string())];
    assert_eq!(hash_array_harmonized(input, false), text_hash(b"a,b"));
}

#[test]
fn hash_array_semantic_hashes_joined_text() {
    let input = vec![Some("function f()".to_string()), Some("if (x)".to_string())];
    assert_eq!(
        hash_array_harmonized(input, true),
        protein_hash(b"function f(),if (x)")
    );
}

#[test]
fn hash_array_of_nothing_hashes_empty_bytes() {
    assert_eq!(hash_array_harmonized(vec![], false), text_hash(b""));
    assert_eq!(hash_array_harmonized(vec![None, None], false), text_hash(b""));
}

#[test]
fn file_hash_gates_semantic_by_extension() {
    let content = b"function f() { return 1; }";
    assert_eq!(
        hash_file_harmonized("data.json", content, true),
        text_hash(content)
    );
    assert_eq!(
        hash_file_harmonized("src/x.ts", content, true),
        protein_hash(content)
    );
    assert_eq!(
        hash_file_harmonized("src/x.ts", content, false),
        text_hash(content)
    );
}

#[test]
fn file_hash_extension_corner_cases() {
    let content = b"const x = 1;";
    // A leading dot alone names a hidden file, not an extension.
    assert_eq!(hash_file_harmonized(".ts", content, true), text_hash(content));
    // No extension at all.
    assert_eq!(hash_file_harmonized("Makefile", content, true), text_hash(content));
    // The extension is taken from the last dot.
    assert_eq!(
        hash_file_harmonized("bundle.min.js", content, true),
        protein_hash(content)
    );
    // Only the final path component counts.
    assert_eq!(
        hash_file_harmonized("dir.js/readme", content, true),
        text_hash(content)
    );
    for path in ["a.js", "b.jsx", "c.tsx", "d.rs", "e.go", "f.java", "g.py"] {
        assert_eq!(hash_file_harmonized(path, content, true), protein_hash(content));
    }
}
