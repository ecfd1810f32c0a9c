//! The type-name normalizer: maps a documentation type phrase to a
//! canonical field-type token, recursing through `Array of` wrapping.
//!
//! The mapping is total: a phrase that names no known primitive passes
//! through unchanged, since it then names a nested declaration type.

use vstd::prelude::*;

use crate::text::{is_prefix, trim, lemma_trim_len, starts_with, trim_str, str_eq};

verus! {

/// The fixed table of primitive type phrases.  A phrase outside the table
/// is returned unchanged.
pub open spec fn primitive_token(s: Seq<char>) -> Seq<char> {
    if s == "Integer"@ {
        "i64"@
    } else if s == "True"@ {
        "bool"@
    } else if s == "Boolean"@ {
        "bool"@
    } else if s == "Float"@ {
        "f64"@
    } else if s == "InputFile or String"@ {
        "String"@
    } else if s == "Integer or String"@ {
        "String"@
    } else {
        s
    }
}

/// The canonical token for a raw type phrase: `Array of X` wraps the
/// canonical token of `X` (trimmed) as a sequence type; anything else goes
/// through the primitive table.
pub open spec fn normalize_spec(s: Seq<char>) -> Seq<char>
    decreases s.len(),
    via normalize_spec_decreases
{
    if is_prefix("Array of"@, s) {
        "Vec<"@ + normalize_spec(trim(s.skip("Array of"@.len() as int))) + ">"@
    } else {
        primitive_token(s)
    }
}

#[via_fn]
proof fn normalize_spec_decreases(s: Seq<char>) {
    reveal_strlit("Array of");
    if is_prefix("Array of"@, s) {
        lemma_trim_len(s.skip("Array of"@.len() as int));
    }
}

/// The normalizer is idempotent on the canonical primitive tokens:
/// normalizing an already-canonical token returns it unchanged.
pub proof fn lemma_normalize_idempotent_primitive()
    ensures
        normalize_spec("i64"@) == "i64"@,
        normalize_spec("bool"@) == "bool"@,
        normalize_spec("f64"@) == "f64"@,
        normalize_spec("String"@) == "String"@,
{
    reveal_strlit("Array of");
    reveal_strlit("i64");
    reveal_strlit("bool");
    reveal_strlit("f64");
    reveal_strlit("String");
    reveal_strlit("Integer");
    reveal_strlit("True");
    reveal_strlit("Boolean");
    reveal_strlit("Float");
    reveal_strlit("InputFile or String");
    reveal_strlit("Integer or String");
    assert(("bool"@)[0] != ("True"@)[0]);
}

/// The normalizer is idempotent on every phrase: a canonical token passes
/// through unchanged, so normalizing twice never differs from normalizing
/// once.
pub proof fn lemma_normalize_idempotent(s: Seq<char>)
    ensures
        normalize_spec(normalize_spec(s)) == normalize_spec(s),
    decreases s.len(),
{
    reveal_strlit("Array of");
    reveal_strlit("Vec<");
    reveal_strlit(">");
    reveal_strlit("i64");
    reveal_strlit("bool");
    reveal_strlit("f64");
    reveal_strlit("String");
    reveal_strlit("Integer");
    reveal_strlit("True");
    reveal_strlit("Boolean");
    reveal_strlit("Float");
    reveal_strlit("InputFile or String");
    reveal_strlit("Integer or String");
    if is_prefix("Array of"@, s) {
        lemma_trim_len(s.skip("Array of"@.len() as int));
        let r = normalize_spec(s);
        // the wrapped token opens with `Vec<`, never with `Array of` nor a
        // primitive phrase's first letter
        assert(r[0] == 'V');
        if is_prefix("Array of"@, r) {
            assert(r.take("Array of"@.len() as int)[0] == r[0]);
            assert(false);
        }
        assert(normalize_spec(r) == r);
    } else {
        let r = primitive_token(s);
        if s == "Integer"@ || s == "True"@ || s == "Boolean"@ || s == "Float"@ || s
            == "InputFile or String"@ || s == "Integer or String"@ {
            assert(!is_prefix("Array of"@, r));
            assert(normalize_spec(r) == r);
        } else {
            assert(r == s);
        }
    }
}

/// Maps a raw type phrase to its canonical token.
pub fn normalize(s: &str) -> (r: String)
    ensures
        r@ == normalize_spec(s@),
    decreases s@.len(),
{
    if starts_with(s, "Array of") {
        proof {
            reveal_strlit("Array of");
            lemma_trim_len(s@.skip(8));
        }
        let rest: String = trim_str(s.substring_char(8, s.unicode_len()));
        let inner: String = normalize(rest.as_str());
        let wrapped: String = String::from_str("Vec<").concat(inner.as_str()).concat(">");
        proof {
            assert(wrapped@ =~= "Vec<"@ + normalize_spec(trim(s@.skip(8))) + ">"@);
        }
        wrapped
    } else if str_eq(s, "Integer") {
        String::from_str("i64")
    } else if str_eq(s, "True") {
        String::from_str("bool")
    } else if str_eq(s, "Boolean") {
        String::from_str("bool")
    } else if str_eq(s, "Float") {
        String::from_str("f64")
    } else if str_eq(s, "InputFile or String") {
        String::from_str("String")
    } else if str_eq(s, "Integer or String") {
        String::from_str("String")
    } else {
        s.to_owned()
    }
}

} // verus!
