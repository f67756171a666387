use vstd::prelude::*;
use vstd::string::StringExecFns;

use crate::error::{ErrorView, OperationError};
use crate::fold::{lower_of, lowercase};

verus! {

/// A named text transformation. The set is closed; each variant has a unique
/// canonical lowercase name used both for parsing and for display.
#[derive(Clone, Copy, PartialEq, Eq, Structural, Debug)]
pub enum Operation {
    CamelCase,
    Csv,
    LowerCase,
    NoSpaces,
    Slugify,
    SnakeCase,
    UpperCase,
}

/// The canonical lowercase name of an operation.
pub open spec fn canonical_name(op: Operation) -> Seq<char> {
    match op {
        Operation::CamelCase => "camelcase"@,
        Operation::Csv => "csv"@,
        Operation::LowerCase => "lowercase"@,
        Operation::NoSpaces => "no-spaces"@,
        Operation::Slugify => "slugify"@,
        Operation::SnakeCase => "snakecase"@,
        Operation::UpperCase => "uppercase"@,
    }
}

/// What parsing an already-lowercased name yields: the operation whose
/// canonical name it equals, if any.
pub open spec fn spec_parse(low: Seq<char>) -> Option<Operation> {
    if low == canonical_name(Operation::CamelCase) {
        Some(Operation::CamelCase)
    } else if low == canonical_name(Operation::Csv) {
        Some(Operation::Csv)
    } else if low == canonical_name(Operation::LowerCase) {
        Some(Operation::LowerCase)
    } else if low == canonical_name(Operation::NoSpaces) {
        Some(Operation::NoSpaces)
    } else if low == canonical_name(Operation::Slugify) {
        Some(Operation::Slugify)
    } else if low == canonical_name(Operation::SnakeCase) {
        Some(Operation::SnakeCase)
    } else if low == canonical_name(Operation::UpperCase) {
        Some(Operation::UpperCase)
    } else {
        None
    }
}

/// The operations in declaration order, as diagnostics list them.
pub open spec fn declaration_order() -> Seq<Operation> {
    seq![
        Operation::CamelCase,
        Operation::Csv,
        Operation::LowerCase,
        Operation::NoSpaces,
        Operation::Slugify,
        Operation::SnakeCase,
        Operation::UpperCase,
    ]
}

/// An ASCII capital letter.
pub open spec fn is_ascii_uppercase_char(c: char) -> bool {
    65 <= c as int && c as int <= 90
}

/// `b` is what lowercasing the single ASCII character `a` gives: capitals drop
/// by 32 code points, everything else stays.
pub open spec fn lower_pair(a: char, b: char) -> bool {
    if is_ascii_uppercase_char(a) {
        b as int == a as int + 32
    } else {
        b == a
    }
}

/// An ASCII character.
pub open spec fn is_ascii_char(c: char) -> bool {
    (c as int) < 128
}

/// Every character of `s` is ASCII.
pub open spec fn all_ascii(s: Seq<char>) -> bool {
    forall|i: int| 0 <= i < s.len() ==> #[trigger] is_ascii_char(s[i])
}

/// `s` is `t` with some letters capitalized: lowercasing `s` character by
/// character yields exactly `t`.
pub open spec fn ascii_case_variant(s: Seq<char>, t: Seq<char>) -> bool {
    &&& s.len() == t.len()
    &&& forall|i: int| 0 <= i < s.len() ==> #[trigger] lower_pair(s[i], t[i])
}

/// Distinct operations have distinct canonical names.
pub proof fn lemma_canonical_names_injective(a: Operation, b: Operation)
    requires
        canonical_name(a) == canonical_name(b),
    ensures
        a == b,
{
    reveal_strlit("camelcase");
    reveal_strlit("csv");
    reveal_strlit("lowercase");
    reveal_strlit("no-spaces");
    reveal_strlit("slugify");
    reveal_strlit("snakecase");
    reveal_strlit("uppercase");
    assert(canonical_name(Operation::CamelCase).len() == 9 && canonical_name(
        Operation::CamelCase,
    )[0] == 'c');
    assert(canonical_name(Operation::Csv).len() == 3 && canonical_name(Operation::Csv)[0] == 'c');
    assert(canonical_name(Operation::LowerCase).len() == 9 && canonical_name(
        Operation::LowerCase,
    )[0] == 'l');
    assert(canonical_name(Operation::NoSpaces).len() == 9 && canonical_name(
        Operation::NoSpaces,
    )[0] == 'n');
    assert(canonical_name(Operation::Slugify).len() == 7 && canonical_name(Operation::Slugify)[0]
        == 's');
    assert(canonical_name(Operation::SnakeCase).len() == 9 && canonical_name(
        Operation::SnakeCase,
    )[0] == 's');
    assert(canonical_name(Operation::UpperCase).len() == 9 && canonical_name(
        Operation::UpperCase,
    )[0] == 'u');
}

/// Every canonical name is ASCII and free of capital letters, so it is its own
/// lowercasing.
pub proof fn lemma_canonical_name_lowercase(op: Operation)
    ensures
        all_ascii(canonical_name(op)),
        ascii_case_variant(canonical_name(op), canonical_name(op)),
{
    reveal_strlit("camelcase");
    reveal_strlit("csv");
    reveal_strlit("lowercase");
    reveal_strlit("no-spaces");
    reveal_strlit("slugify");
    reveal_strlit("snakecase");
    reveal_strlit("uppercase");
}

impl Operation {
    /// Parse an operation name, matching case-insensitively: the name is
    /// lowercased and compared against the canonical name table. An unmatched
    /// name fails, with the offending token carried verbatim in the error.
    ///
    /// The last clause is the round-trip law: any capitalization variant of a
    /// canonical name parses to that operation; in particular
    /// `from_str` of `to_str` returns the operation itself.
    pub fn from_str(s: &str) -> (r: Result<Operation, OperationError>)
        ensures
            match r {
                Ok(op) => spec_parse(lower_of(s@)) == Some(op),
                Err(e) => spec_parse(lower_of(s@)) is None && e@ == ErrorView::Unknown(s@),
            },
            forall|op: Operation| ascii_case_variant(s@, canonical_name(op)) ==> r == Ok::<
                Operation,
                OperationError,
            >(op),
            all_ascii(s@) && ascii_case_variant(s@, s@) ==> lower_of(s@) == s@,
    {
        let low = lowercase(s);
        let r = if low == String::from_str("camelcase") {
            Ok(Operation::CamelCase)
        } else if low == String::from_str("csv") {
            Ok(Operation::Csv)
        } else if low == String::from_str("lowercase") {
            Ok(Operation::LowerCase)
        } else if low == String::from_str("no-spaces") {
            Ok(Operation::NoSpaces)
        } else if low == String::from_str("slugify") {
            Ok(Operation::Slugify)
        } else if low == String::from_str("snakecase") {
            Ok(Operation::SnakeCase)
        } else if low == String::from_str("uppercase") {
            Ok(Operation::UpperCase)
        } else {
            Err(OperationError::UnknownOperation(s.to_owned()))
        };
        proof {
            if all_ascii(s@) && ascii_case_variant(s@, s@) {
                lemma_case_variant_lowers_to(s@, low@, s@);
            }
            assert forall|op: Operation| ascii_case_variant(s@, canonical_name(op)) implies r
                == Ok::<Operation, OperationError>(op) by {
                lemma_canonical_name_lowercase(op);
                lemma_case_variant_lowers_to(s@, low@, canonical_name(op));
                if let Ok(got) = r {
                    lemma_canonical_names_injective(got, op);
                }
            }
        }
        r
    }

    /// The canonical lowercase name of this operation, used for parsing and
    /// for display alike.
    pub fn to_str(&self) -> (r: String)
        ensures
            r@ == canonical_name(*self),
    {
        match self {
            Operation::CamelCase => String::from_str("camelcase"),
            Operation::Csv => String::from_str("csv"),
            Operation::LowerCase => String::from_str("lowercase"),
            Operation::NoSpaces => String::from_str("no-spaces"),
            Operation::Slugify => String::from_str("slugify"),
            Operation::SnakeCase => String::from_str("snakecase"),
            Operation::UpperCase => String::from_str("uppercase"),
        }
    }

    /// All operations, in declaration order; diagnostics list them with this.
    pub fn list_all() -> (v: Vec<Operation>)
        ensures
            v@ == declaration_order(),
    {
        let mut v: Vec<Operation> = Vec::new();
        v.push(Operation::CamelCase);
        v.push(Operation::Csv);
        v.push(Operation::LowerCase);
        v.push(Operation::NoSpaces);
        v.push(Operation::Slugify);
        v.push(Operation::SnakeCase);
        v.push(Operation::UpperCase);
        proof {
            assert(v@ =~= declaration_order());
        }
        v
    }
}

/// If lowercasing `s` character by character gave `low`, and `s` is a
/// capitalization variant of `t`, then `low` is exactly `t`.
proof fn lemma_case_variant_lowers_to(s: Seq<char>, low: Seq<char>, t: Seq<char>)
    requires
        all_ascii(t),
        ascii_case_variant(s, t),
        all_ascii(s) ==> low.len() == s.len() && (forall|i: int|
            0 <= i < s.len() ==> #[trigger] lower_pair(s[i], low[i])),
    ensures
        low == t,
{
    assert(all_ascii(s)) by {
        assert forall|i: int| 0 <= i < s.len() implies #[trigger] is_ascii_char(s[i]) by {
            assert(lower_pair(s[i], t[i]));
            assert(is_ascii_char(t[i]));
        }
    }
    assert forall|i: int| 0 <= i < low.len() implies low[i] == t[i] by {
        assert(lower_pair(s[i], low[i]));
        assert(lower_pair(s[i], t[i]));
        lemma_char_code_injective(low[i], t[i]);
    }
    assert(low =~= t);
}

/// Two characters with the same code point are the same character.
proof fn lemma_char_code_injective(a: char, b: char)
    requires
        a as int == b as int,
    ensures
        a == b,
{
    vstd::utf8::char_u32_cast(a, a as u32);
    vstd::utf8::char_u32_cast(b, b as u32);
}

} // verus!
