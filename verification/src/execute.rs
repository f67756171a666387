use vstd::prelude::*;
use vstd::string::StrSliceExecFns;
use vstd::string::StringExecFns;

use crate::error::{ErrorView, OperationError};
use crate::fold::{camel_of, lower_of, slug_of, snake_of, upper_of};
use crate::fold::{lowercase, to_camel, to_slug, to_snake, uppercase};
use crate::ops::Operation;
use crate::table::{process_csv, spec_process_csv};

verus! {

/// `s` with every literal space character removed.
pub open spec fn strip_spaces(s: Seq<char>) -> Seq<char>
    decreases s.len(),
{
    if s.len() == 0 {
        Seq::empty()
    } else if s.last() == ' ' {
        strip_spaces(s.drop_last())
    } else {
        strip_spaces(s.drop_last()).push(s.last())
    }
}

/// Appending one character strips to the stripped prefix, with the character
/// kept exactly when it is not a space.
pub proof fn lemma_strip_spaces_push(s: Seq<char>, c: char)
    ensures
        strip_spaces(s.push(c)) == if c == ' ' {
            strip_spaces(s)
        } else {
            strip_spaces(s).push(c)
        },
{
    assert(s.push(c).drop_last() =~= s);
    assert(s.push(c).last() == c);
}

/// Removing spaces is idempotent: a second application changes nothing.
pub proof fn lemma_strip_spaces_idempotent(s: Seq<char>)
    ensures
        strip_spaces(strip_spaces(s)) == strip_spaces(s),
    decreases s.len(),
{
    if s.len() > 0 {
        lemma_strip_spaces_idempotent(s.drop_last());
        if s.last() != ' ' {
            lemma_strip_spaces_push(strip_spaces(s.drop_last()), s.last());
        }
    }
}

/// What executing an operation on a payload returns: the transformed text, or
/// the error the CSV path raises.
pub open spec fn spec_execute(op: Operation, input: Seq<char>) -> Result<Seq<char>, ErrorView> {
    match op {
        Operation::CamelCase => Ok(camel_of(input)),
        Operation::Csv => spec_process_csv(input),
        Operation::LowerCase => Ok(lower_of(input)),
        Operation::NoSpaces => Ok(strip_spaces(input)),
        Operation::Slugify => Ok(slug_of(input)),
        Operation::SnakeCase => Ok(snake_of(input)),
        Operation::UpperCase => Ok(upper_of(input)),
    }
}

/// Re-case the input on word boundaries into the camel convention; total.
pub fn process_camel_case(input: &str) -> (r: Result<String, OperationError>)
    ensures
        r matches Ok(out) && out@ == camel_of(input@),
{
    Ok(to_camel(input))
}

/// Lowercase the whole input, full Unicode case folding; total.
pub fn process_lower_case(input: &str) -> (r: Result<String, OperationError>)
    ensures
        r matches Ok(out) && out@ == lower_of(input@),
{
    Ok(lowercase(input))
}

/// Remove every literal space character from the input; total.
pub fn process_no_spaces(input: &str) -> (r: Result<String, OperationError>)
    ensures
        r matches Ok(out) && out@ == strip_spaces(input@),
{
    let n = input.unicode_len();
    let mut out = String::new();
    let mut i: usize = 0;
    while i < n
        invariant
            n == input@.len(),
            i <= n,
            out@ == strip_spaces(input@.subrange(0, i as int)),
        decreases n - i,
    {
        let c = input.get_char(i);
        proof {
            assert(input@.subrange(0, i as int).push(input@[i as int]) =~= input@.subrange(
                0,
                i as int + 1,
            ));
            lemma_strip_spaces_push(input@.subrange(0, i as int), input@[i as int]);
        }
        if c != ' ' {
            let piece = input.substring_char(i, i + 1);
            proof {
                assert(piece@ =~= seq![input@[i as int]]);
                assert(out@ + piece@ =~= out@.push(input@[i as int]));
            }
            out.append(piece);
        }
        i = i + 1;
    }
    proof {
        assert(input@.subrange(0, n as int) =~= input@);
    }
    Ok(out)
}

/// Normalize the input to a lowercase URL-safe slug; total.
pub fn process_slugify(input: &str) -> (r: Result<String, OperationError>)
    ensures
        r matches Ok(out) && out@ == slug_of(input@),
{
    Ok(to_slug(input))
}

/// Re-case the input on word boundaries into the snake convention; total.
pub fn process_snake_case(input: &str) -> (r: Result<String, OperationError>)
    ensures
        r matches Ok(out) && out@ == snake_of(input@),
{
    Ok(to_snake(input))
}

/// Uppercase the whole input, full Unicode case folding; total.
pub fn process_upper_case(input: &str) -> (r: Result<String, OperationError>)
    ensures
        r matches Ok(out) && out@ == upper_of(input@),
{
    Ok(uppercase(input))
}

/// Execute one operation on its payload. Every operation but the CSV one is
/// total; the CSV one fails exactly as [`spec_process_csv`] says.
pub fn process_operation(op: Operation, input: &str) -> (r: Result<String, OperationError>)
    ensures
        match r {
            Ok(out) => spec_execute(op, input@) == Ok::<Seq<char>, ErrorView>(out@),
            Err(e) => spec_execute(op, input@) == Err::<Seq<char>, ErrorView>(e@),
        },
        !(op is Csv) ==> r is Ok,
{
    match op {
        Operation::CamelCase => process_camel_case(input),
        Operation::LowerCase => process_lower_case(input),
        Operation::NoSpaces => process_no_spaces(input),
        Operation::Slugify => process_slugify(input),
        Operation::SnakeCase => process_snake_case(input),
        Operation::UpperCase => process_upper_case(input),
        Operation::Csv => process_csv(input),
    }
}

} // verus!
