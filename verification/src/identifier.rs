//! Variable names and values on their way into a `SET` statement: which
//! names may stand in one, and how a value is quoted.

use crate::failure::{DbError, Failure};
use crate::text::chars_of;
use vstd::prelude::*;
use vstd::string::*;

verus! {

/// Whether a character may stand in a variable name: an ASCII letter, an
/// ASCII digit or the underscore.
pub open spec fn is_name_char(c: char) -> bool {
    ('a' <= c && c <= 'z') || ('A' <= c && c <= 'Z') || ('0' <= c && c <= '9') || c == '_'
}

/// Whether a name may stand in a statement: every character of it is an
/// ASCII letter, an ASCII digit or the underscore.
pub open spec fn is_valid_name(name: Seq<char>) -> bool {
    forall|i: int| 0 <= i < name.len() ==> is_name_char(#[trigger] name[i])
}

/// Whether a character may stand in a variable name.
pub fn name_char(c: char) -> (ok: bool)
    ensures
        ok == is_name_char(c),
{
    ('a' <= c && c <= 'z') || ('A' <= c && c <= 'Z') || ('0' <= c && c <= '9') || c == '_'
}

/// Accepts a variable name that may stand in a statement and refuses every
/// other.
pub fn validate(name: &str) -> (checked: Result<(), DbError>)
    ensures
        match checked {
            Ok(()) => is_valid_name(name@),
            Err(error) => !is_valid_name(name@) && error@ == (Failure::InvalidIdentifier {
                name: name@,
            }),
        },
{
    let all = chars_of(name);
    let mut i: usize = 0;
    while i < all.len()
        invariant
            all@ == name@,
            i <= all.len(),
            forall|k: int| 0 <= k < i ==> is_name_char(#[trigger] name@[k]),
        decreases all.len() - i,
    {
        if !name_char(all[i]) {
            return Err(DbError::InvalidIdentifier { name: name.to_owned() });
        }
        i += 1;
    }
    Ok(())
}

/// What one character of a value becomes inside quotes: a backslash and a
/// quote are doubled, every other character stands as it is.
pub open spec fn escaped_char(c: char) -> Seq<char> {
    if c == '\\' {
        seq!['\\', '\\']
    } else if c == '\'' {
        seq!['\'', '\'']
    } else {
        seq![c]
    }
}

/// A value as it stands inside quotes: each of its characters escaped, in
/// order.
pub open spec fn escaped(value: Seq<char>) -> Seq<char>
    decreases value.len(),
{
    if value.len() == 0 {
        Seq::empty()
    } else {
        escaped(value.drop_last()) + escaped_char(value.last())
    }
}

/// Escapes a value for a place between single quotes.
pub fn escape_value(value: &str) -> (quoted: String)
    ensures
        quoted@ == escaped(value@),
{
    let all = chars_of(value);
    let mut quoted = String::new();
    let mut i: usize = 0;
    while i < all.len()
        invariant
            all@ == value@,
            i <= all.len(),
            quoted@ == escaped(all@.subrange(0, i as int)),
        decreases all.len() - i,
    {
        let c = all[i];
        proof {
            let upto = all@.subrange(0, i + 1);
            assert(upto.drop_last() =~= all@.subrange(0, i as int));
            assert(upto.last() == c);
        }
        if c == '\\' {
            quoted.push('\\');
            quoted.push('\\');
        } else if c == '\'' {
            quoted.push('\'');
            quoted.push('\'');
        } else {
            quoted.push(c);
        }
        proof {
            assert(quoted@ =~= escaped(all@.subrange(0, i as int)) + escaped_char(c));
        }
        i += 1;
    }
    proof {
        assert(all@.subrange(0, i as int) =~= all@);
    }
    quoted
}

/// Whether a scope reads `GLOBAL`, in any mix of upper and lower case.
pub open spec fn names_global(scope: Seq<char>) -> bool {
    &&& scope.len() == 6
    &&& (scope[0] == 'G' || scope[0] == 'g')
    &&& (scope[1] == 'L' || scope[1] == 'l')
    &&& (scope[2] == 'O' || scope[2] == 'o')
    &&& (scope[3] == 'B' || scope[3] == 'b')
    &&& (scope[4] == 'A' || scope[4] == 'a')
    &&& (scope[5] == 'L' || scope[5] == 'l')
}

/// The scope word of a `SET` statement: `GLOBAL` where the scope asks for
/// it, `SESSION` for every other scope.
pub open spec fn scope_word(scope: Seq<char>) -> Seq<char> {
    if names_global(scope) {
        "GLOBAL"@
    } else {
        "SESSION"@
    }
}

/// Whether a scope reads `GLOBAL`, in any mix of upper and lower case.
pub fn is_global(scope: &str) -> (global: bool)
    ensures
        global == names_global(scope@),
{
    let all = chars_of(scope);
    all.len() == 6 && (all[0] == 'G' || all[0] == 'g') && (all[1] == 'L' || all[1] == 'l') && (all[2]
        == 'O' || all[2] == 'o') && (all[3] == 'B' || all[3] == 'b') && (all[4] == 'A' || all[4]
        == 'a') && (all[5] == 'L' || all[5] == 'l')
}

/// The statement that sets a variable.
pub open spec fn set_statement(scope: Seq<char>, name: Seq<char>, value: Seq<char>) -> Seq<char> {
    "SET "@ + scope_word(scope) + " "@ + name + " = '"@ + escaped(value) + "'"@
}

/// The statement that sets the variable `name` to `value` in the given
/// scope. A name that may not stand in a statement is refused, and no
/// statement is built.
pub fn set_variable_statement(scope: &str, name: &str, value: &str) -> (built: Result<
    String,
    DbError,
>)
    ensures
        match built {
            Ok(statement) => is_valid_name(name@) && statement@ == set_statement(
                scope@,
                name@,
                value@,
            ),
            Err(error) => !is_valid_name(name@) && error@ == (Failure::InvalidIdentifier {
                name: name@,
            }),
        },
{
    match validate(name) {
        Err(error) => Err(error),
        Ok(()) => {
            let mut statement = String::new();
            statement.append("SET ");
            if is_global(scope) {
                statement.append("GLOBAL");
            } else {
                statement.append("SESSION");
            }
            statement.append(" ");
            statement.append(name);
            statement.append(" = '");
            statement.append(escape_value(value).as_str());
            statement.append("'");
            proof {
                assert(statement@ =~= set_statement(scope@, name@, value@));
            }
            Ok(statement)
        },
    }
}

} // verus!
