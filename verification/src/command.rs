//! The command that a session runs.

use crate::text::{debug_text, join};
use vstd::prelude::*;
use vstd::string::*;
use vstd::utf8::*;

verus! {

/// An argument that no program can be given, since it holds a NUL byte.
#[derive(Debug, PartialEq, Eq)]
pub struct NulArgument {
    /// The argument.
    pub argument: String,
    /// Where its first NUL byte stands.
    pub position: usize,
}

/// The first argument that holds a NUL byte, if one does.
pub open spec fn first_nul_argument(args: Seq<String>) -> Option<NulArgument>
    decreases args.len(),
{
    if args.len() == 0 {
        None
    } else if first_nul_argument(args.drop_last()) is Some {
        first_nul_argument(args.drop_last())
    } else {
        let bytes = encode_utf8(args.last()@);
        if bytes.contains(0) {
            Some(
                NulArgument {
                    argument: args.last(),
                    position: bytes.index_of_first(0)->0 as usize,
                },
            )
        } else {
            None
        }
    }
}

/// The arguments in the form that `execvp` takes: the bytes of each, and a NUL
/// byte behind them.
pub open spec fn nul_terminated(args: Seq<String>) -> Seq<Seq<u8>> {
    args.map_values(|arg: String| encode_utf8(arg@).push(0))
}

/// The contents of each byte string.
pub open spec fn byte_strings(strings: Seq<Vec<u8>>) -> Seq<Seq<u8>> {
    strings.map_values(|s: Vec<u8>| s@)
}

/// Looks for the first NUL byte.
fn find_nul(bytes: &[u8]) -> (position: Option<usize>)
    ensures
        match position {
            Some(position) => bytes@.contains(0) && bytes@.index_of_first(0) == Some(
                position as int,
            ),
            None => !bytes@.contains(0),
        },
{
    let mut i: usize = 0;
    proof {
        bytes@.index_of_first_ensures(0);
    }
    while i < bytes.len()
        invariant
            i <= bytes@.len(),
            forall|j: int| 0 <= j < i ==> bytes@[j] != 0,
        decreases bytes@.len() - i,
    {
        if bytes[i] == 0 {
            proof {
                assert(bytes@[i as int] == 0);
                assert(bytes@.contains(0));
                bytes@.index_of_first_ensures(0);
            }
            return Some(i);
        }
        i = i + 1;
    }
    None
}

/// Converts command arguments to the NUL-terminated representation required by
/// `execvp`.
pub fn to_cstrings(args: &[String]) -> (strings: Result<Vec<Vec<u8>>, NulArgument>)
    ensures
        match strings {
            Ok(strings) => first_nul_argument(args@) is None && byte_strings(strings@)
                == nul_terminated(args@),
            Err(error) => first_nul_argument(args@) == Some(error),
        },
{
    let mut strings: Vec<Vec<u8>> = Vec::new();
    let mut i: usize = 0;
    proof {
        assert(args@.take(0) =~= Seq::<String>::empty());
        assert(byte_strings(strings@) =~= nul_terminated(args@.take(0)));
    }
    while i < args.len()
        invariant
            i <= args@.len(),
            first_nul_argument(args@.take(i as int)) is None,
            byte_strings(strings@) == nul_terminated(args@.take(i as int)),
        decreases args@.len() - i,
    {
        let arg: &String = &args[i];
        let bytes: &[u8] = arg.as_str().as_bytes();
        proof {
            assert(args@.take(i + 1).drop_last() =~= args@.take(i as int));
            assert(args@.take(i + 1).last() == *arg);
        }
        if let Some(position) = find_nul(bytes) {
            proof {
                lemma_first_nul_argument_stays(args@, i + 1);
            }
            return Err(NulArgument { argument: arg.clone(), position });
        }
        let mut string: Vec<u8> = arg.as_str().as_bytes_vec();
        string.push(0);
        proof {
            assert(nul_terminated(args@.take(i + 1)) =~= nul_terminated(args@.take(i as int)).push(
                string@,
            ));
            assert(byte_strings(strings@.push(string)) =~= byte_strings(strings@).push(string@));
        }
        strings.push(string);
        i = i + 1;
    }
    assert(args@.take(args@.len() as int) =~= args@);
    Ok(strings)
}

proof fn lemma_first_nul_argument_stays(args: Seq<String>, n: int)
    requires
        0 <= n <= args.len(),
        first_nul_argument(args.take(n)) is Some,
    ensures
        first_nul_argument(args) == first_nul_argument(args.take(n)),
    decreases args.len(),
{
    if n == args.len() {
        assert(args.take(n) =~= args);
    } else {
        assert(args.drop_last().take(n) =~= args.take(n));
        lemma_first_nul_argument_stays(args.drop_last(), n);
    }
}

/// The words on an argument, by the form in which it is shown.
pub open spec fn nul_argument_text(quoted: Seq<char>) -> Seq<char> {
    "argument contains an interior NUL byte: "@ + quoted
}

/// Writes the words on an argument, by the form in which it is shown.
pub fn nul_argument_message(quoted: &str) -> (message: String)
    ensures
        message@ == nul_argument_text(quoted@),
{
    join("argument contains an interior NUL byte: ", quoted)
}

impl NulArgument {
    /// The words that tell a person which argument was wrong.
    pub open spec fn text(self) -> Seq<char> {
        nul_argument_text(crate::text::debug_form(self.argument@))
    }

    /// The words that tell a person which argument was wrong.
    pub fn message(&self) -> (message: String)
        ensures
            message@ == self.text(),
    {
        let quoted: String = debug_text(self.argument.as_str());
        nul_argument_message(quoted.as_str())
    }
}

/// A command is turned down exactly where one of its arguments holds a NUL byte.
pub proof fn law_only_nul_bytes_are_refused(args: Seq<String>)
    ensures
        first_nul_argument(args) is Some <==> exists|i: int|
            0 <= i < args.len() && encode_utf8((#[trigger] args[i])@).contains(0),
    decreases args.len(),
{
    if args.len() > 0 {
        law_only_nul_bytes_are_refused(args.drop_last());
        if first_nul_argument(args.drop_last()) is Some {
            let i: int = choose|i: int|
                0 <= i < args.drop_last().len() && encode_utf8((#[trigger] args.drop_last()[i])@).contains(0);
            assert(args[i] == args.drop_last()[i]);
        } else if encode_utf8(args.last()@).contains(0) {
            assert(args[args.len() - 1] == args.last());
        } else {
            assert forall|i: int| 0 <= i < args.len() implies !encode_utf8(
                (#[trigger] args[i])@,
            ).contains(0) by {
                if i < args.len() - 1 {
                    assert(args[i] == args.drop_last()[i]);
                }
            }
        }
    }
}

/// A program is given what was asked: in an accepted command the first NUL byte
/// of each argument is the one behind it, so none is cut short.
pub proof fn law_accepted_arguments_are_whole(args: Seq<String>, i: int)
    requires
        first_nul_argument(args) is None,
        0 <= i < args.len(),
    ensures
        nul_terminated(args)[i].drop_last() == encode_utf8(args[i]@),
        nul_terminated(args)[i].last() == 0,
        !nul_terminated(args)[i].drop_last().contains(0),
{
    law_only_nul_bytes_are_refused(args);
    assert(nul_terminated(args)[i].drop_last() =~= encode_utf8(args[i]@));
}

/// A program is given as many arguments as were asked for, and each is the one
/// that was asked for in its place.
pub proof fn law_every_argument_is_passed_on(args: Seq<String>)
    ensures
        nul_terminated(args).len() == args.len(),
        forall|i: int|
            0 <= i < args.len() ==> #[trigger] nul_terminated(args)[i] == encode_utf8(
                args[i]@,
            ).push(0),
{
}

/// The byte strings are those of the list, as many and each in its place.
pub proof fn law_byte_strings_are_those_of_the_list(strings: Seq<Vec<u8>>)
    ensures
        byte_strings(strings).len() == strings.len(),
        forall|i: int| 0 <= i < strings.len() ==> #[trigger] byte_strings(strings)[i] == strings[i]@,
{
}

/// The argument at `i` is `error`'s: it holds a NUL byte, the first of them at
/// the position told, and no argument before it holds one.
pub open spec fn is_first_with_nul(args: Seq<String>, error: NulArgument, i: int) -> bool {
    let bytes = encode_utf8(error.argument@);
    &&& 0 <= i < args.len()
    &&& args[i] == error.argument
    &&& error.position < bytes.len()
    &&& bytes[error.position as int] == 0
    &&& forall|k: int| 0 <= k < error.position ==> bytes[k] != 0
    &&& forall|j: int|
        0 <= j < i ==> !encode_utf8((#[trigger] args[j])@).contains(0)
}

/// The argument that is reported is the first that holds a NUL byte, and the
/// position is that of its first NUL byte.
pub proof fn law_first_nul_byte_is_reported(args: Seq<String>, error: NulArgument)
    requires
        first_nul_argument(args) == Some(error),
        encode_utf8(error.argument@).len() <= usize::MAX,
    ensures
        exists|i: int| is_first_with_nul(args, error, i),
    decreases args.len(),
{
    let head: Seq<String> = args.drop_last();
    if first_nul_argument(head) is Some {
        law_first_nul_byte_is_reported(head, error);
        let i: int = choose|i: int| is_first_with_nul(head, error, i);
        assert forall|j: int| 0 <= j < i implies !encode_utf8((#[trigger] args[j])@).contains(
            0,
        ) by {
            assert(head[j] == args[j]);
        }
        assert(is_first_with_nul(args, error, i));
    } else {
        let bytes: Seq<u8> = encode_utf8(args.last()@);
        bytes.index_of_first_ensures(0);
        law_only_nul_bytes_are_refused(head);
        assert forall|j: int| 0 <= j < head.len() implies !encode_utf8(
            (#[trigger] args[j])@,
        ).contains(0) by {
            assert(head[j] == args[j]);
        }
        assert(is_first_with_nul(args, error, args.len() - 1));
    }
}

/// The words on a refused argument end in the argument itself, as it is shown.
pub proof fn law_refusal_shows_the_argument(error: NulArgument, quoted: Seq<char>)
    ensures
        nul_argument_text(quoted) == "argument contains an interior NUL byte: "@ + quoted,
        error.text() == "argument contains an interior NUL byte: "@ + crate::text::debug_form(
            error.argument@,
        ),
{
}

} // verus!
