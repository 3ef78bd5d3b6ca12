//! How the server is set up, and how errors are told.

use vstd::prelude::*;

use crate::errors::{error_json, ErrorView};
use crate::files::scratch_of;
use crate::number::{decimal, decimal_reads_back, read_number};
use crate::outside::json_literal;
use crate::pathing::root_path;
use crate::printing::pieces_follow_separators;
use crate::server::{origins_in, port_in, token_in};
use crate::split::pieces;
use crate::text::trimmed;

verus! {

/// The server listens on the port that is configured, by its decimal number, and
/// on 6025 where none is.
pub proof fn ports_are_as_configured(configured: Option<String>, port: u16)
    ensures
        configured is None ==> port_in(configured) == Some(6025int),
        configured is Some && configured->0@ == decimal(port as nat) ==> port_in(configured)
            == Some(port as int),
        configured is Some && (read_number(configured->0@, false) is None) ==> port_in(configured)
            is None,
        configured is Some && read_number(configured->0@, false) is Some && read_number(
            configured->0@,
            false,
        )->0 > 65535 ==> port_in(configured) is None,
{
    decimal_reads_back(port as nat);
    decimal_reads_back(6025);
    reveal_strlit("6025");
    reveal_with_fuel(decimal, 5);
    assert(decimal(6025) =~= "6025"@);
}

/// Repositories stand where it is configured, and in `./repos` where it is not.
pub proof fn roots_are_as_configured(configured: Option<String>)
    ensures
        configured is None ==> root_path(configured) == "./repos"@,
        configured is Some ==> root_path(configured) == configured->0@,
{
}

/// Texts with commas between them.
pub open spec fn with_commas(list: Seq<Seq<char>>) -> Seq<char>
    decreases list.len(),
{
    if list.len() == 0 {
        seq![]
    } else if list.len() == 1 {
        list[0]
    } else {
        list[0] + seq![','] + with_commas(list.drop_first())
    }
}

proof fn lemma_commas(list: Seq<Seq<char>>)
    requires
        list.len() > 0,
        forall|i: int| 0 <= i < list.len() ==> !(#[trigger] list[i]).contains(','),
    ensures
        pieces(with_commas(list), ',') == list,
    decreases list.len(),
{
    assert(!list[0].contains(','));
    let rest = list.drop_first();
    pieces_follow_separators(list[0], ',', with_commas(rest), 1);
    if list.len() > 1 {
        assert forall|i: int| 0 <= i < rest.len() implies !(#[trigger] rest[i]).contains(',') by {
            assert(rest[i] == list[i + 1]);
        }
        lemma_commas(rest);
        assert(seq![list[0]] + rest =~= list);
    } else {
        assert(seq![list[0]] =~= list);
    }
}

/// Every origin may call unless some are configured; then those between the
/// commas may, in their order, each without the white space around it.
pub proof fn origins_are_as_configured(configured: Option<String>, list: Seq<Seq<char>>, i: int)
    requires
        list.len() > 0,
        forall|j: int| 0 <= j < list.len() ==> !(#[trigger] list[j]).contains(','),
    ensures
        configured is None ==> origins_in(configured) is None,
        configured is Some && configured->0@ == "*"@ ==> origins_in(configured) is None,
        configured is Some && configured->0@ == with_commas(list) && with_commas(list) != "*"@ ==> {
            &&& origins_in(configured) is Some
            &&& origins_in(configured)->0.len() == list.len()
            &&& 0 <= i < list.len() ==> origins_in(configured)->0[i] == trimmed(list[i])
        },
{
    lemma_commas(list);
}

/// A token is what stands behind `Bearer `, whatever it is; another header has
/// none.
pub proof fn tokens_stand_behind_their_scheme(header: Seq<char>, token: Seq<char>)
    ensures
        token_in("Bearer "@ + token) == Some(token),
        token_in(header) is None <==> !(exists|t: Seq<char>| header == #[trigger] ("Bearer "@ + t)),
{
    let scheme = "Bearer "@;
    let whole = scheme + token;
    assert(whole.subrange(0, 0int + scheme.len()) =~= scheme);
    assert(whole.skip(scheme.len() as int) =~= token);
    if token_in(header) is Some {
        let t = header.skip(scheme.len() as int);
        assert(header =~= scheme + t) by {
            assert(header.subrange(0, 0int + scheme.len()) == scheme);
            assert forall|j: int| 0 <= j < scheme.len() implies header[j] == scheme[j] by {
                assert(header.subrange(0, 0int + scheme.len())[j] == scheme[j]);
            }
        }
    } else {
        assert forall|t: Seq<char>| header != #[trigger] (scheme + t) by {
            if header == scheme + t {
                assert(header.subrange(0, 0int + scheme.len()) =~= scheme);
            }
        }
    }
}

/// An error is told as a JSON object of its message, and of the detail where
/// there is one.
pub proof fn errors_are_told_in_full(e: ErrorView)
    ensures
        e.detail is None ==> error_json(e) == "{\"error\":"@ + json_literal(e.error) + "}"@,
        e.detail is Some ==> error_json(e) == "{\"detail\":"@ + json_literal(e.detail->0)
            + ",\"error\":"@ + json_literal(e.error) + "}"@,
{
}

/// Temporary work trees of different ids have different names.
pub proof fn work_trees_have_their_own_names(a: Seq<char>, b: Seq<char>)
    ensures
        scratch_of(a) == "git-agent-wt-"@ + a,
        a != b ==> scratch_of(a) != scratch_of(b),
{
    let prefix = "git-agent-wt-"@;
    assert(scratch_of(a).skip(prefix.len() as int) =~= a);
    assert(scratch_of(b).skip(prefix.len() as int) =~= b);
}

} // verus!
