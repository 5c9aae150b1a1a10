//! Reading chains out of a flat list of tokens.
//!
//! One separator token stands between chains that run side by side; the separator
//! written twice in one token stands between the programs of one chain.  The first
//! token of a program is its name and the others are its arguments.  Separators
//! with nothing between them, and chains without a program, are passed over.

use crate::process::{ProcessSpec, ProcessSpecView};
use vstd::prelude::*;
use vstd::string::StringExecFns;

verus! {

/// How many tokens stand at the front of `tokens` before the first `separator`:
/// all of them if there is none.
pub open spec fn run_length(tokens: Seq<Seq<char>>, separator: Seq<char>) -> nat
    decreases tokens.len(),
{
    if tokens.len() == 0 || tokens[0] == separator {
        0
    } else {
        1 + run_length(tokens.drop_first(), separator)
    }
}

/// A run is never longer than the tokens it is taken from.
pub proof fn lemma_run_length_bound(tokens: Seq<Seq<char>>, separator: Seq<char>)
    ensures
        run_length(tokens, separator) <= tokens.len(),
    decreases tokens.len(),
{
    if tokens.len() > 0 && tokens[0] != separator {
        lemma_run_length_bound(tokens.drop_first(), separator);
    }
}

/// The pieces of `tokens` between separators, in order, without the empty ones:
/// separators at the front are passed over, the longest run without a separator is
/// a piece, and the rest is read in the same way.
pub open spec fn pieces(tokens: Seq<Seq<char>>, separator: Seq<char>) -> Seq<Seq<Seq<char>>>
    decreases tokens.len(),
{
    if tokens.len() == 0 {
        Seq::empty()
    } else if tokens[0] == separator {
        pieces(tokens.drop_first(), separator)
    } else {
        let length = run_length(tokens, separator) as int;
        proof {
            lemma_run_length_bound(tokens, separator);
        }
        seq![tokens.take(length)] + pieces(tokens.skip(length), separator)
    }
}

/// The program that a piece names: its first token, with the others as arguments.
pub open spec fn spec_of(piece: Seq<Seq<char>>) -> ProcessSpecView {
    ProcessSpecView { program: piece[0], args: piece.skip(1) }
}

/// The chain that a group of tokens names: one program for each of its pieces.
pub open spec fn chain_of(group: Seq<Seq<char>>, step_separator: Seq<char>) -> Seq<
    ProcessSpecView,
> {
    pieces(group, step_separator).map_values(|piece: Seq<Seq<char>>| spec_of(piece))
}

/// The chains that `groups` name, in order, without those that have no program.
pub open spec fn chains_from(groups: Seq<Seq<Seq<char>>>, step_separator: Seq<char>) -> Seq<
    Seq<ProcessSpecView>,
> {
    groups.map_values(|group: Seq<Seq<char>>| chain_of(group, step_separator)).filter(
        |chain: Seq<ProcessSpecView>| chain.len() > 0,
    )
}

/// The chains that `tokens` name.
pub open spec fn chains_of(tokens: Seq<Seq<char>>, separator: Seq<char>) -> Seq<
    Seq<ProcessSpecView>,
> {
    chains_from(pieces(tokens, separator), separator + separator)
}

/// Every piece holds at least one token.
pub proof fn lemma_pieces_hold_tokens(tokens: Seq<Seq<char>>, separator: Seq<char>)
    ensures
        forall|i: int|
            0 <= i < pieces(tokens, separator).len() ==> (#[trigger] pieces(
                tokens,
                separator,
            )[i]).len() > 0,
    decreases tokens.len(),
{
    if tokens.len() == 0 {
    } else if tokens[0] == separator {
        lemma_pieces_hold_tokens(tokens.drop_first(), separator);
        assert(pieces(tokens, separator) == pieces(tokens.drop_first(), separator));
    } else {
        let length = run_length(tokens, separator) as int;
        lemma_run_length_bound(tokens, separator);
        lemma_pieces_hold_tokens(tokens.skip(length), separator);
        let rest = pieces(tokens.skip(length), separator);
        assert forall|i: int| 0 <= i < pieces(tokens, separator).len() implies (#[trigger] pieces(
            tokens,
            separator,
        )[i]).len() > 0 by {
            if i > 0 {
                assert(pieces(tokens, separator)[i] == rest[i - 1]);
            }
        }
    }
}

/// One more group adds its chain at the end, unless that chain has no program.
pub proof fn lemma_chains_from_push(
    groups: Seq<Seq<Seq<char>>>,
    group: Seq<Seq<char>>,
    step_separator: Seq<char>,
)
    ensures
        chain_of(group, step_separator).len() > 0 ==> chains_from(
            groups.push(group),
            step_separator,
        ) == chains_from(groups, step_separator).push(chain_of(group, step_separator)),
        chain_of(group, step_separator).len() == 0 ==> chains_from(
            groups.push(group),
            step_separator,
        ) == chains_from(groups, step_separator),
{
    let named = |group: Seq<Seq<char>>| chain_of(group, step_separator);
    assert(groups.push(group).map_values(named).drop_last() =~= groups.map_values(named));
    reveal_with_fuel(Seq::filter, 2);
}

/// Every chain that is read holds at least one program.
pub proof fn lemma_chains_hold_programs(groups: Seq<Seq<Seq<char>>>, step_separator: Seq<char>)
    ensures
        forall|i: int|
            0 <= i < chains_from(groups, step_separator).len() ==> (#[trigger] chains_from(
                groups,
                step_separator,
            )[i]).len() > 0,
{
    let named = groups.map_values(|group: Seq<Seq<char>>| chain_of(group, step_separator));
    let holds_program = |chain: Seq<ProcessSpecView>| chain.len() > 0;
    assert forall|i: int| 0 <= i < named.filter(holds_program).len() implies (
    #[trigger] named.filter(holds_program)[i]).len() > 0 by {
        named.lemma_filter_pred(holds_program, i);
    }
}

fn split(tokens: &Vec<String>, separator: &String) -> (parts: Vec<Vec<String>>)
    ensures
        parts.deep_view() == pieces(tokens.deep_view(), separator@),
{
    let ghost all = tokens.deep_view();
    let mut parts: Vec<Vec<String>> = Vec::new();
    let mut i: usize = 0;
    assert(all.skip(0) =~= all);
    while i < tokens.len()
        invariant
            i <= tokens.len(),
            all == tokens.deep_view(),
            pieces(all, separator@) == parts.deep_view() + pieces(all.skip(i as int), separator@),
        decreases tokens.len() - i,
    {
        let ghost rest = all.skip(i as int);
        if tokens[i] == *separator {
            assert(rest.drop_first() =~= all.skip(i + 1));
            i += 1;
        } else {
            let start = i;
            let mut piece: Vec<String> = Vec::new();
            while i < tokens.len() && !(tokens[i] == *separator)
                invariant
                    start <= i <= tokens.len(),
                    all == tokens.deep_view(),
                    piece.deep_view() == all.subrange(start as int, i as int),
                    run_length(all.skip(start as int), separator@) == (i - start) + run_length(
                        all.skip(i as int),
                        separator@,
                    ),
                decreases tokens.len() - i,
            {
                let ghost before = piece.deep_view();
                assert(all.skip(i as int).drop_first() =~= all.skip(i + 1));
                piece.push(tokens[i].clone());
                assert(piece.deep_view() =~= before.push(tokens[i as int]@));
                i += 1;
            }
            proof {
                assert(rest.take(i - start) =~= all.subrange(start as int, i as int));
                assert(rest.skip(i - start) =~= all.skip(i as int));
            }
            parts.push(piece);
        }
    }
    parts
}

fn to_spec(piece: &Vec<String>) -> (spec: ProcessSpec)
    requires
        piece.len() > 0,
    ensures
        spec@ == spec_of(piece.deep_view()),
{
    let ghost all = piece.deep_view();
    let program = piece[0].clone();
    let mut args: Vec<String> = Vec::new();
    let mut i: usize = 1;
    while i < piece.len()
        invariant
            1 <= i <= piece.len(),
            all == piece.deep_view(),
            args.deep_view() == all.subrange(1, i as int),
        decreases piece.len() - i,
    {
        let ghost before = args.deep_view();
        args.push(piece[i].clone());
        assert(args.deep_view() =~= before.push(piece[i as int]@));
        i += 1;
    }
    ProcessSpec { program, args }
}

fn to_chain(group: &Vec<String>, step_separator: &String) -> (chain: Vec<ProcessSpec>)
    ensures
        chain.deep_view() == chain_of(group.deep_view(), step_separator@),
{
    let parts = split(group, step_separator);
    let ghost all = parts.deep_view();
    proof {
        lemma_pieces_hold_tokens(group.deep_view(), step_separator@);
    }
    let mut chain: Vec<ProcessSpec> = Vec::new();
    let mut i: usize = 0;
    while i < parts.len()
        invariant
            i <= parts.len(),
            all == parts.deep_view(),
            forall|k: int| 0 <= k < all.len() ==> (#[trigger] all[k]).len() > 0,
            chain.deep_view() == all.take(i as int).map_values(
                |piece: Seq<Seq<char>>| spec_of(piece),
            ),
        decreases parts.len() - i,
    {
        let ghost before = chain.deep_view();
        assert(all[i as int] == parts[i as int].deep_view());
        let spec = to_spec(&parts[i]);
        chain.push(spec);
        assert(chain.deep_view() =~= before.push(spec@));
        i += 1;
    }
    chain
}

/// Reads the chains that `tokens` name.  `separator` stands between chains, and
/// `separator` written twice in one token stands between the programs of a chain.
pub fn process_chains(tokens: &Vec<String>, separator: &String) -> (chains: Vec<Vec<ProcessSpec>>)
    ensures
        chains.deep_view() == chains_of(tokens.deep_view(), separator@),
        forall|i: int| 0 <= i < chains.len() ==> (#[trigger] chains[i]).len() > 0,
{
    proof {
        lemma_chains_hold_programs(pieces(tokens.deep_view(), separator@), separator@ + separator@);
    }
    let step_separator = separator.clone().concat(separator.as_str());
    let groups = split(tokens, separator);
    let ghost all = groups.deep_view();
    let mut chains: Vec<Vec<ProcessSpec>> = Vec::new();
    let mut i: usize = 0;
    proof {
        reveal_with_fuel(Seq::filter, 1);
    }
    while i < groups.len()
        invariant
            i <= groups.len(),
            all == groups.deep_view(),
            step_separator@ == separator@ + separator@,
            chains.deep_view() == chains_from(all.take(i as int), step_separator@),
        decreases groups.len() - i,
    {
        let ghost before = chains.deep_view();
        let chain = to_chain(&groups[i], &step_separator);
        proof {
            assert(all.take(i + 1) =~= all.take(i as int).push(all[i as int]));
            lemma_chains_from_push(all.take(i as int), all[i as int], step_separator@);
        }
        if chain.len() > 0 {
            chains.push(chain);
        }
        i += 1;
    }
    assert(all.take(i as int) =~= all);
    assert forall|i: int| 0 <= i < chains.len() implies (#[trigger] chains[i]).len() > 0 by {
        assert(chains.deep_view()[i].len() == chains[i].len());
    }
    chains
}

} // verus!
