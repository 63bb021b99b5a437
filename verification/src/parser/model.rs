//! The mathematical model of parsing: what result a token sequence yields
//! against a definition tree. The executable parser in `utils` is proved to
//! return exactly what [`parse_spec`] says.

use vstd::prelude::*;

use crate::builder::app::App;
use crate::builder::command::Command;
use crate::builder::flag::Flag;
use crate::errors::ErrView;
use crate::parser::command_parsed::ParsedView;

verus! {

/// Index of the first command in `cmds` whose name reads `name`, or -1 when
/// none does. Sibling names need not be unique; the first match is the one
/// that owns the rest of the parse.
pub open spec fn first_named_idx(cmds: Seq<Command>, name: Seq<char>) -> int
    decreases cmds.len(),
{
    if cmds.len() == 0 {
        -1
    } else if cmds[0].name@ == name {
        0
    } else {
        let rest = first_named_idx(cmds.drop_first(), name);
        if rest < 0 {
            -1
        } else {
            rest + 1
        }
    }
}

/// Some command in `cmds` is named `name`.
pub open spec fn has_named(cmds: Seq<Command>, name: Seq<char>) -> bool {
    exists|i: int| 0 <= i < cmds.len() && cmds[i].name@ == name
}

/// `first_named_idx` finds an index exactly when a match exists, and what it
/// finds is the earliest match.
pub proof fn lemma_first_named_idx(cmds: Seq<Command>, name: Seq<char>)
    ensures
        first_named_idx(cmds, name) >= 0 <==> has_named(cmds, name),
        first_named_idx(cmds, name) >= 0 ==> {
            let k = first_named_idx(cmds, name);
            &&& k < cmds.len()
            &&& cmds[k].name@ == name
            &&& forall|j: int| 0 <= j < k ==> cmds[j].name@ != name
        },
    decreases cmds.len(),
{
    if cmds.len() == 0 {
    } else if cmds[0].name@ == name {
    } else {
        let rest = cmds.drop_first();
        lemma_first_named_idx(rest, name);
        assert(forall|i: int| 0 <= i < rest.len() ==> rest[i] == cmds[i + 1]);
        if has_named(cmds, name) {
            let w = choose|i: int| 0 <= i < cmds.len() && cmds[i].name@ == name;
            assert(rest[w - 1] == cmds[w]);
            assert(has_named(rest, name));
        }
        if has_named(rest, name) {
            let w = choose|i: int| 0 <= i < rest.len() && rest[i].name@ == name;
            assert(cmds[w + 1] == rest[w]);
            assert(has_named(cmds, name));
        }
        let k = first_named_idx(cmds, name);
        if k >= 0 {
            assert(cmds[k] == rest[k - 1]);
            assert forall|j: int| 0 <= j < k implies cmds[j].name@ != name by {
                if j > 0 {
                    assert(cmds[j] == rest[j - 1]);
                }
            }
        }
    }
}

/// The earliest match determines `first_named_idx`: if `cmds[i]` is named
/// `name` and nothing before it is, the function returns `i`.
pub proof fn lemma_first_named_idx_is(cmds: Seq<Command>, name: Seq<char>, i: int)
    requires
        0 <= i < cmds.len(),
        cmds[i].name@ == name,
        forall|j: int| 0 <= j < i ==> cmds[j].name@ != name,
    ensures
        first_named_idx(cmds, name) == i,
    decreases cmds.len(),
{
    if i == 0 {
    } else {
        let rest = cmds.drop_first();
        assert(forall|j: int| 0 <= j < rest.len() ==> rest[j] == cmds[j + 1]);
        lemma_first_named_idx_is(rest, name, i - 1);
    }
}

/// A token is flag-shaped when it begins with `-`.
pub open spec fn is_flag_token(t: Seq<char>) -> bool {
    t.len() > 0 && t[0] == '-'
}

/// A flag token's body: the token with every leading `-` dropped.
pub open spec fn strip_dashes(t: Seq<char>) -> Seq<char>
    decreases t.len(),
{
    if t.len() > 0 && t[0] == '-' {
        strip_dashes(t.drop_first())
    } else {
        t
    }
}

/// Dropping the leading dashes is skipping past them: if the first `k`
/// characters are `-` and the next one is not, the stripped body is the
/// suffix from `k`.
pub proof fn lemma_strip_dashes_skip(t: Seq<char>, k: int)
    requires
        0 <= k <= t.len(),
        forall|j: int| 0 <= j < k ==> t[j] == '-',
        k < t.len() ==> t[k] != '-',
    ensures
        strip_dashes(t) == t.skip(k),
    decreases k,
{
    if k == 0 {
        assert(t.skip(0) =~= t);
    } else {
        let rest = t.drop_first();
        assert(forall|j: int| 0 <= j < rest.len() ==> rest[j] == t[j + 1]);
        lemma_strip_dashes_skip(rest, k - 1);
        assert(rest.skip(k - 1) =~= t.skip(k));
    }
}

/// The first character of a stripped body, or nothing when it is empty.
pub open spec fn first_char(s: Seq<char>) -> Option<char> {
    if s.len() == 0 {
        None
    } else {
        Some(s[0])
    }
}

/// A stripped token body names flag `f`: either it is exactly the long name,
/// or the flag's short form equals the body's first character — including the
/// case that both are absent.
pub open spec fn flag_matches(f: Flag, body: Seq<char>) -> bool {
    f.long@ == body || f.short == first_char(body)
}

/// Index of the first flag in `flags` that `body` names, or -1 when none.
pub open spec fn first_flag_idx(flags: Seq<Flag>, body: Seq<char>) -> int
    decreases flags.len(),
{
    if flags.len() == 0 {
        -1
    } else if flag_matches(flags[0], body) {
        0
    } else {
        let rest = first_flag_idx(flags.drop_first(), body);
        if rest < 0 {
            -1
        } else {
            rest + 1
        }
    }
}

/// `first_flag_idx` finds an index exactly when a match exists, and what it
/// finds is the earliest match.
pub proof fn lemma_first_flag_idx(flags: Seq<Flag>, body: Seq<char>)
    ensures
        first_flag_idx(flags, body) >= 0 <==> exists|i: int|
            0 <= i < flags.len() && flag_matches(flags[i], body),
        first_flag_idx(flags, body) >= 0 ==> {
            let k = first_flag_idx(flags, body);
            &&& k < flags.len()
            &&& flag_matches(flags[k], body)
            &&& forall|j: int| 0 <= j < k ==> !flag_matches(flags[j], body)
        },
    decreases flags.len(),
{
    if flags.len() == 0 {
    } else if flag_matches(flags[0], body) {
    } else {
        let rest = flags.drop_first();
        lemma_first_flag_idx(rest, body);
        assert(forall|i: int| 0 <= i < rest.len() ==> rest[i] == flags[i + 1]);
        if exists|i: int| 0 <= i < flags.len() && flag_matches(flags[i], body) {
            let w = choose|i: int| 0 <= i < flags.len() && flag_matches(flags[i], body);
            assert(rest[w - 1] == flags[w]);
            assert(exists|i: int| 0 <= i < rest.len() && flag_matches(rest[i], body));
        }
        if exists|i: int| 0 <= i < rest.len() && flag_matches(rest[i], body) {
            let w = choose|i: int| 0 <= i < rest.len() && flag_matches(rest[i], body);
            assert(flags[w + 1] == rest[w]);
            assert(exists|i: int| 0 <= i < flags.len() && flag_matches(flags[i], body));
        }
        let k = first_flag_idx(flags, body);
        if k >= 0 {
            assert(flags[k] == rest[k - 1]);
            assert forall|j: int| 0 <= j < k implies !flag_matches(flags[j], body) by {
                if j > 0 {
                    assert(flags[j] == rest[j - 1]);
                }
            }
        }
    }
}

/// The earliest match determines `first_flag_idx`.
pub proof fn lemma_first_flag_idx_is(flags: Seq<Flag>, body: Seq<char>, i: int)
    requires
        0 <= i < flags.len(),
        flag_matches(flags[i], body),
        forall|j: int| 0 <= j < i ==> !flag_matches(flags[j], body),
    ensures
        first_flag_idx(flags, body) == i,
    decreases flags.len(),
{
    if i == 0 {
    } else {
        let rest = flags.drop_first();
        assert(forall|j: int| 0 <= j < rest.len() ==> rest[j] == flags[j + 1]);
        lemma_first_flag_idx_is(rest, body, i - 1);
    }
}

/// The long names of the flags the tokens name, scanned left to right over
/// the whole token sequence. A flag-shaped token that names no flag in the
/// scope contributes nothing; one that does contributes the long name of the
/// earliest flag it names — a short-form match is canonicalized this way.
pub open spec fn matched_flags(flags: Seq<Flag>, toks: Seq<Seq<char>>) -> Seq<Seq<char>>
    decreases toks.len(),
{
    if toks.len() == 0 {
        Seq::empty()
    } else {
        let prefix = matched_flags(flags, toks.drop_last());
        let t = toks.last();
        if is_flag_token(t) && first_flag_idx(flags, strip_dashes(t)) >= 0 {
            prefix.push(flags[first_flag_idx(flags, strip_dashes(t))].long@)
        } else {
            prefix
        }
    }
}

/// The flag set one parse matches against: the resolved subcommand's set when
/// the index-2 token names a subcommand of the resolved command, else the
/// resolved command's own set. The two sets are never merged.
pub open spec fn scope_flags(app: App, toks: Seq<Seq<char>>) -> Seq<Flag>
    recommends
        2 <= toks.len(),
        first_named_idx(app.commands@, toks[1]) >= 0,
{
    let cmd = app.commands@[first_named_idx(app.commands@, toks[1])];
    if toks.len() >= 3 && first_named_idx(cmd.subcommands@, toks[2]) >= 0 {
        cmd.subcommands@[first_named_idx(cmd.subcommands@, toks[2])].flags@
    } else {
        cmd.flags@
    }
}

/// Everything after the first `skip` tokens, in original order; empty when
/// fewer than `skip` tokens exist.
pub open spec fn values_after(toks: Seq<Seq<char>>, skip: int) -> Seq<Seq<char>> {
    if skip <= toks.len() {
        toks.skip(skip)
    } else {
        Seq::empty()
    }
}

/// What parsing yields, step by step:
///
/// 1. Fewer than 2 tokens is a structural failure.
/// 2. The index-1 token must name a top-level command; the earliest such
///    command owns the rest of the parse.
/// 3. An index-2 token, when present, must name a subcommand of that command.
/// 4. Every flag-shaped token in the whole sequence is matched against the
///    scope's flags; unrecognized ones are ignored, but zero recognized flags
///    overall is a failure. Matches are reported under their long names in
///    token order.
/// 5. The positional values are the tokens after a fixed prefix: 2 tokens
///    (program name and command) or 3 (with a subcommand), plus one per
///    recognized flag. The prefix is an offset, not a classification: flags
///    interleaved after positional-looking tokens are not skipped.
pub open spec fn parse_spec(app: App, toks: Seq<Seq<char>>) -> Result<ParsedView, ErrView> {
    if toks.len() < 2 {
        Err(ErrView::InvalidInput("Too few arguments"@))
    } else if first_named_idx(app.commands@, toks[1]) < 0 {
        Err(ErrView::InvalidCommand("Command not found: "@ + toks[1]))
    } else {
        let cmd = app.commands@[first_named_idx(app.commands@, toks[1])];
        if toks.len() >= 3 && first_named_idx(cmd.subcommands@, toks[2]) < 0 {
            Err(ErrView::InvalidCommand("Subcommand not found: "@ + toks[2]))
        } else {
            let sub = if toks.len() >= 3 {
                Some(toks[2])
            } else {
                None
            };
            let fl = matched_flags(scope_flags(app, toks), toks);
            if fl.len() == 0 {
                Err(ErrView::InvalidFlag("Flags not found"@))
            } else {
                Ok(ParsedView {
                    command: toks[1],
                    subcommand: sub,
                    flags: fl,
                    values: values_after(
                        toks,
                        (if sub is Some {
                            3int
                        } else {
                            2int
                        }) + fl.len(),
                    ),
                })
            }
        }
    }
}

/// Fewer than two tokens — nothing beyond the program name — always fails
/// with the invalid-input kind, whatever the application defines.
pub proof fn lemma_short_input_rejected(app: App, toks: Seq<Seq<char>>)
    requires
        toks.len() < 2,
    ensures
        parse_spec(app, toks) == Err::<ParsedView, ErrView>(
            ErrView::InvalidInput("Too few arguments"@),
        ),
{
}

/// An index-1 token that is not among the defined command names always fails
/// with the invalid-command kind, carrying the offending token.
pub proof fn lemma_unknown_command_rejected(app: App, toks: Seq<Seq<char>>)
    requires
        toks.len() >= 2,
        !has_named(app.commands@, toks[1]),
    ensures
        parse_spec(app, toks) == Err::<ParsedView, ErrView>(
            ErrView::InvalidCommand("Command not found: "@ + toks[1]),
        ),
{
    lemma_first_named_idx(app.commands@, toks[1]);
}

/// An index-2 token that names no subcommand of the resolved command always
/// fails with the invalid-command kind, carrying the offending token.
pub proof fn lemma_unknown_subcommand_rejected(app: App, toks: Seq<Seq<char>>)
    requires
        toks.len() >= 3,
        has_named(app.commands@, toks[1]),
        !has_named(
            app.commands@[first_named_idx(app.commands@, toks[1])].subcommands@,
            toks[2],
        ),
    ensures
        parse_spec(app, toks) == Err::<ParsedView, ErrView>(
            ErrView::InvalidCommand("Subcommand not found: "@ + toks[2]),
        ),
{
    lemma_first_named_idx(app.commands@, toks[1]);
    let cmd = app.commands@[first_named_idx(app.commands@, toks[1])];
    lemma_first_named_idx(cmd.subcommands@, toks[2]);
}

/// When command and subcommand resolve but the matching scope's flag set
/// recognizes no token, parsing always fails with the invalid-flag kind.
pub proof fn lemma_no_flags_rejected(app: App, toks: Seq<Seq<char>>)
    requires
        toks.len() >= 2,
        has_named(app.commands@, toks[1]),
        toks.len() >= 3 ==> has_named(
            app.commands@[first_named_idx(app.commands@, toks[1])].subcommands@,
            toks[2],
        ),
        matched_flags(scope_flags(app, toks), toks).len() == 0,
    ensures
        parse_spec(app, toks) == Err::<ParsedView, ErrView>(
            ErrView::InvalidFlag("Flags not found"@),
        ),
{
    lemma_first_named_idx(app.commands@, toks[1]);
    let cmd = app.commands@[first_named_idx(app.commands@, toks[1])];
    if toks.len() >= 3 {
        lemma_first_named_idx(cmd.subcommands@, toks[2]);
    }
}

/// Success is owed exactly when every resolution step goes through: enough
/// tokens, an index-1 token naming a command, an index-2 token (when present)
/// naming a subcommand of the resolved command, and at least one recognized
/// flag. Each piece of the result is then determined.
pub proof fn lemma_parse_succeeds(app: App, toks: Seq<Seq<char>>)
    requires
        toks.len() >= 2,
        has_named(app.commands@, toks[1]),
        toks.len() >= 3 ==> has_named(
            app.commands@[first_named_idx(app.commands@, toks[1])].subcommands@,
            toks[2],
        ),
        matched_flags(scope_flags(app, toks), toks).len() > 0,
    ensures
        parse_spec(app, toks) == Ok::<ParsedView, ErrView>(
            ParsedView {
                command: toks[1],
                subcommand: if toks.len() >= 3 {
                    Some(toks[2])
                } else {
                    None
                },
                flags: matched_flags(scope_flags(app, toks), toks),
                values: values_after(
                    toks,
                    (if toks.len() >= 3 {
                        3int
                    } else {
                        2int
                    }) + matched_flags(scope_flags(app, toks), toks).len(),
                ),
            },
        ),
{
    lemma_first_named_idx(app.commands@, toks[1]);
    let cmd = app.commands@[first_named_idx(app.commands@, toks[1])];
    if toks.len() >= 3 {
        lemma_first_named_idx(cmd.subcommands@, toks[2]);
    }
}

/// Parsing is a pure function of the application and the tokens: two
/// successful parses of the same input yield structurally equal results.
pub proof fn lemma_parse_deterministic(
    app: App,
    toks: Seq<Seq<char>>,
    p1: ParsedView,
    p2: ParsedView,
)
    requires
        parse_spec(app, toks) == Ok::<ParsedView, ErrView>(p1),
        parse_spec(app, toks) == Ok::<ParsedView, ErrView>(p2),
    ensures
        p1 == p2,
{
}

/// Every recognized flag is reported canonically: each entry of
/// `matched_flags` is the long name of some flag in the scope, so a token
/// matched through a short form still surfaces as the long name.
pub proof fn lemma_flags_canonical(flags: Seq<Flag>, toks: Seq<Seq<char>>)
    ensures
        forall|k: int|
            0 <= k < matched_flags(flags, toks).len() ==> exists|i: int|
                0 <= i < flags.len() && #[trigger] matched_flags(flags, toks)[k] == flags[i].long@,
    decreases toks.len(),
{
    if toks.len() == 0 {
    } else {
        lemma_flags_canonical(flags, toks.drop_last());
        let prefix = matched_flags(flags, toks.drop_last());
        let m = matched_flags(flags, toks);
        let t = toks.last();
        if is_flag_token(t) && first_flag_idx(flags, strip_dashes(t)) >= 0 {
            let fi = first_flag_idx(flags, strip_dashes(t));
            lemma_first_flag_idx(flags, strip_dashes(t));
            assert(m == prefix.push(flags[fi].long@));
            assert forall|k: int| 0 <= k < m.len() implies exists|i: int|
                0 <= i < flags.len() && #[trigger] m[k] == flags[i].long@ by {
                if k < prefix.len() {
                    assert(m[k] == prefix[k]);
                    assert(exists|i: int|
                        0 <= i < flags.len() && #[trigger] prefix[k] == flags[i].long@);
                } else {
                    assert(m[k] == flags[fi].long@);
                }
            }
        } else {
            assert(m == prefix);
        }
    }
}

/// Canonicalization at the result level: every entry of a successful parse's
/// flag list is the long name of a flag in the matching scope.
pub proof fn lemma_result_flags_canonical(app: App, toks: Seq<Seq<char>>, p: ParsedView)
    requires
        parse_spec(app, toks) == Ok::<ParsedView, ErrView>(p),
    ensures
        forall|k: int|
            0 <= k < p.flags.len() ==> exists|i: int|
                0 <= i < scope_flags(app, toks).len() && #[trigger] p.flags[k] == scope_flags(
                    app,
                    toks,
                )[i].long@,
{
    lemma_flags_canonical(scope_flags(app, toks), toks);
    assert(p.flags == matched_flags(scope_flags(app, toks), toks));
}

} // verus!
