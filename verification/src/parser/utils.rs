//! The executable matching algorithm, one resolution step per function, each
//! proved against the model in [`crate::parser::model`].

use vstd::prelude::*;
use vstd::string::StrSliceExecFns;
use vstd::string::StringExecFns;

use crate::builder::app::App;
use crate::builder::command::Command;
use crate::builder::flag::Flag;
use crate::errors::AppError;
use crate::errors::ErrView;
use crate::parser::model::first_flag_idx;
use crate::parser::model::first_named_idx;
use crate::parser::model::flag_matches;
use crate::parser::model::is_flag_token;
use crate::parser::model::lemma_first_flag_idx;
use crate::parser::model::lemma_first_flag_idx_is;
use crate::parser::model::lemma_first_named_idx;
use crate::parser::model::lemma_first_named_idx_is;
use crate::parser::model::lemma_strip_dashes_skip;
use crate::parser::model::matched_flags;
use crate::parser::model::scope_flags;
use crate::parser::model::strip_dashes;
use crate::parser::model::values_after;

verus! {

/// Index of the first command in `cmds` named `name`, or nothing.
fn find_named(cmds: &Vec<Command>, name: &String) -> (r: Option<usize>)
    ensures
        match r {
            Some(i) => i < cmds@.len() && first_named_idx(cmds@, name@) == i as int,
            None => first_named_idx(cmds@, name@) == -1,
        },
{
    let mut i: usize = 0;
    while i < cmds.len()
        invariant
            i <= cmds@.len(),
            forall|j: int| 0 <= j < i ==> cmds@[j].name@ != name@,
        decreases cmds@.len() - i,
    {
        if cmds[i].name == *name {
            proof {
                lemma_first_named_idx_is(cmds@, name@, i as int);
            }
            return Some(i);
        }
        i += 1;
    }
    proof {
        lemma_first_named_idx(cmds@, name@);
    }
    None
}

/// Whether the token begins with `-`.
fn is_flag_token_exec(t: &String) -> (r: bool)
    ensures
        r == is_flag_token(t@),
{
    let st = t.as_str();
    if st.unicode_len() == 0 {
        false
    } else {
        st.get_char(0) == '-'
    }
}

/// The token with every leading `-` dropped.
fn strip_dashes_exec(t: &String) -> (r: String)
    ensures
        r@ == strip_dashes(t@),
{
    let st = t.as_str();
    let n = st.unicode_len();
    let mut k: usize = 0;
    loop
        invariant_except_break
            k <= n,
            n == st@.len(),
            forall|j: int| 0 <= j < k ==> st@[j] == '-',
        ensures
            k <= n,
            n == st@.len(),
            forall|j: int| 0 <= j < k ==> st@[j] == '-',
            k < n ==> st@[k as int] != '-',
        decreases n - k,
    {
        if k == n {
            break ;
        }
        if st.get_char(k) != '-' {
            break ;
        }
        k += 1;
    }
    proof {
        lemma_strip_dashes_skip(t@, k as int);
    }
    st.substring_char(k, n).to_owned()
}

/// Whether the stripped body names the flag: its long name exactly, or its
/// short form as the body's first character.
fn flag_matches_exec(f: &Flag, body: &String) -> (r: bool)
    ensures
        r == flag_matches(*f, body@),
{
    if f.long == *body {
        true
    } else {
        match f.short {
            Some(c) => {
                let st = body.as_str();
                if st.unicode_len() > 0 {
                    st.get_char(0) == c
                } else {
                    false
                }
            },
            None => body.as_str().unicode_len() == 0,
        }
    }
}

/// Index of the first flag in `flags` that `body` names, or nothing.
fn find_flag(flags: &Vec<Flag>, body: &String) -> (r: Option<usize>)
    ensures
        match r {
            Some(i) => i < flags@.len() && first_flag_idx(flags@, body@) == i as int,
            None => first_flag_idx(flags@, body@) == -1,
        },
{
    let mut i: usize = 0;
    while i < flags.len()
        invariant
            i <= flags@.len(),
            forall|j: int| 0 <= j < i ==> !flag_matches(flags@[j], body@),
        decreases flags@.len() - i,
    {
        if flag_matches_exec(&flags[i], body) {
            proof {
                lemma_first_flag_idx_is(flags@, body@, i as int);
            }
            return Some(i);
        }
        i += 1;
    }
    proof {
        lemma_first_flag_idx(flags@, body@);
    }
    None
}

/// Resolves the index-1 token against the top-level command names.
pub fn get_command(app: &App, args: &Vec<String>) -> (r: Result<String, AppError>)
    requires
        args@.len() >= 2,
    ensures
        ({
            let toks = args.deep_view();
            match r {
                Ok(name) => first_named_idx(app.commands@, toks[1]) >= 0 && name@ == toks[1],
                Err(e) => first_named_idx(app.commands@, toks[1]) < 0 && e@
                    == ErrView::InvalidCommand("Command not found: "@ + toks[1]),
            }
        }),
{
    let command_name = &args[1];
    match find_named(&app.commands, command_name) {
        Some(_) => Ok(command_name.clone()),
        None => Err(
            AppError::InvalidCommand("Command not found: ".to_owned().concat(command_name.as_str())),
        ),
    }
}

/// Resolves the index-2 token, when present, against the subcommands of the
/// command that the index-1 token resolved to. No index-2 token is not an
/// error; one that names no subcommand of the resolved command is.
pub fn get_subcommand(app: &App, args: &Vec<String>) -> (r: Result<Option<String>, AppError>)
    requires
        args@.len() >= 2,
        first_named_idx(app.commands@, args.deep_view()[1]) >= 0,
    ensures
        ({
            let toks = args.deep_view();
            let cmd = app.commands@[first_named_idx(app.commands@, toks[1])];
            match r {
                Ok(sub) => if toks.len() >= 3 {
                    &&& first_named_idx(cmd.subcommands@, toks[2]) >= 0
                    &&& sub matches Some(s) && s@ == toks[2]
                } else {
                    sub is None
                },
                Err(e) => toks.len() >= 3 && first_named_idx(cmd.subcommands@, toks[2]) < 0 && e@
                    == ErrView::InvalidCommand("Subcommand not found: "@ + toks[2]),
            }
        }),
{
    if args.len() < 3 {
        return Ok(None);
    }
    let ci = find_named(&app.commands, &args[1]).unwrap();
    let cmd = &app.commands[ci];
    let subcommand_name = &args[2];
    match find_named(&cmd.subcommands, subcommand_name) {
        Some(_) => Ok(Some(subcommand_name.clone())),
        None => Err(
            AppError::InvalidCommand(
                "Subcommand not found: ".to_owned().concat(subcommand_name.as_str()),
            ),
        ),
    }
}

/// Scans every token against the matching scope's flags and collects the
/// recognized ones under their long names, in token order. Zero recognized
/// flags is a failure; unrecognized flag-shaped tokens are silently ignored.
pub fn get_flags(app: &App, args: &Vec<String>) -> (r: Result<Vec<String>, AppError>)
    requires
        args@.len() >= 2,
        first_named_idx(app.commands@, args.deep_view()[1]) >= 0,
    ensures
        ({
            let toks = args.deep_view();
            let fl = matched_flags(scope_flags(*app, toks), toks);
            match r {
                Ok(v) => fl.len() > 0 && v.deep_view() == fl,
                Err(e) => fl.len() == 0 && e@ == ErrView::InvalidFlag("Flags not found"@),
            }
        }),
{
    let ghost toks = args.deep_view();
    let ci = find_named(&app.commands, &args[1]).unwrap();
    let cmd = &app.commands[ci];
    let scope: &Command = if args.len() >= 3 {
        match find_named(&cmd.subcommands, &args[2]) {
            Some(si) => &cmd.subcommands[si],
            None => cmd,
        }
    } else {
        cmd
    };
    proof {
        assert(scope.flags@ == scope_flags(*app, toks));
    }

    let mut found: Vec<String> = Vec::new();
    let mut k: usize = 0;
    while k < args.len()
        invariant
            k <= args@.len(),
            toks == args.deep_view(),
            scope.flags@ == scope_flags(*app, toks),
            found.deep_view() == matched_flags(scope.flags@, toks.take(k as int)),
        decreases args@.len() - k,
    {
        let tok = &args[k];
        if is_flag_token_exec(tok) {
            let body = strip_dashes_exec(tok);
            match find_flag(&scope.flags, &body) {
                Some(fi) => {
                    found.push(scope.flags[fi].long.clone());
                },
                None => {},
            }
        }
        k += 1;
        proof {
            assert(toks.take(k as int).drop_last() =~= toks.take(k - 1));
            assert(toks.take(k as int).last() == toks[k - 1]);
            assert(toks[k - 1] == args@[k - 1]@);
        }
    }
    proof {
        assert(toks.take(args@.len() as int) =~= toks);
    }

    if found.len() == 0 {
        Err(AppError::InvalidFlag("Flags not found".to_owned()))
    } else {
        Ok(found)
    }
}

/// Computes the positional values by skipping a fixed prefix: 2 tokens
/// (program name and command) or 3 (with a subcommand), plus one per
/// recognized flag. This is an offset, not a token-by-token classification:
/// flag tokens interleaved after positional-looking tokens are not skipped.
pub fn get_values(args: &Vec<String>, subcommand: &Option<String>, flags: &Vec<String>) -> (r:
    Result<Vec<String>, AppError>)
    ensures
        r matches Ok(v) && v.deep_view() == values_after(
            args.deep_view(),
            (if subcommand is Some {
                3int
            } else {
                2int
            }) + flags@.len(),
        ),
{
    let ghost toks = args.deep_view();
    let base: usize = if subcommand.is_some() {
        3
    } else {
        2
    };
    let n = args.len();
    let start: usize = if base >= n {
        n
    } else if flags.len() >= n - base {
        n
    } else {
        base + flags.len()
    };

    let mut values: Vec<String> = Vec::new();
    let mut i: usize = start;
    while i < n
        invariant
            start <= i <= n,
            n == args@.len(),
            toks == args.deep_view(),
            values.deep_view() == toks.subrange(start as int, i as int),
        decreases n - i,
    {
        values.push(args[i].clone());
        proof {
            assert(toks.subrange(start as int, i + 1).drop_last() =~= toks.subrange(
                start as int,
                i as int,
            ));
            assert(toks[i as int] == args@[i as int]@);
        }
        i += 1;
    }
    proof {
        let skip = (if subcommand is Some {
            3int
        } else {
            2int
        }) + flags@.len();
        if skip <= toks.len() {
            assert(start == skip);
            assert(toks.subrange(start as int, n as int) =~= toks.skip(skip));
        } else {
            assert(start == n);
            assert(toks.subrange(start as int, n as int) =~= Seq::<Seq<char>>::empty());
        }
    }
    Ok(values)
}

} // verus!
