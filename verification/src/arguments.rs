//! The arguments of a policy as they are written: a list of tokens, read
//! into dates on their own and values under keys.

use vstd::prelude::*;

verus! {

/// One token of an argument list.
#[derive(Clone, Debug, PartialEq, Eq)]
pub enum ArgToken {
    /// A string literal; what is held is the string it denotes.
    Literal(String),
    /// An identifier.
    Ident(String),
    /// A punctuation character.
    Punct(char),
    /// Anything else.
    Other,
}

/// What an [`ArgToken`] holds, texts as sequences of characters.
pub enum ArgTokenView {
    Literal(Seq<char>),
    Ident(Seq<char>),
    Punct(char),
    Other,
}

impl View for ArgToken {
    type V = ArgTokenView;

    open spec fn view(&self) -> ArgTokenView {
        match *self {
            ArgToken::Literal(text) => ArgTokenView::Literal(text@),
            ArgToken::Ident(name) => ArgTokenView::Ident(name@),
            ArgToken::Punct(c) => ArgTokenView::Punct(c),
            ArgToken::Other => ArgTokenView::Other,
        }
    }
}

/// One argument of a policy, as written: a date on its own, or a value
/// under a key.
#[derive(Clone, Debug, PartialEq, Eq)]
pub enum RawArgument {
    Positional(String),
    Named { key: String, value: String },
}

/// What a [`RawArgument`] holds, as sequences of characters.
pub enum RawArgumentView {
    Positional(Seq<char>),
    Named { key: Seq<char>, value: Seq<char> },
}

impl View for RawArgument {
    type V = RawArgumentView;

    open spec fn view(&self) -> RawArgumentView {
        match *self {
            RawArgument::Positional(text) => RawArgumentView::Positional(text@),
            RawArgument::Named { key, value } => RawArgumentView::Named {
                key: key@,
                value: value@,
            },
        }
    }
}

/// Where a list of tokens stops being a list of arguments: the place of the
/// first token that may not stand where it stands, or the length of the
/// list where it ends inside an argument.
#[derive(Clone, Copy, Debug, PartialEq, Eq, Structural)]
pub struct SyntaxError {
    pub position: usize,
}

/// The views of a list of tokens.
pub open spec fn token_views(tokens: Seq<ArgToken>) -> Seq<ArgTokenView> {
    tokens.map_values(|token: ArgToken| token@)
}

/// The views of a list of arguments.
pub open spec fn argument_views(args: Seq<RawArgument>) -> Seq<RawArgumentView> {
    args.map_values(|arg: RawArgument| arg@)
}

/// How an argument is written: a literal, or an identifier, `=` and a
/// literal.
pub open spec fn written(arg: RawArgumentView) -> Seq<ArgTokenView> {
    match arg {
        RawArgumentView::Positional(text) => seq![ArgTokenView::Literal(text)],
        RawArgumentView::Named { key, value } => seq![
            ArgTokenView::Ident(key),
            ArgTokenView::Punct('='),
            ArgTokenView::Literal(value),
        ],
    }
}

/// The argument that is written at `at`, or the place, from `at` on, of the
/// token that keeps the tokens there from being one.
pub open spec fn argument_at(tokens: Seq<ArgTokenView>, at: int) -> Result<RawArgumentView, int> {
    match tokens[at] {
        ArgTokenView::Literal(text) => Ok(RawArgumentView::Positional(text)),
        ArgTokenView::Ident(key) => if !(at + 1 < tokens.len() && tokens[at + 1]
            == ArgTokenView::Punct('=')) {
            Err(at + 1)
        } else if at + 2 < tokens.len() && tokens[at + 2] is Literal {
            Ok(RawArgumentView::Named { key, value: tokens[at + 2]->Literal_0 })
        } else {
            Err(at + 2)
        },
        _ => Err(at),
    }
}

/// The arguments that the tokens from `at` on spell, or the place of the
/// token at which they stop being arguments.
///
/// Arguments are parted by one `,` each, and one more `,` may follow the
/// last of them.
pub open spec fn arguments_from(tokens: Seq<ArgTokenView>, at: int) -> Result<
    Seq<RawArgumentView>,
    int,
>
    decreases tokens.len() - at,
{
    if at < 0 || at >= tokens.len() {
        Ok(Seq::empty())
    } else {
        match argument_at(tokens, at) {
            Err(position) => Err(position),
            Ok(arg) => {
                let next = at + written(arg).len();
                if next >= tokens.len() {
                    Ok(seq![arg])
                } else if tokens[next] != ArgTokenView::Punct(',') {
                    Err(next)
                } else {
                    match arguments_from(tokens, next + 1) {
                        Ok(more) => Ok(seq![arg] + more),
                        Err(position) => Err(position),
                    }
                }
            },
        }
    }
}

/// The arguments that a list of tokens spells.
pub open spec fn arguments_of(tokens: Seq<ArgTokenView>) -> Result<Seq<RawArgumentView>, int> {
    arguments_from(tokens, 0)
}

/// `front`, then what `rest` gave.
spec fn continued(front: Seq<RawArgumentView>, rest: Result<Seq<RawArgumentView>, int>)
    -> Result<Seq<RawArgumentView>, int> {
    match rest {
        Ok(more) => Ok(front + more),
        Err(position) => Err(position),
    }
}

/// How a list of arguments is written: each argument as it is written, with
/// one `,` between two of them.
pub open spec fn written_list(args: Seq<RawArgumentView>) -> Seq<ArgTokenView>
    decreases args.len(),
{
    if args.len() == 0 {
        Seq::empty()
    } else if args.len() == 1 {
        written(args[0])
    } else {
        written(args[0]) + seq![ArgTokenView::Punct(',')] + written_list(args.skip(1))
    }
}

/// What was read, with the place of an error moved on by `by`.
spec fn moved(read: Result<Seq<RawArgumentView>, int>, by: int) -> Result<
    Seq<RawArgumentView>,
    int,
> {
    match read {
        Ok(args) => Ok(args),
        Err(position) => Err(position + by),
    }
}

/// Reading from a place in a list is reading from that place in what is
/// left when tokens before it are dropped, but for the numbering.
proof fn lemma_read_after_skip(tokens: Seq<ArgTokenView>, by: int, at: int)
    requires
        0 <= by <= tokens.len(),
        0 <= at,
    ensures
        arguments_from(tokens, at + by) == moved(arguments_from(tokens.skip(by), at), by),
    decreases tokens.len() - by - at,
{
    let rest = tokens.skip(by);
    if at < rest.len() {
        if at + 1 < rest.len() {
            assert(rest[at + 1] == tokens[at + by + 1]);
        }
        if at + 2 < rest.len() {
            assert(rest[at + 2] == tokens[at + by + 2]);
        }
        match argument_at(rest, at) {
            Ok(arg) => {
                let next = at + written(arg).len();
                if next < rest.len() {
                    assert(rest[next] == tokens[next + by]);
                    lemma_read_after_skip(tokens, by, next + 1);
                }
            },
            Err(_) => {},
        }
    }
}

/// Reading what was written gives the arguments that were written, also
/// where one more `,` follows the last of them.
pub proof fn lemma_written_arguments_read_back(args: Seq<RawArgumentView>)
    ensures
        arguments_of(written_list(args)) == Ok::<Seq<RawArgumentView>, int>(args),
        args.len() > 0 ==> arguments_of(written_list(args).push(ArgTokenView::Punct(',')))
            == Ok::<Seq<RawArgumentView>, int>(args),
    decreases args.len(),
{
    if args.len() == 0 {
        assert(args =~= Seq::empty());
    } else {
        let first = written(args[0]);
        let rest = args.skip(1);
        let plain = written_list(args);
        let trailed = plain.push(ArgTokenView::Punct(','));
        let next = first.len() as int;
        assert(argument_at(plain, 0) == Ok::<RawArgumentView, int>(args[0]));
        assert(argument_at(trailed, 0) == Ok::<RawArgumentView, int>(args[0]));
        assert(seq![args[0]] + rest =~= args);
        if args.len() == 1 {
            assert(rest =~= Seq::empty());
            assert(arguments_from(trailed, next + 1) == Ok::<Seq<RawArgumentView>, int>(
                Seq::empty(),
            ));
        } else {
            lemma_written_arguments_read_back(rest);
            assert(plain.skip(next + 1) =~= written_list(rest));
            assert(trailed.skip(next + 1) =~= written_list(rest).push(ArgTokenView::Punct(',')));
            lemma_read_after_skip(plain, next + 1, 0);
            lemma_read_after_skip(trailed, next + 1, 0);
        }
    }
}

/// Reads a list of tokens into arguments.
pub fn parse_arguments(tokens: &Vec<ArgToken>) -> (parsed: Result<Vec<RawArgument>, SyntaxError>)
    ensures
        match parsed {
            Ok(args) => arguments_of(token_views(tokens@)) == Ok::<Seq<RawArgumentView>, int>(
                argument_views(args@),
            ),
            Err(error) => arguments_of(token_views(tokens@)) == Err::<Seq<RawArgumentView>, int>(
                error.position as int,
            ),
        },
{
    let ghost views = token_views(tokens@);
    let mut args: Vec<RawArgument> = Vec::new();
    let mut at: usize = 0;
    while at < tokens.len()
        invariant
            at <= tokens.len(),
            views == token_views(tokens@),
            arguments_of(views) == continued(
                argument_views(args@),
                arguments_from(views, at as int),
            ),
        decreases tokens.len() - at,
    {
        let ghost before = argument_views(args@);
        assert(views[at as int] == tokens@[at as int]@);
        let next: usize;
        match &tokens[at] {
            ArgToken::Literal(text) => {
                args.push(RawArgument::Positional(text.clone()));
                next = at + 1;
            },
            ArgToken::Ident(key) => {
                if at + 1 >= tokens.len() {
                    return Err(SyntaxError { position: at + 1 });
                }
                assert(views[at + 1] == tokens@[at + 1]@);
                match &tokens[at + 1] {
                    ArgToken::Punct(c) if *c == '=' => {},
                    _ => {
                        return Err(SyntaxError { position: at + 1 });
                    },
                }
                if at + 2 >= tokens.len() {
                    return Err(SyntaxError { position: at + 2 });
                }
                assert(views[at + 2] == tokens@[at + 2]@);
                match &tokens[at + 2] {
                    ArgToken::Literal(value) => {
                        args.push(RawArgument::Named { key: key.clone(), value: value.clone() });
                    },
                    _ => {
                        return Err(SyntaxError { position: at + 2 });
                    },
                }
                next = at + 3;
            },
            _ => {
                return Err(SyntaxError { position: at });
            },
        }
        let ghost arg = argument_at(views, at as int)->Ok_0;
        assert(argument_views(args@) =~= before.push(arg));
        if next >= tokens.len() {
            assert(before + seq![arg] =~= before.push(arg));
            return Ok(args);
        }
        assert(views[next as int] == tokens@[next as int]@);
        match &tokens[next] {
            ArgToken::Punct(c) if *c == ',' => {},
            _ => {
                return Err(SyntaxError { position: next });
            },
        }
        proof {
            let rest = arguments_from(views, next + 1);
            if rest is Ok {
                assert(before + (seq![arg] + rest->Ok_0) =~= before.push(arg) + rest->Ok_0);
            }
        }
        at = next + 1;
    }
    assert(argument_views(args@) + Seq::<RawArgumentView>::empty() =~= argument_views(args@));
    Ok(args)
}

} // verus!
