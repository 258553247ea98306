//! The parser: consumes a token sequence, enforces the token-order grammar,
//! compiles argument spans into typed arguments, and produces the commands.

use vstd::prelude::*;

use crate::commands::{spec_build, CmdV, Command, CommandBuilder, CommandType};
use crate::lexer::{tokens_view, Token, TokenV};

verus! {

/// A parse-time failure; any of these aborts the whole line.
#[derive(Debug, PartialEq, Eq, Structural, Clone, Copy)]
pub enum SyntaxError {
    /// The input held no token at all.
    CommandNotProvided,
    /// The first token of the line is not a command keyword.
    InvalidCommand,
    /// Malformed dot or extension usage inside a path.
    InvalidPath,
    /// A token the grammar does not permit after the previous one.
    UnexpectedToken,
    /// The wrong number of arguments for the verb.
    InvalidArguments,
    /// An argument of the wrong kind or path shape for the verb.
    InvalidType,
}

/// One traversal step of a path through the tree.
#[derive(Debug, PartialEq, Eq)]
pub enum NodePathSegment {
    /// Jump to the tree root (a leading `/`).
    Root,
    /// Step into the first child with this name.
    Dir(String),
    /// Step to the parent (`..`).
    Parent,
    /// A file target, `name.extension`.
    File(String),
}

/// The mathematical shape of a [`NodePathSegment`].
pub enum SegV {
    Root,
    Dir(Seq<char>),
    Parent,
    File(Seq<char>),
}

impl View for NodePathSegment {
    type V = SegV;

    open spec fn view(&self) -> SegV {
        match self {
            NodePathSegment::Root => SegV::Root,
            NodePathSegment::Dir(name) => SegV::Dir(name@),
            NodePathSegment::Parent => SegV::Parent,
            NodePathSegment::File(name) => SegV::File(name@),
        }
    }
}

impl Clone for NodePathSegment {
    fn clone(&self) -> (res: Self)
        ensures
            res@ == self@,
    {
        match self {
            NodePathSegment::Root => NodePathSegment::Root,
            NodePathSegment::Dir(name) => NodePathSegment::Dir(name.clone()),
            NodePathSegment::Parent => NodePathSegment::Parent,
            NodePathSegment::File(name) => NodePathSegment::File(name.clone()),
        }
    }
}

/// An ordered list of traversal steps, read from the current directory (or
/// from the root, when the first step is [`NodePathSegment::Root`]).
pub type NodePath = Vec<NodePathSegment>;

/// The view of a whole path.
pub open spec fn path_view(p: Seq<NodePathSegment>) -> Seq<SegV> {
    p.map_values(|s: NodePathSegment| s@)
}

/// A compiled, typed command parameter: the only interface between the
/// parser and the command objects.
#[derive(Debug, PartialEq, Eq)]
pub enum Argument {
    Path(NodePath),
    Number(usize),
}

/// The mathematical shape of an [`Argument`].
#[verifier::ext_equal]
pub enum ArgV {
    Path(Seq<SegV>),
    Number(usize),
}

impl View for Argument {
    type V = ArgV;

    open spec fn view(&self) -> ArgV {
        match self {
            Argument::Path(p) => ArgV::Path(path_view(p@)),
            Argument::Number(n) => ArgV::Number(*n),
        }
    }
}

/// The view of a whole argument list.
pub open spec fn args_view(args: Seq<Argument>) -> Seq<ArgV> {
    args.map_values(|a: Argument| a@)
}

/// Path compilation over the tokens `ts[i..]`, with the segments compiled
/// so far in `path`. A `Word` becomes a directory step, `..` a parent step;
/// a `Dot` followed by a `Word` turns the preceding directory step into a
/// file target (or, with no directory step before it, pushes a bare
/// `.extension` file target) and ends the scan; a `Dot` followed by
/// anything else is malformed. Other tokens are passed over.
pub open spec fn compile_path_loop(ts: Seq<TokenV>, i: int, path: Seq<SegV>) -> Result<
    Seq<SegV>,
    SyntaxError,
>
    decreases ts.len() - i,
{
    if i < 0 || i >= ts.len() {
        Ok(path)
    } else {
        match ts[i] {
            TokenV::Word(name) => compile_path_loop(ts, i + 1, path.push(SegV::Dir(name))),
            TokenV::PreviousDir => compile_path_loop(ts, i + 1, path.push(SegV::Parent)),
            TokenV::Dot => {
                if path.len() == 0 || i + 1 >= ts.len() {
                    Err(SyntaxError::InvalidPath)
                } else {
                    match ts[i + 1] {
                        TokenV::Word(ext) => match path.last() {
                            SegV::Dir(base) => Ok(
                                path.update(
                                    path.len() - 1,
                                    SegV::File(base + seq!['.'] + ext),
                                ),
                            ),
                            _ => Ok(path.push(SegV::File(seq!['.'] + ext))),
                        },
                        _ => Err(SyntaxError::InvalidPath),
                    }
                }
            },
            _ => compile_path_loop(ts, i + 1, path),
        }
    }
}

/// Compilation of a token span into a path: a leading slash contributes a
/// root step, then the span is scanned by [`compile_path_loop`].
pub open spec fn spec_compile_path(ts: Seq<TokenV>) -> Result<Seq<SegV>, SyntaxError> {
    compile_path_loop(
        ts,
        0,
        if ts.len() > 0 && ts[0] is Slash {
            seq![SegV::Root]
        } else {
            Seq::empty()
        },
    )
}

/// Compilation of a token span into a typed argument: a span opening with a
/// path-shaped token compiles into a path, a single number into a number,
/// and anything else is refused.
pub open spec fn spec_compile_argument(ts: Seq<TokenV>) -> Result<ArgV, SyntaxError> {
    if ts.len() == 0 {
        Err(SyntaxError::UnexpectedToken)
    } else {
        match ts[0] {
            TokenV::Word(_) => spec_compile_path_arg(ts),
            TokenV::Slash => spec_compile_path_arg(ts),
            TokenV::PreviousDir => spec_compile_path_arg(ts),
            TokenV::Number(n) => Ok(ArgV::Number(n)),
            _ => Err(SyntaxError::UnexpectedToken),
        }
    }
}

/// The path case of [`spec_compile_argument`].
pub open spec fn spec_compile_path_arg(ts: Seq<TokenV>) -> Result<ArgV, SyntaxError> {
    match spec_compile_path(ts) {
        Ok(p) => Ok(ArgV::Path(p)),
        Err(e) => Err(e),
    }
}

/// Copy the first `end` steps of a path.
pub(crate) fn clone_path_prefix(p: &NodePath, end: usize) -> (r: NodePath)
    requires
        end <= p@.len(),
    ensures
        path_view(r@) == path_view(p@).subrange(0, end as int),
{
    let mut r: NodePath = Vec::new();
    proof {
        assert(path_view(r@) =~= path_view(p@).subrange(0, 0));
    }
    let mut i: usize = 0;
    while i < end
        invariant
            i <= end <= p@.len(),
            path_view(r@) == path_view(p@).subrange(0, i as int),
        decreases end - i,
    {
        let ghost rv = path_view(r@);
        let seg = p[i].clone();
        proof {
            assert(seg@ == p@[i as int]@);
        }
        r.push(seg);
        proof {
            assert(path_view(r@) =~= rv.push(p@[i as int]@));
            assert(rv.push(p@[i as int]@) =~= path_view(p@).subrange(0, i + 1));
        }
        i += 1;
    }
    r
}

/// Compile the token span `tokens[start..end)` into a path (see
/// [`spec_compile_path`]).
fn compile_path(tokens: &Vec<Token>, start: usize, end: usize) -> (r: Result<
    NodePath,
    SyntaxError,
>)
    requires
        start <= end <= tokens@.len(),
    ensures
        ({
            let ts = tokens_view(tokens@).subrange(start as int, end as int);
            match r {
                Ok(p) => spec_compile_path(ts) == Ok::<Seq<SegV>, SyntaxError>(path_view(p@)),
                Err(e) => spec_compile_path(ts) == Err::<Seq<SegV>, SyntaxError>(e),
            }
        }),
{
    let ghost ts = tokens_view(tokens@).subrange(start as int, end as int);
    let mut path: NodePath = Vec::new();
    if start < end {
        if let Token::Slash = &tokens[start] {
            path.push(NodePathSegment::Root);
        }
    }
    proof {
        assert(path_view(path@) =~= (if ts.len() > 0 && ts[0] is Slash {
            seq![SegV::Root]
        } else {
            Seq::<SegV>::empty()
        }));
    }
    let mut i = start;
    while i < end
        invariant
            start <= i <= end <= tokens@.len(),
            ts == tokens_view(tokens@).subrange(start as int, end as int),
            spec_compile_path(ts) == compile_path_loop(ts, i - start, path_view(path@)),
        decreases end - i,
    {
        proof {
            assert(ts[i - start] == tokens@[i as int]@);
        }
        match &tokens[i] {
            Token::Word(name) => {
                let ghost pv = path_view(path@);
                path.push(NodePathSegment::Dir(name.clone()));
                proof {
                    assert(path_view(path@) =~= pv.push(SegV::Dir(name@)));
                }
            },
            Token::PreviousDir => {
                let ghost pv = path_view(path@);
                path.push(NodePathSegment::Parent);
                proof {
                    assert(path_view(path@) =~= pv.push(SegV::Parent));
                }
            },
            Token::Dot => {
                if path.len() == 0 {
                    return Err(SyntaxError::InvalidPath);
                }
                if end - i < 2 {
                    return Err(SyntaxError::InvalidPath);
                }
                proof {
                    assert(ts[i + 1 - start] == tokens@[i + 1]@);
                }
                match &tokens[i + 1] {
                    Token::Word(extension_name) => {
                        let ghost pv = path_view(path@);
                        let last_is_dir = match &path[path.len() - 1] {
                            NodePathSegment::Dir(_) => true,
                            _ => false,
                        };
                        if last_is_dir {
                            let last = path.pop().unwrap();
                            let mut filename = match last {
                                NodePathSegment::Dir(base) => base,
                                _ => String::new(),
                            };
                            filename.append(".");
                            filename.append(extension_name.as_str());
                            path.push(NodePathSegment::File(filename));
                            proof {
                                reveal_strlit(".");
                                assert("."@ =~= seq!['.']);
                                assert(path_view(path@) =~= pv.update(
                                    pv.len() - 1,
                                    SegV::File(
                                        pv.last()->Dir_0 + seq!['.'] + extension_name@,
                                    ),
                                ));
                            }
                        } else {
                            let mut filename = String::new();
                            filename.append(".");
                            filename.append(extension_name.as_str());
                            path.push(NodePathSegment::File(filename));
                            proof {
                                reveal_strlit(".");
                                assert("."@ =~= seq!['.']);
                                assert(filename@ =~= seq!['.'] + extension_name@);
                                assert(path_view(path@) =~= pv.push(
                                    SegV::File(seq!['.'] + extension_name@),
                                ));
                            }
                        }
                        return Ok(path);
                    },
                    _ => {
                        return Err(SyntaxError::InvalidPath);
                    },
                }
            },
            _ => {},
        }
        i += 1;
    }
    Ok(path)
}

/// The token-order grammar, keyed on the previously consumed token: which
/// token may follow it. A line must open with a command keyword; an
/// unexpected character constrains nothing.
pub open spec fn order_check(prev: Option<TokenV>, cur: TokenV) -> Result<(), SyntaxError> {
    match prev {
        Some(TokenV::Slash) => match cur {
            TokenV::Word(_) => Ok(()),
            TokenV::And => Ok(()),
            TokenV::Space => Ok(()),
            _ => Err(SyntaxError::UnexpectedToken),
        },
        Some(TokenV::PreviousDir) => if cur is Slash {
            Ok(())
        } else {
            Err(SyntaxError::UnexpectedToken)
        },
        Some(TokenV::Dot) => if cur is Word {
            Ok(())
        } else {
            Err(SyntaxError::UnexpectedToken)
        },
        Some(TokenV::Word(_)) => match cur {
            TokenV::And => Ok(()),
            TokenV::Slash => Ok(()),
            TokenV::Dot => Ok(()),
            TokenV::Space => Ok(()),
            _ => Err(SyntaxError::UnexpectedToken),
        },
        Some(TokenV::Command(_)) => if cur is Space {
            Ok(())
        } else {
            Err(SyntaxError::UnexpectedToken)
        },
        Some(TokenV::Space) => if cur is Dot {
            Err(SyntaxError::UnexpectedToken)
        } else {
            Ok(())
        },
        Some(TokenV::And) => match cur {
            TokenV::Command(_) => Ok(()),
            TokenV::Space => Ok(()),
            _ => Err(SyntaxError::UnexpectedToken),
        },
        Some(TokenV::Number(_)) => if cur is Space {
            Ok(())
        } else {
            Err(SyntaxError::UnexpectedToken)
        },
        Some(TokenV::UnexpectedToken(_)) => Ok(()),
        None => if cur is Command {
            Ok(())
        } else {
            Err(SyntaxError::InvalidCommand)
        },
    }
}

/// An in-progress command: the verb, and the arguments collected so far.
#[verifier::ext_equal]
pub struct BuilderV {
    pub verb: CommandType,
    pub args: Seq<ArgV>,
}

/// The builder with one more argument; without an open builder the
/// argument is dropped.
pub open spec fn add_arg(cur: Option<BuilderV>, arg: ArgV) -> Option<BuilderV> {
    match cur {
        Some(b) => Some(BuilderV { verb: b.verb, args: b.args.push(arg) }),
        None => None,
    }
}

/// The effect of consuming token `ts[i]` on the parser's state: a command
/// keyword opens a builder; `&&` finalizes the open builder; a space closes
/// the open argument span and compiles it; an unexpected character does
/// nothing; any other token opens an argument span if none is open.
pub open spec fn parse_step(
    ts: Seq<TokenV>,
    i: int,
    arg_start: Option<int>,
    cur: Option<BuilderV>,
    acc: Seq<CmdV>,
) -> Result<(Option<int>, Option<BuilderV>, Seq<CmdV>), SyntaxError> {
    match ts[i] {
        TokenV::Command(ct) => Ok(
            (arg_start, Some(BuilderV { verb: ct, args: Seq::empty() }), acc),
        ),
        TokenV::And => match cur {
            Some(b) => match spec_build(b.verb, b.args) {
                Ok(c) => Ok((arg_start, None, acc.push(c))),
                Err(e) => Err(e),
            },
            None => Ok((arg_start, None, acc)),
        },
        TokenV::Space => match arg_start {
            Some(st) => match spec_compile_argument(ts.subrange(st, i)) {
                Ok(arg) => Ok((None, add_arg(cur, arg), acc)),
                Err(e) => Err(e),
            },
            None => Ok((arg_start, cur, acc)),
        },
        TokenV::UnexpectedToken(_) => Ok((arg_start, cur, acc)),
        _ => Ok(
            (
                if arg_start is None {
                    Some(i)
                } else {
                    arg_start
                },
                cur,
                acc,
            ),
        ),
    }
}

/// What happens after the final token: an open argument span is compiled up
/// to the end of the input, and an open builder is finalized.
pub open spec fn parse_finish(
    ts: Seq<TokenV>,
    arg_start: Option<int>,
    cur: Option<BuilderV>,
    acc: Seq<CmdV>,
) -> Result<Seq<CmdV>, SyntaxError> {
    let after_arg = match arg_start {
        Some(st) => match spec_compile_argument(ts.subrange(st, ts.len() as int)) {
            Ok(arg) => Ok(add_arg(cur, arg)),
            Err(e) => Err(e),
        },
        None => Ok(cur),
    };
    match after_arg {
        Err(e) => Err(e),
        Ok(cur1) => match cur1 {
            Some(b) => match spec_build(b.verb, b.args) {
                Ok(c) => Ok(acc.push(c)),
                Err(e) => Err(e),
            },
            None => Ok(acc),
        },
    }
}

/// The parse of the tokens `ts[i..]`, given the parser's state after
/// `ts[..i]`: each token is checked against the token-order grammar and
/// consumed by [`parse_step`]; [`parse_finish`] runs with the last token.
/// Any failure aborts the whole parse.
pub open spec fn parse_loop(
    ts: Seq<TokenV>,
    i: int,
    prev: Option<TokenV>,
    arg_start: Option<int>,
    cur: Option<BuilderV>,
    acc: Seq<CmdV>,
) -> Result<Seq<CmdV>, SyntaxError>
    decreases ts.len() - i,
{
    if i < 0 || i >= ts.len() {
        Ok(acc)
    } else {
        match order_check(prev, ts[i]) {
            Err(e) => Err(e),
            Ok(_) => match parse_step(ts, i, arg_start, cur, acc) {
                Err(e) => Err(e),
                Ok((arg_start1, cur1, acc1)) => {
                    if i == ts.len() - 1 {
                        match parse_finish(ts, arg_start1, cur1, acc1) {
                            Err(e) => Err(e),
                            Ok(acc2) => parse_loop(ts, i + 1, Some(ts[i]), None, None, acc2),
                        }
                    } else {
                        parse_loop(ts, i + 1, Some(ts[i]), arg_start1, cur1, acc1)
                    }
                },
            },
        }
    }
}

/// The parse of a whole token sequence: an empty input is refused, and any
/// grammar, path or validation failure aborts the line with no commands.
pub open spec fn spec_generate_commands(ts: Seq<TokenV>) -> Result<Seq<CmdV>, SyntaxError> {
    if ts.len() < 1 {
        Err(SyntaxError::CommandNotProvided)
    } else {
        parse_loop(ts, 0, None, None, None, Seq::empty())
    }
}

/// A token that opens or extends an argument span.
pub open spec fn arg_token(t: TokenV) -> bool {
    ||| t is Word
    ||| t is Slash
    ||| t is PreviousDir
    ||| t is Dot
    ||| t is Number
}

/// The position where the argument span starting at `i` ends: the next
/// space, or the end of the input.
pub open spec fn span_end(ts: Seq<TokenV>, i: int) -> int
    decreases ts.len() - i,
{
    if i < 0 || i >= ts.len() {
        ts.len() as int
    } else if ts[i] is Space {
        i
    } else {
        span_end(ts, i + 1)
    }
}

/// The end of a span lies between its start and the end of the input, and
/// everything strictly inside the span is a non-space token.
pub proof fn lemma_span_end_bounds(ts: Seq<TokenV>, i: int)
    requires
        0 <= i <= ts.len(),
    ensures
        i <= span_end(ts, i) <= ts.len(),
        forall|x: int| i <= x < span_end(ts, i) ==> !((#[trigger] ts[x]) is Space),
        span_end(ts, i) < ts.len() ==> ts[span_end(ts, i)] is Space,
    decreases ts.len() - i,
{
    if i < ts.len() && !(ts[i] is Space) {
        lemma_span_end_bounds(ts, i + 1);
    }
}

/// A well-formed argument region at position `i`: an argument span that the
/// grammar admits and that compiles, then either the end of the line or a
/// single space followed by another well-formed region.
pub open spec fn args_region_ok(ts: Seq<TokenV>, i: int) -> bool
    decreases ts.len() - i,
    via args_region_ok_decreases
{
    let m = span_end(ts, i);
    &&& 0 <= i < ts.len()
    &&& forall|x: int| i <= x < m ==> arg_token(#[trigger] ts[x])
    &&& forall|x: int| i < x < m ==> order_check(Some(ts[x - 1]), #[trigger] ts[x]) == Ok::<
        (),
        SyntaxError,
    >(())
    &&& order_check(Some(TokenV::Space), ts[i]) == Ok::<(), SyntaxError>(())
    &&& spec_compile_argument(ts.subrange(i, m)) is Ok
    &&& (m < ts.len() ==> order_check(Some(ts[m - 1]), TokenV::Space) == Ok::<(), SyntaxError>(())
        && m + 1 < ts.len() && args_region_ok(ts, m + 1))
}

#[via_fn]
proof fn args_region_ok_decreases(ts: Seq<TokenV>, i: int) {
    if 0 <= i <= ts.len() {
        lemma_span_end_bounds(ts, i);
    }
}

/// The arguments that a well-formed region compiles to, span by span.
pub open spec fn region_args(ts: Seq<TokenV>, i: int) -> Seq<ArgV>
    decreases ts.len() - i,
    when 0 <= i <= ts.len()
    via region_args_decreases
{
    let m = span_end(ts, i);
    let arg = spec_compile_argument(ts.subrange(i, m))->Ok_0;
    if m >= ts.len() {
        seq![arg]
    } else {
        seq![arg] + region_args(ts, m + 1)
    }
}

#[via_fn]
proof fn region_args_decreases(ts: Seq<TokenV>, i: int) {
    if 0 <= i <= ts.len() {
        lemma_span_end_bounds(ts, i);
    }
}

/// Walking an open argument span from position `j` to the start of
/// position `m` leaves the parser's state unchanged.
proof fn lemma_parse_span_walk(
    ts: Seq<TokenV>,
    st: int,
    j: int,
    m: int,
    cur: Option<BuilderV>,
    acc: Seq<CmdV>,
)
    requires
        0 < j <= m < ts.len(),
        0 <= st < j,
        forall|x: int| j <= x < m ==> arg_token(#[trigger] ts[x]),
        forall|x: int| j <= x < m ==> order_check(Some(ts[x - 1]), #[trigger] ts[x]) == Ok::<
            (),
            SyntaxError,
        >(()),
    ensures
        parse_loop(ts, j, Some(ts[j - 1]), Some(st), cur, acc) == parse_loop(
            ts,
            m,
            Some(ts[m - 1]),
            Some(st),
            cur,
            acc,
        ),
    decreases m - j,
{
    if j < m {
        assert(arg_token(ts[j]));
        assert(parse_step(ts, j, Some(st), cur, acc) == Ok::<
            (Option<int>, Option<BuilderV>, Seq<CmdV>),
            SyntaxError,
        >((Some(st), cur, acc)));
        lemma_parse_span_walk(ts, st, j + 1, m, cur, acc);
    }
}

/// Walking an open argument span that runs to the end of the input ends the
/// parse: the span is compiled and the open command finalized.
proof fn lemma_parse_span_to_finish(
    ts: Seq<TokenV>,
    st: int,
    j: int,
    cur: Option<BuilderV>,
    acc: Seq<CmdV>,
)
    requires
        0 < j < ts.len(),
        0 <= st < j,
        forall|x: int| j <= x < ts.len() ==> arg_token(#[trigger] ts[x]),
        forall|x: int| j <= x < ts.len() ==> order_check(Some(ts[x - 1]), #[trigger] ts[x]) == Ok::<
            (),
            SyntaxError,
        >(()),
    ensures
        parse_loop(ts, j, Some(ts[j - 1]), Some(st), cur, acc) == parse_finish(
            ts,
            Some(st),
            cur,
            acc,
        ),
    decreases ts.len() - j,
{
    assert(arg_token(ts[j]));
    assert(parse_step(ts, j, Some(st), cur, acc) == Ok::<
        (Option<int>, Option<BuilderV>, Seq<CmdV>),
        SyntaxError,
    >((Some(st), cur, acc)));
    if j < ts.len() - 1 {
        lemma_parse_span_to_finish(ts, st, j + 1, cur, acc);
    } else {
        match parse_finish(ts, Some(st), cur, acc) {
            Ok(acc2) => {
                assert(parse_loop(ts, j + 1, Some(ts[j]), None, None, acc2) == Ok::<
                    Seq<CmdV>,
                    SyntaxError,
                >(acc2));
            },
            Err(_) => {},
        }
    }
}

/// Parsing a well-formed argument region loads the region's arguments into
/// the open builder and finalizes it at the end of the line.
proof fn lemma_parse_region(ts: Seq<TokenV>, i: int, b: BuilderV, acc: Seq<CmdV>)
    requires
        0 < i,
        args_region_ok(ts, i),
    ensures
        parse_loop(ts, i, Some(TokenV::Space), None, Some(b), acc) == (match spec_build(
            b.verb,
            b.args + region_args(ts, i),
        ) {
            Ok(c) => Ok::<Seq<CmdV>, SyntaxError>(acc.push(c)),
            Err(e) => Err::<Seq<CmdV>, SyntaxError>(e),
        }),
    decreases ts.len() - i,
{
    lemma_span_end_bounds(ts, i);
    let m = span_end(ts, i);
    let arg = spec_compile_argument(ts.subrange(i, m))->Ok_0;
    assert(arg_token(ts[i]));
    assert(i < m);
    // the first token of the span opens it
    assert(parse_step(ts, i, None, Some(b), acc) == Ok::<
        (Option<int>, Option<BuilderV>, Seq<CmdV>),
        SyntaxError,
    >((Some(i), Some(b), acc)));
    let b1 = BuilderV { verb: b.verb, args: b.args.push(arg) };
    if m >= ts.len() {
        // the span runs to the end of the line
        assert(region_args(ts, i) =~= seq![arg]);
        assert(b.args + region_args(ts, i) =~= b.args.push(arg));
        if i == ts.len() - 1 {
            assert(ts.subrange(i, m) =~= ts.subrange(i, ts.len() as int));
            match parse_finish(ts, Some(i), Some(b), acc) {
                Ok(acc2) => {
                    assert(parse_loop(ts, i + 1, Some(ts[i]), None, None, acc2) == Ok::<
                        Seq<CmdV>,
                        SyntaxError,
                    >(acc2));
                },
                Err(_) => {},
            }
        } else {
            lemma_parse_span_to_finish(ts, i, i + 1, Some(b), acc);
        }
    } else {
        // the span is closed by a space, and another region follows
        assert(ts[m] is Space);
        lemma_parse_span_walk(ts, i, i + 1, m, Some(b), acc);
        // the space at m compiles the span and stores the argument
        assert(parse_step(ts, m, Some(i), Some(b), acc) == Ok::<
            (Option<int>, Option<BuilderV>, Seq<CmdV>),
            SyntaxError,
        >((None, Some(b1), acc)));
        assert(m != ts.len() - 1);
        lemma_parse_region(ts, m + 1, b1, acc);
        assert(b1.args + region_args(ts, m + 1) =~= b.args + region_args(ts, i)) by {
            assert(region_args(ts, i) == seq![arg] + region_args(ts, m + 1));
        }
    }
}

/// A well-formed single-verb line with arguments its verb accepts parses to
/// exactly one command, with no error of any kind.
///
/// A line is one command keyword, a space, and a well-formed argument
/// region (or nothing at all, for a verb that takes no arguments); the
/// verb's validator must accept the compiled arguments.
pub proof fn lemma_single_verb_line_parses(ts: Seq<TokenV>, v: CommandType)
    requires
        ts.len() >= 1,
        ts[0] == TokenV::Command(v),
        ts.len() == 1 || ts[1] is Space,
        ts.len() <= 2 ==> spec_build(v, Seq::empty()) is Ok,
        ts.len() > 2 ==> args_region_ok(ts, 2) && spec_build(v, region_args(ts, 2)) is Ok,
    ensures
        spec_generate_commands(ts) matches Ok(cmds) && cmds.len() == 1,
{
    let b0 = BuilderV { verb: v, args: Seq::empty() };
    assert(parse_step(ts, 0, None, None, Seq::empty()) == Ok::<
        (Option<int>, Option<BuilderV>, Seq<CmdV>),
        SyntaxError,
    >((None, Some(b0), Seq::empty())));
    if ts.len() == 1 {
        let c = spec_build(v, Seq::empty())->Ok_0;
        assert(parse_finish(ts, None, Some(b0), Seq::empty()) == Ok::<Seq<CmdV>, SyntaxError>(
            Seq::empty().push(c),
        ));
        assert(parse_loop(ts, 1, Some(ts[0]), None, None, Seq::empty().push(c)) == Ok::<
            Seq<CmdV>,
            SyntaxError,
        >(Seq::empty().push(c)));
        assert(spec_generate_commands(ts) == Ok::<Seq<CmdV>, SyntaxError>(Seq::empty().push(c)));
    } else {
        assert(parse_loop(ts, 0, None, None, None, Seq::empty()) == parse_loop(
            ts,
            1,
            Some(ts[0]),
            None,
            Some(b0),
            Seq::empty(),
        ));
        assert(order_check(Some(ts[0]), ts[1]) == Ok::<(), SyntaxError>(()));
        assert(parse_step(ts, 1, None, Some(b0), Seq::empty()) == Ok::<
            (Option<int>, Option<BuilderV>, Seq<CmdV>),
            SyntaxError,
        >((None, Some(b0), Seq::empty())));
        if ts.len() == 2 {
            let c = spec_build(v, Seq::empty())->Ok_0;
            assert(parse_finish(ts, None, Some(b0), Seq::empty()) == Ok::<Seq<CmdV>, SyntaxError>(
                Seq::empty().push(c),
            ));
            assert(parse_loop(ts, 2, Some(ts[1]), None, None, Seq::empty().push(c)) == Ok::<
                Seq<CmdV>,
                SyntaxError,
            >(Seq::empty().push(c)));
            assert(parse_loop(ts, 1, Some(ts[0]), None, Some(b0), Seq::empty()) == Ok::<
                Seq<CmdV>,
                SyntaxError,
            >(Seq::empty().push(c)));
        } else {
            assert(parse_loop(ts, 1, Some(ts[0]), None, Some(b0), Seq::empty()) == parse_loop(
                ts,
                2,
                Some(ts[1]),
                None,
                Some(b0),
                Seq::empty(),
            ));
            assert(Some(ts[1]) == Some(TokenV::Space));
            lemma_parse_region(ts, 2, b0, Seq::empty());
            assert(b0.args + region_args(ts, 2) =~= region_args(ts, 2));
            let c = spec_build(v, region_args(ts, 2))->Ok_0;
            assert(parse_loop(ts, 2, Some(TokenV::Space), None, Some(b0), Seq::empty()) == Ok::<
                Seq<CmdV>,
                SyntaxError,
            >(Seq::empty().push(c)));
        }
    }
}

/// The view of an optional token.
pub open spec fn opt_token_view(t: Option<Token>) -> Option<TokenV> {
    match t {
        Some(t) => Some(t@),
        None => None,
    }
}

/// The view of an optional open argument span.
pub open spec fn opt_start_view(s: Option<usize>) -> Option<int> {
    match s {
        Some(st) => Some(st as int),
        None => None,
    }
}

/// The view of an optional command builder.
pub open spec fn opt_builder_view(b: Option<CommandBuilder>) -> Option<BuilderV> {
    match b {
        Some(b) => Some(BuilderV { verb: b.command_type, args: args_view(b.arguments@) }),
        None => None,
    }
}

/// The view of a list of built commands.
pub open spec fn commands_view(cs: Seq<Command>) -> Seq<CmdV> {
    cs.map_values(|c: Command| c@)
}

/// Compile the token span `tokens[start..end)` into a typed argument (see
/// [`spec_compile_argument`]).
fn compile_argument(tokens: &Vec<Token>, start: usize, end: usize) -> (r: Result<
    Argument,
    SyntaxError,
>)
    requires
        start <= end <= tokens@.len(),
    ensures
        ({
            let ts = tokens_view(tokens@).subrange(start as int, end as int);
            match r {
                Ok(arg) => spec_compile_argument(ts) == Ok::<ArgV, SyntaxError>(arg@),
                Err(e) => spec_compile_argument(ts) == Err::<ArgV, SyntaxError>(e),
            }
        }),
{
    if start >= end {
        return Err(SyntaxError::UnexpectedToken);
    }
    proof {
        let s0 = start as int;
        assert(tokens_view(tokens@).subrange(s0, end as int)[0] == tokens@[s0]@);
    }
    match &tokens[start] {
        Token::Word(_) => {
            match compile_path(tokens, start, end) {
                Ok(p) => Ok(Argument::Path(p)),
                Err(e) => Err(e),
            }
        },
        Token::Slash => {
            match compile_path(tokens, start, end) {
                Ok(p) => Ok(Argument::Path(p)),
                Err(e) => Err(e),
            }
        },
        Token::PreviousDir => {
            match compile_path(tokens, start, end) {
                Ok(p) => Ok(Argument::Path(p)),
                Err(e) => Err(e),
            }
        },
        Token::Number(n) => Ok(Argument::Number(*n)),
        _ => Err(SyntaxError::UnexpectedToken),
    }
}

/// Parses a vector of tokens into the executable commands of the line.
pub struct Parser {
    /// Index of the current token being parsed.
    pub cursor: usize,
    /// The builder that found arguments are loaded into, when a command
    /// keyword has opened one.
    pub current_command: Option<CommandBuilder>,
    /// The previously consumed token, for the token-order grammar.
    pub previous_token: Option<Token>,
    /// The starting index of the argument span being accumulated, if any.
    pub arg_start: Option<usize>,
    /// The input tokens.
    pub tokens: Vec<Token>,
}

impl Parser {
    /// Create a new `Parser` over the input tokens.
    pub fn new(tokens: Vec<Token>) -> (r: Self)
        ensures
            r.tokens == tokens,
            r.cursor == 0,
            r.current_command is None,
            r.previous_token is None,
            r.arg_start is None,
    {
        Self { tokens, current_command: None, previous_token: None, cursor: 0, arg_start: None }
    }

    /// Check the current token against the token-order grammar (see
    /// [`order_check`]).
    fn validate_token_order(&self) -> (r: Result<(), SyntaxError>)
        requires
            self.cursor < self.tokens@.len(),
        ensures
            r == order_check(
                opt_token_view(self.previous_token),
                self.tokens@[self.cursor as int]@,
            ),
    {
        match &self.previous_token {
            Some(Token::Slash) => match &self.tokens[self.cursor] {
                Token::Word(..) => Ok(()),
                Token::And => Ok(()),
                Token::Space => Ok(()),
                _ => Err(SyntaxError::UnexpectedToken),
            },
            Some(Token::PreviousDir) => {
                if let Token::Slash = &self.tokens[self.cursor] {
                    Ok(())
                } else {
                    Err(SyntaxError::UnexpectedToken)
                }
            },
            Some(Token::Dot) => {
                if let Token::Word(..) = &self.tokens[self.cursor] {
                    Ok(())
                } else {
                    Err(SyntaxError::UnexpectedToken)
                }
            },
            Some(Token::Word(..)) => match &self.tokens[self.cursor] {
                Token::And => Ok(()),
                Token::Slash => Ok(()),
                Token::Dot => Ok(()),
                Token::Space => Ok(()),
                _ => Err(SyntaxError::UnexpectedToken),
            },
            Some(Token::Command(..)) => match &self.tokens[self.cursor] {
                Token::Space => Ok(()),
                _ => Err(SyntaxError::UnexpectedToken),
            },
            Some(Token::Space) => match &self.tokens[self.cursor] {
                Token::Dot => Err(SyntaxError::UnexpectedToken),
                _ => Ok(()),
            },
            Some(Token::And) => match &self.tokens[self.cursor] {
                Token::Command(..) => Ok(()),
                Token::Space => Ok(()),
                _ => Err(SyntaxError::UnexpectedToken),
            },
            Some(Token::Number(..)) => match &self.tokens[self.cursor] {
                Token::Space => Ok(()),
                _ => Err(SyntaxError::UnexpectedToken),
            },
            Some(Token::UnexpectedToken(..)) => Ok(()),
            None => {
                if let Token::Command(..) = &self.tokens[self.cursor] {
                    Ok(())
                } else {
                    Err(SyntaxError::InvalidCommand)
                }
            },
        }
    }

    /// Generate the executable commands of the line: one or more, since
    /// commands chain with the `&&` operator (see
    /// [`spec_generate_commands`]).
    #[verifier::rlimit(60)]
    pub fn generate_commands(&mut self) -> (r: Result<Vec<Command>, SyntaxError>)
        requires
            old(self).cursor == 0,
            old(self).current_command is None,
            old(self).previous_token is None,
            old(self).arg_start is None,
        ensures
            ({
                let res = spec_generate_commands(tokens_view(old(self).tokens@));
                match r {
                    Ok(cmds) => res == Ok::<Seq<CmdV>, SyntaxError>(commands_view(cmds@)),
                    Err(e) => res == Err::<Seq<CmdV>, SyntaxError>(e),
                }
            }),
    {
        let ghost ts = tokens_view(self.tokens@);
        if self.tokens.len() < 1 {
            return Err(SyntaxError::CommandNotProvided);
        }
        let mut commands: Vec<Command> = Vec::new();
        proof {
            assert(commands_view(commands@) =~= Seq::<CmdV>::empty());
        }
        while self.cursor < self.tokens.len()
            invariant
                self.tokens == old(self).tokens,
                ts == tokens_view(self.tokens@),
                self.cursor <= self.tokens@.len(),
                match self.arg_start {
                    Some(st) => st < self.cursor,
                    None => true,
                },
                parse_loop(ts, 0, None, None, None, Seq::empty()) == parse_loop(
                    ts,
                    self.cursor as int,
                    opt_token_view(self.previous_token),
                    opt_start_view(self.arg_start),
                    opt_builder_view(self.current_command),
                    commands_view(commands@),
                ),
            decreases self.tokens@.len() - self.cursor,
        {
            let ghost prev0 = opt_token_view(self.previous_token);
            let ghost start0 = opt_start_view(self.arg_start);
            let ghost cur0 = opt_builder_view(self.current_command);
            let ghost acc0 = commands_view(commands@);
            proof {
                assert(ts[self.cursor as int] == self.tokens@[self.cursor as int]@);
            }
            // validate the order of the tokens for each token
            if let Err(e) = self.validate_token_order() {
                return Err(e);
            }
            match &self.tokens[self.cursor] {
                Token::Command(command_type) => {
                    // open a new command
                    self.current_command = Some(CommandBuilder::new(*command_type));
                    proof {
                        assert(args_view(Seq::<Argument>::empty()) =~= Seq::<ArgV>::empty());
                    }
                },
                Token::And => {
                    // finalize the open command
                    if let Some(command) = self.current_command.take() {
                        let ghost cmds0 = commands_view(commands@);
                        match command.build() {
                            Ok(c) => {
                                commands.push(c);
                                proof {
                                    assert(commands_view(commands@) =~= cmds0.push(c@));
                                }
                            },
                            Err(e) => {
                                return Err(e);
                            },
                        }
                    }
                },
                Token::Space => {
                    if let Some(arg_start) = self.arg_start {
                        // compile the accumulated argument span
                        let arg = match compile_argument(&self.tokens, arg_start, self.cursor) {
                            Ok(arg) => arg,
                            Err(e) => {
                                return Err(e);
                            },
                        };
                        let ghost b0 = opt_builder_view(self.current_command);
                        match &mut self.current_command {
                            Some(command) => {
                                let ghost av = args_view(command.arguments@);
                                command.add_argument(arg);
                                proof {
                                    assert(args_view(command.arguments@) =~= av.push(arg@));
                                }
                            },
                            None => {},
                        }
                        self.arg_start = None;
                        proof {
                            assert(opt_builder_view(self.current_command) == add_arg(b0, arg@));
                        }
                    }
                },
                Token::UnexpectedToken(_) => {
                    // non-fatal; the grammar permits anything after it
                },
                _ => {
                    // open an argument span at this token if none is open
                    if self.arg_start.is_none() {
                        self.arg_start = Some(self.cursor);
                    }
                },
            }
            proof {
                assert(parse_step(ts, self.cursor as int, start0, cur0, acc0) == Ok::<
                    (Option<int>, Option<BuilderV>, Seq<CmdV>),
                    SyntaxError,
                >(
                    (
                        opt_start_view(self.arg_start),
                        opt_builder_view(self.current_command),
                        commands_view(commands@),
                    ),
                ));
            }
            // after the final token, compile an open argument span and
            // finalize the open command
            if self.cursor == self.tokens.len() - 1 {
                let ghost start1 = opt_start_view(self.arg_start);
                let ghost cur1 = opt_builder_view(self.current_command);
                let ghost acc1 = commands_view(commands@);
                if let Some(arg_start) = self.arg_start {
                    let arg = match compile_argument(&self.tokens, arg_start, self.tokens.len()) {
                        Ok(arg) => arg,
                        Err(e) => {
                            return Err(e);
                        },
                    };
                    let ghost b1 = opt_builder_view(self.current_command);
                    match &mut self.current_command {
                        Some(command) => {
                            let ghost av = args_view(command.arguments@);
                            command.add_argument(arg);
                            proof {
                                assert(args_view(command.arguments@) =~= av.push(arg@));
                            }
                        },
                        None => {},
                    }
                    self.arg_start = None;
                    proof {
                        assert(opt_builder_view(self.current_command) == add_arg(b1, arg@));
                    }
                }
                if let Some(command) = self.current_command.take() {
                    let ghost cmds0 = commands_view(commands@);
                    match command.build() {
                        Ok(c) => {
                            commands.push(c);
                            proof {
                                assert(commands_view(commands@) =~= cmds0.push(c@));
                            }
                        },
                        Err(e) => {
                            return Err(e);
                        },
                    }
                }
                proof {
                    assert(parse_finish(ts, start1, cur1, acc1) == Ok::<Seq<CmdV>, SyntaxError>(
                        commands_view(commands@),
                    ));
                }
            }
            self.previous_token = Some(self.tokens[self.cursor].clone());
            self.cursor += 1;
        }
        Ok(commands)
    }
}

} // verus!
