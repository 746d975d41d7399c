//! Line ends at the end of the input do not change what the input spells.
use vstd::prelude::*;
use crate::lang::ast::{ModuleModel, TermModel};
use crate::lang::source_location::SourceLocation;
use crate::lang::symbol::Symbol;
use crate::parser::{
    arms, block_terms, branch, branch_arm, capture_names, condition, function_body, import,
    import_names, import_naming, loop_, loop_rest, module_items, parsed, single_line, skip_lines,
    term_at, BlockEndSymbol,
};
use crate::tokenizer::{PlacedToken, TokenModel};

verus! {

/// `more` is `toks` with nothing but line ends behind it.
pub open spec fn with_line_ends(toks: Seq<PlacedToken>, more: Seq<PlacedToken>) -> bool {
    &&& toks.len() <= more.len()
    &&& forall|i: int| 0 <= i < toks.len() ==> #[trigger] more[i] == toks[i]
    &&& forall|i: int|
        toks.len() <= i < more.len() ==> (#[trigger] more[i]).value == TokenModel::Symbol(
            Symbol::LineEnd,
        )
}

/// Among the line ends at the end, skipping line ends reaches the end.
proof fn skip_in_tail(toks: Seq<PlacedToken>, more: Seq<PlacedToken>, pos: int)
    requires
        with_line_ends(toks, more),
        toks.len() <= pos <= more.len(),
    ensures
        skip_lines(more, pos) == more.len(),
    decreases more.len() - pos,
{
    if pos < more.len() {
        skip_in_tail(toks, more, pos + 1);
    }
}

/// Skipping line ends stops at the same token, or runs to the end in both.
proof fn skip_stable(toks: Seq<PlacedToken>, more: Seq<PlacedToken>, pos: int)
    requires
        with_line_ends(toks, more),
        0 <= pos <= toks.len(),
    ensures
        pos <= skip_lines(toks, pos) <= toks.len(),
        skip_lines(toks, pos) < toks.len() ==> skip_lines(more, pos) == skip_lines(toks, pos),
        skip_lines(toks, pos) == toks.len() ==> skip_lines(more, pos) == more.len(),
    decreases toks.len() - pos,
{
    if pos < toks.len() {
        if toks[pos].value == TokenModel::Symbol(Symbol::LineEnd) {
            skip_stable(toks, more, pos + 1);
        }
    } else {
        skip_in_tail(toks, more, pos);
    }
}

/// From among the line ends at the end, the rest of the input adds nothing to a module.
proof fn items_in_tail(toks: Seq<PlacedToken>, more: Seq<PlacedToken>, pos: int, acc: ModuleModel)
    requires
        with_line_ends(toks, more),
        toks.len() <= pos <= more.len(),
    ensures
        module_items(more, pos, acc) == Ok::<ModuleModel, crate::parse_error::ParseError>(acc),
    decreases more.len() - pos,
{
    if pos < more.len() {
        items_in_tail(toks, more, pos + 1, acc);
    }
}

/// The names of a capture that is closed are read the same.
proof fn capture_stable(
    toks: Seq<PlacedToken>,
    more: Seq<PlacedToken>,
    pos: int,
    start: SourceLocation,
    acc: Seq<TermModel>,
)
    requires
        with_line_ends(toks, more),
        0 <= pos <= toks.len(),
        capture_names(toks, pos, start, acc) is Ok,
    ensures
        capture_names(more, pos, start, acc) == capture_names(toks, pos, start, acc),
        pos < capture_names(toks, pos, start, acc)->Ok_0.1 <= toks.len(),
    decreases toks.len() - pos,
{
    match toks[pos].value {
        TokenModel::Name(n) => {
            capture_stable(
                toks,
                more,
                pos + 1,
                start,
                seq![TermModel::Capture(n, crate::parser::range_of(toks[pos]))] + acc,
            );
        },
        TokenModel::Symbol(Symbol::LineEnd) => {
            capture_stable(toks, more, pos + 1, start, acc);
        },
        _ => {},
    }
}

/// The names of an import list that is closed are read the same.
proof fn import_names_stable(
    toks: Seq<PlacedToken>,
    more: Seq<PlacedToken>,
    pos: int,
    start: SourceLocation,
    acc: Seq<Seq<char>>,
)
    requires
        with_line_ends(toks, more),
        0 <= pos <= toks.len(),
        import_names(toks, pos, start, acc) is Ok,
    ensures
        import_names(more, pos, start, acc) == import_names(toks, pos, start, acc),
        pos < import_names(toks, pos, start, acc)->Ok_0.1 <= toks.len(),
    decreases toks.len() - pos,
{
    match toks[pos].value {
        TokenModel::Name(n) => {
            import_names_stable(toks, more, pos + 1, start, acc.push(n));
        },
        TokenModel::Symbol(Symbol::LineEnd) => {
            import_names_stable(toks, more, pos + 1, start, acc);
        },
        _ => {},
    }
}

/// An import that is complete is read the same.
proof fn import_stable(
    toks: Seq<PlacedToken>,
    more: Seq<PlacedToken>,
    pos: int,
    start: SourceLocation,
)
    requires
        with_line_ends(toks, more),
        0 <= pos <= toks.len(),
        import(toks, pos, start) is Ok,
    ensures
        import(more, pos, start) == import(toks, pos, start),
        pos < import(toks, pos, start)->Ok_0.1 <= toks.len(),
{
    skip_stable(toks, more, pos);
    let p = skip_lines(toks, pos);
    match toks[p].value {
        TokenModel::Symbol(Symbol::CurlyOpen) => {
            import_names_stable(toks, more, p + 1, toks[p].start, Seq::empty());
        },
        _ => {},
    }
    assert(import_naming(more, pos, start) == import_naming(toks, pos, start));
}

/// A token that starts no term in the input starts none in the longer input.
proof fn no_term_stable(toks: Seq<PlacedToken>, more: Seq<PlacedToken>, pos: int)
    requires
        with_line_ends(toks, more),
        0 <= pos < toks.len(),
        term_at(toks, pos) is None,
    ensures
        term_at(more, pos) is None,
{
}

/// A term that is complete is read the same.
proof fn term_stable(toks: Seq<PlacedToken>, more: Seq<PlacedToken>, pos: int)
    requires
        with_line_ends(toks, more),
        0 <= pos <= toks.len(),
        term_at(toks, pos) is Some,
        term_at(toks, pos)->0 is Ok,
    ensures
        term_at(more, pos) == term_at(toks, pos),
        pos < term_at(toks, pos)->0->Ok_0.1 <= toks.len(),
    decreases toks.len() - pos, 0int,
{
    let at = toks[pos].start;
    match toks[pos].value {
        TokenModel::Symbol(Symbol::Tilde) => {
            capture_stable(toks, more, pos + 1, at, Seq::empty());
        },
        TokenModel::Symbol(Symbol::CurlyOpen) => {
            branch_stable(toks, more, pos + 1, at);
        },
        TokenModel::Symbol(Symbol::SquareOpen) => {
            loop_stable(toks, more, pos + 1, at);
        },
        _ => {},
    }
}

/// A block that ends with a symbol is read the same.
proof fn block_stable(
    toks: Seq<PlacedToken>,
    more: Seq<PlacedToken>,
    pos: int,
    acc: Seq<TermModel>,
)
    requires
        with_line_ends(toks, more),
        0 <= pos <= toks.len(),
        block_terms(toks, pos, acc) is Ok,
        block_terms(toks, pos, acc)->Ok_0.1 is Some,
    ensures
        block_terms(more, pos, acc) == block_terms(toks, pos, acc),
        pos < block_terms(toks, pos, acc)->Ok_0.2 <= toks.len(),
    decreases toks.len() - pos, 1int,
{
    match term_at(toks, pos) {
        Some(Ok((terms, p))) => {
            term_stable(toks, more, pos);
            block_stable(toks, more, p, acc + terms);
        },
        Some(Err(_)) => {},
        None => {
            no_term_stable(toks, more, pos);
            match toks[pos].value {
                TokenModel::Symbol(s) => {
                    if s == Symbol::LineEnd {
                        block_stable(toks, more, pos + 1, acc);
                    }
                },
                _ => {},
            }
        },
    }
}

/// A condition that is closed is read the same.
proof fn condition_stable(
    toks: Seq<PlacedToken>,
    more: Seq<PlacedToken>,
    pos: int,
    start: SourceLocation,
)
    requires
        with_line_ends(toks, more),
        0 <= pos <= toks.len(),
        condition(toks, pos, start) is Ok,
    ensures
        condition(more, pos, start) == condition(toks, pos, start),
        pos < condition(toks, pos, start)->Ok_0.1 <= toks.len(),
    decreases toks.len() - pos, 2int,
{
    block_stable(toks, more, pos, Seq::empty());
}

/// An arm of a branch that is complete is read the same.
proof fn arm_stable(
    toks: Seq<PlacedToken>,
    more: Seq<PlacedToken>,
    pos: int,
    start: SourceLocation,
)
    requires
        with_line_ends(toks, more),
        0 <= pos <= toks.len(),
        branch_arm(toks, pos, start) is Ok,
    ensures
        branch_arm(more, pos, start) == branch_arm(toks, pos, start),
        pos < branch_arm(toks, pos, start)->Ok_0.3 <= toks.len(),
    decreases toks.len() - pos, 3int,
{
    condition_stable(toks, more, pos, start);
    let p = condition(toks, pos, start)->Ok_0.1;
    block_stable(toks, more, p, Seq::empty());
}

/// The arms of a branch that is closed are read the same.
proof fn arms_stable(
    toks: Seq<PlacedToken>,
    more: Seq<PlacedToken>,
    pos: int,
    start: SourceLocation,
    acc: Seq<(Seq<TermModel>, Seq<TermModel>)>,
)
    requires
        with_line_ends(toks, more),
        0 <= pos <= toks.len(),
        arms(toks, pos, start, acc) is Ok,
    ensures
        arms(more, pos, start, acc) == arms(toks, pos, start, acc),
        pos < arms(toks, pos, start, acc)->Ok_0.1 <= toks.len(),
    decreases toks.len() - pos, 4int,
{
    arm_stable(toks, more, pos, start);
    match branch_arm(toks, pos, start) {
        Ok((cond, body, more_arms, p)) => {
            match more_arms {
                Some(s) => {
                    arms_stable(toks, more, p, s, acc.push((cond, body)));
                },
                None => {},
            }
        },
        Err(_) => {},
    }
}

/// A branch that is closed is read the same.
proof fn branch_stable(
    toks: Seq<PlacedToken>,
    more: Seq<PlacedToken>,
    pos: int,
    start: SourceLocation,
)
    requires
        with_line_ends(toks, more),
        0 <= pos <= toks.len(),
        branch(toks, pos, start) is Ok,
    ensures
        branch(more, pos, start) == branch(toks, pos, start),
        pos < branch(toks, pos, start)->Ok_0.1 <= toks.len(),
    decreases toks.len() - pos, 5int,
{
    skip_stable(toks, more, pos);
    let p = skip_lines(toks, pos);
    arms_stable(toks, more, p + 1, start, Seq::empty());
}

/// A loop that is closed is read the same.
proof fn loop_rest_stable(
    toks: Seq<PlacedToken>,
    more: Seq<PlacedToken>,
    pos: int,
    start: SourceLocation,
    pre: Option<Seq<TermModel>>,
)
    requires
        with_line_ends(toks, more),
        0 <= pos <= toks.len(),
        loop_rest(toks, pos, start, pre) is Ok,
    ensures
        loop_rest(more, pos, start, pre) == loop_rest(toks, pos, start, pre),
        pos < loop_rest(toks, pos, start, pre)->Ok_0.1 <= toks.len(),
    decreases toks.len() - pos, 4int,
{
    block_stable(toks, more, pos, Seq::empty());
    match block_terms(toks, pos, Seq::empty()) {
        Ok((body, Some(e), p)) => {
            if e.symbol == BlockEndSymbol::ParenOpen {
                condition_stable(toks, more, p, e.at);
                let q = condition(toks, p, e.at)->Ok_0.1;
                skip_stable(toks, more, q);
            }
        },
        _ => {},
    }
}

/// A loop that is closed is read the same.
proof fn loop_stable(
    toks: Seq<PlacedToken>,
    more: Seq<PlacedToken>,
    pos: int,
    start: SourceLocation,
)
    requires
        with_line_ends(toks, more),
        0 <= pos <= toks.len(),
        loop_(toks, pos, start) is Ok,
    ensures
        loop_(more, pos, start) == loop_(toks, pos, start),
        pos < loop_(toks, pos, start)->Ok_0.1 <= toks.len(),
    decreases toks.len() - pos, 5int,
{
    skip_stable(toks, more, pos);
    let p = skip_lines(toks, pos);
    if p < toks.len() && toks[p].value == TokenModel::Symbol(Symbol::ParenOpen) {
        condition_stable(toks, more, p + 1, toks[p].start);
        let q = condition(toks, p + 1, toks[p].start)->Ok_0.1;
        loop_rest_stable(toks, more, q, start, Some(condition(toks, p + 1, toks[p].start)->Ok_0.0));
    } else {
        if p == toks.len() {
            // at the end of the input the loop is not closed
            assert(block_terms(toks, p, Seq::empty())->Ok_0.1 is None);
        } else {
            loop_rest_stable(toks, more, p, start, None);
        }
    }
}

/// The body of a one-line function is read the same; only where it ends may differ,
/// when the line is the last and is now ended by a line end.
proof fn single_line_stable(
    toks: Seq<PlacedToken>,
    more: Seq<PlacedToken>,
    pos: int,
    acc: Seq<TermModel>,
)
    requires
        with_line_ends(toks, more),
        0 <= pos <= toks.len(),
        single_line(toks, pos, acc) is Ok,
    ensures
        single_line(more, pos, acc) is Ok,
        single_line(more, pos, acc)->Ok_0.0 == single_line(toks, pos, acc)->Ok_0.0,
        pos <= single_line(toks, pos, acc)->Ok_0.1 <= toks.len(),
        single_line(more, pos, acc)->Ok_0.1 == single_line(toks, pos, acc)->Ok_0.1 || (single_line(
            toks,
            pos,
            acc,
        )->Ok_0.1 == toks.len() && toks.len() < single_line(more, pos, acc)->Ok_0.1
            <= more.len()),
    decreases toks.len() - pos, 1int,
{
    if pos < toks.len() {
        match term_at(toks, pos) {
            Some(Ok((terms, p))) => {
                term_stable(toks, more, pos);
                single_line_stable(toks, more, p, acc + terms);
            },
            Some(Err(_)) => {},
            None => {
                no_term_stable(toks, more, pos);
            },
        }
    }
}

/// The body of a function is read the same; only where it ends may differ, when the
/// function is the last thing in the input.
proof fn function_body_stable(toks: Seq<PlacedToken>, more: Seq<PlacedToken>, pos: int)
    requires
        with_line_ends(toks, more),
        0 <= pos <= toks.len(),
        function_body(toks, pos) is Ok,
    ensures
        function_body(more, pos) is Ok,
        function_body(more, pos)->Ok_0.0 == function_body(toks, pos)->Ok_0.0,
        pos <= function_body(toks, pos)->Ok_0.1 <= toks.len(),
        function_body(more, pos)->Ok_0.1 == function_body(toks, pos)->Ok_0.1 || (function_body(
            toks,
            pos,
        )->Ok_0.1 == toks.len() && toks.len() < function_body(more, pos)->Ok_0.1 <= more.len()),
{
    if pos < toks.len() {
        if toks[pos].value == TokenModel::Symbol(Symbol::LineEnd) {
        } else if toks[pos].value == TokenModel::Symbol(Symbol::CurlyOpen) {
            block_stable(toks, more, pos + 1, Seq::empty());
        } else {
            single_line_stable(toks, more, pos, Seq::empty());
        }
    }
}

/// The modules that an input and the longer input spell from matching positions are
/// the same.
proof fn items_stable(toks: Seq<PlacedToken>, more: Seq<PlacedToken>, pos: int, acc: ModuleModel)
    requires
        with_line_ends(toks, more),
        0 <= pos <= toks.len(),
        module_items(toks, pos, acc) is Ok,
    ensures
        module_items(more, pos, acc) == module_items(toks, pos, acc),
    decreases toks.len() - pos,
{
    if pos >= toks.len() {
        items_in_tail(toks, more, pos, acc);
    } else {
        let at = toks[pos].start;
        match toks[pos].value {
            TokenModel::Name(n) => {
                skip_stable(toks, more, pos + 1);
                let p = skip_lines(toks, pos + 1);
                let skipped = skip_lines(more, pos + 1);
                if p < toks.len() && toks[p].value == TokenModel::Symbol(Symbol::Colon) {
                    function_body_stable(toks, more, p + 1);
                    let body = function_body(toks, p + 1)->Ok_0.0;
                    let q = function_body(toks, p + 1)->Ok_0.1;
                    let closed = function_body(more, p + 1)->Ok_0.1;
                    let next = ModuleModel {
                        imports: acc.imports,
                        functions: acc.functions.push(
                            crate::lang::ast::FunctionModel { name: n, body },
                        ),
                        body: acc.body,
                    };
                    if closed == q {
                        items_stable(toks, more, q, next);
                    } else {
                        items_in_tail(toks, more, closed, next);
                    }
                } else {
                    let next = ModuleModel {
                        imports: acc.imports,
                        functions: acc.functions,
                        body: acc.body.push(TermModel::Name(n, crate::parser::range_of(toks[pos]))),
                    };
                    if p < toks.len() {
                        items_stable(toks, more, p, next);
                    } else {
                        items_in_tail(toks, more, skipped, next);
                    }
                }
            },
            _ => {
                match term_at(toks, pos) {
                    Some(Ok((terms, p))) => {
                        term_stable(toks, more, pos);
                        items_stable(
                            toks,
                            more,
                            p,
                            ModuleModel {
                                imports: acc.imports,
                                functions: acc.functions,
                                body: acc.body + terms,
                            },
                        );
                    },
                    Some(Err(_)) => {},
                    None => {
                        no_term_stable(toks, more, pos);
                        match toks[pos].value {
                            TokenModel::Symbol(s) => {
                                if s == Symbol::LineEnd {
                                    items_stable(toks, more, pos + 1, acc);
                                } else if s == Symbol::Hash {
                                    import_stable(toks, more, pos + 1, at);
                                    let i = import(toks, pos + 1, at)->Ok_0.0;
                                    let p = import(toks, pos + 1, at)->Ok_0.1;
                                    items_stable(
                                        toks,
                                        more,
                                        p,
                                        ModuleModel {
                                            imports: acc.imports.push(i),
                                            functions: acc.functions,
                                            body: acc.body,
                                        },
                                    );
                                }
                            },
                            _ => {},
                        }
                    },
                }
            },
        }
    }
}

/// Line ends behind an input that spells a module do not change the module it spells.
pub proof fn trailing_line_ends_are_ignored(toks: Seq<PlacedToken>, more: Seq<PlacedToken>)
    requires
        with_line_ends(toks, more),
        parsed(toks) is Ok,
    ensures
        parsed(more) == parsed(toks),
{
    items_stable(
        toks,
        more,
        0,
        ModuleModel { imports: Seq::empty(), functions: Seq::empty(), body: Seq::empty() },
    );
}

} // verus!
