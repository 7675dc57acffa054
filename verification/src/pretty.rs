//! Laying out text by its curly braces.

use vstd::prelude::*;

verus! {

/// `count` blanks.
pub open spec fn blanks(count: nat) -> Seq<char> {
    Seq::new(count, |i: int| ' ')
}

/// The nesting depth after a closing brace was met at `depth`.  A closing
/// brace that closes nothing leaves the depth at zero.
pub open spec fn closed(depth: nat) -> nat {
    if depth > 0 {
        (depth - 1) as nat
    } else {
        0
    }
}

/// `text` laid out by its curly braces, where it begins at the nesting depth
/// `depth` and every level is indented by `indent` blanks.
///
/// An opening brace is followed by a line break and the margin of the level
/// that it opens.  A closing brace stands at the beginning of a line of its
/// own, at the margin of the level to which it returns.  Every other
/// character stands as it is.
pub open spec fn laid_out(text: Seq<char>, indent: nat, depth: nat) -> Seq<char>
    decreases text.len(),
{
    if text.len() == 0 {
        Seq::empty()
    } else if text[0] == '{' {
        seq!['{', '\n'] + blanks(indent * (depth + 1)) + laid_out(
            text.drop_first(),
            indent,
            depth + 1,
        )
    } else if text[0] == '}' {
        seq!['\n'] + blanks(indent * closed(depth)) + seq!['}'] + laid_out(
            text.drop_first(),
            indent,
            closed(depth),
        )
    } else {
        seq![text[0]] + laid_out(text.drop_first(), indent, depth)
    }
}

/// `String::push` of the standard library: `character` is appended to
/// `text`, which is otherwise left as it was.
#[verifier::external_body]
fn push_char(text: &mut String, character: char)
    ensures
        final(text)@ == old(text)@.push(character),
{
    text.push(character)
}

/// Appends the margin of the nesting depth `depth`.
fn push_margin(text: &mut String, indent: usize, depth: usize)
    ensures
        final(text)@ == old(text)@ + blanks((indent * depth) as nat),
{
    let ghost before = text@;
    let mut level: usize = 0;
    assert(before + blanks(0) =~= before);
    assert(indent * 0 == 0);
    while level < depth
        invariant
            level <= depth,
            text@ == before + blanks((indent * level) as nat),
        decreases depth - level,
    {
        let mut column: usize = 0;
        while column < indent
            invariant
                column <= indent,
                level < depth,
                text@ == before + blanks((indent * level + column) as nat),
            decreases indent - column,
        {
            push_char(text, ' ');
            assert(blanks((indent * level + column) as nat).push(' ') =~= blanks(
                (indent * level + column + 1) as nat,
            ));
            assert(text@ =~= before + blanks((indent * level + column + 1) as nat));
            column += 1;
        }
        assert(indent * level + indent == indent * (level + 1)) by (nonlinear_arith);
        level += 1;
    }
}

/// Lays `text` out by its curly braces, with `indent` blanks for each level
/// of nesting.  See [`laid_out`].
#[verifier::loop_isolation(false)]
pub fn pretty_curly_print(text: &str, indent: usize) -> (laid: String)
    ensures
        laid@ == laid_out(text@, indent as nat, 0),
{
    // The depth never exceeds the number of characters read, which this
    // count shows to fit.
    let length = text.unicode_len();
    let mut laid = String::new();
    let mut depth: usize = 0;
    assert(text@.skip(0) =~= text@);
    assert(laid@ + laid_out(text@, indent as nat, 0) =~= laid_out(text@, indent as nat, 0));
    let characters = text.chars();
    for character in position: characters
        invariant
            position.seq() == text@,
            depth <= position.index(),
            laid@ + laid_out(text@.skip(position.index()), indent as nat, depth as nat) == laid_out(
                text@,
                indent as nat,
                0,
            ),
    {
        let ghost at = position.index();
        let ghost rest = text@.skip(at);
        let ghost before = laid@;
        let ghost level = depth as nat;
        assert(rest.len() > 0 && rest[0] == character);
        assert(rest.drop_first() =~= text@.skip(at + 1));
        if character == '{' {
            depth += 1;
            push_char(&mut laid, '{');
            push_char(&mut laid, '\n');
            push_margin(&mut laid, indent, depth);
            assert(laid@ =~= before + (seq!['{', '\n'] + blanks((indent * depth) as nat)));
        } else if character == '}' {
            if depth > 0 {
                depth -= 1;
            }
            push_char(&mut laid, '\n');
            push_margin(&mut laid, indent, depth);
            push_char(&mut laid, '}');
            assert(laid@ =~= before + (seq!['\n'] + blanks((indent * depth) as nat) + seq!['}']));
        } else {
            push_char(&mut laid, character);
            assert(laid@ =~= before + seq![character]);
        }
        assert(laid@ + laid_out(text@.skip(at + 1), indent as nat, depth as nat) =~= before
            + laid_out(rest, indent as nat, level));
    }
    assert(text@.skip(text@.len() as int) =~= Seq::<char>::empty());
    laid
}

} // verus!
